//! Who a request comes from: the session cookie, the identity behind it,
//! and the rules of signup and login.
//!
//! The store is not reached from here. A function that needs a row takes
//! what the store answered, and one that changes the store returns what is
//! to be written.

use crate::errors::{CorruptData, LoginError, NotLoggedIn, SignupError};
use crate::password::{
    hash_of, hash_password, is_well_formed_hash, pbkdf2_accepts, phc_well_formed, verify_password,
};
use crate::token::{le_bytes, parse_decimal, SessionToken};
use crate::users::PermissionLevel;
use axum_login::tower_sessions::cookie::Cookie;
use vstd::prelude::*;
use vstd::string::*;

verus! {

/// The account behind a session, as far as a request needs it.
#[derive(Debug, Clone)]
pub struct User {
    pub username: String,
    pub permission_level: PermissionLevel,
}

/// The identity of a request. A request without a valid session cookie is
/// anonymous and stays so. One with a token is unresolved until the store
/// has answered the lookup of the token. From then on it is resolved, with
/// the account behind the token, or known to have no account, and the
/// store is not asked again.
#[derive(Debug, Clone)]
pub enum AuthState {
    Anonymous,
    Unresolved(SessionToken),
    Resolved(SessionToken, User),
    /// The store was asked and gave no account for the token.
    NoAccount(SessionToken),
}

/// An identity as plain values.
pub enum AuthView {
    Anonymous,
    Unresolved(u128),
    Resolved(u128, Seq<char>, PermissionLevel),
    NoAccount(u128),
}

impl View for AuthState {
    type V = AuthView;

    open spec fn view(&self) -> AuthView {
        match self {
            AuthState::Anonymous => AuthView::Anonymous,
            AuthState::Unresolved(token) => AuthView::Unresolved(token@),
            AuthState::Resolved(token, user) => AuthView::Resolved(
                token@,
                user.username@,
                user.permission_level,
            ),
            AuthState::NoAccount(token) => AuthView::NoAccount(token@),
        }
    }
}

impl AuthView {
    /// The token to look up in the store, if a lookup is still due.
    pub open spec fn pending(self) -> Option<u128> {
        match self {
            AuthView::Unresolved(token) => Some(token),
            _ => None,
        }
    }

    /// The identity after the store has answered a lookup with a username
    /// and a stored permission level, or with nothing. Only an unresolved
    /// identity takes the answer in: it is resolved by a row with a
    /// permission level that is one, and has no account otherwise.
    pub open spec fn resolved_with(self, row: Option<(Seq<char>, i32)>) -> AuthView {
        match self {
            AuthView::Unresolved(token) => match row {
                Some((username, level)) => match PermissionLevel::of_level(level) {
                    Some(permission_level) => AuthView::Resolved(token, username, permission_level),
                    None => AuthView::NoAccount(token),
                },
                None => AuthView::NoAccount(token),
            },
            _ => self,
        }
    }

    /// The session token of the request, if it carries one.
    pub open spec fn token(self) -> Option<u128> {
        match self {
            AuthView::Anonymous => None,
            AuthView::Unresolved(token) => Some(token),
            AuthView::Resolved(token, _, _) => Some(token),
            AuthView::NoAccount(token) => Some(token),
        }
    }

    pub open spec fn logged_in(self) -> bool {
        !(self is Anonymous)
    }

    pub open spec fn is_admin(self) -> bool {
        self matches AuthView::Resolved(_, _, level) && level == PermissionLevel::Admin
    }

    /// The username of the resolved account.
    pub open spec fn username(self) -> Option<Seq<char>> {
        match self {
            AuthView::Resolved(_, username, _) => Some(username),
            _ => None,
        }
    }
}

/// Whether a character is white space, as `char::is_whitespace` and
/// `str::trim` take it: the Unicode property White_Space.
pub open spec fn is_whitespace(c: char) -> bool {
    ('\u{9}' <= c && c <= '\u{d}') || c == ' ' || c == '\u{85}' || c == '\u{a0}' || c
        == '\u{1680}' || ('\u{2000}' <= c && c <= '\u{200a}') || c == '\u{2028}' || c
        == '\u{2029}' || c == '\u{202f}' || c == '\u{205f}' || c == '\u{3000}'
}

/// A text without the white space at its start.
pub open spec fn trim_start(s: Seq<char>) -> Seq<char>
    decreases s.len(),
{
    if s.len() > 0 && is_whitespace(s.first()) {
        trim_start(s.drop_first())
    } else {
        s
    }
}

/// A text without the white space at its end.
pub open spec fn trim_end(s: Seq<char>) -> Seq<char>
    decreases s.len(),
{
    if s.len() > 0 && is_whitespace(s.last()) {
        trim_end(s.drop_last())
    } else {
        s
    }
}

/// A text without the white space at its start and at its end.
pub open spec fn trimmed(s: Seq<char>) -> Seq<char> {
    trim_end(trim_start(s))
}

/// A text without the pair of double quotes around it, if it has one.
pub open spec fn unquoted(s: Seq<char>) -> Seq<char> {
    if s.len() >= 2 && s.first() == '"' && s.last() == '"' {
        s.subrange(1, s.len() - 1)
    } else {
        s
    }
}

/// What stands before the first `c` in a text: all of it, if there is none.
pub open spec fn before(s: Seq<char>, c: char) -> Seq<char>
    decreases s.len(),
{
    if s.len() == 0 || s.first() == c {
        Seq::empty()
    } else {
        seq![s.first()] + before(s.drop_first(), c)
    }
}

/// What stands after the first `c` in a text, if there is one.
pub open spec fn after(s: Seq<char>, c: char) -> Option<Seq<char>>
    decreases s.len(),
{
    if s.len() == 0 {
        None
    } else if s.first() == c {
        Some(s.drop_first())
    } else {
        after(s.drop_first(), c)
    }
}

/// The name and the value of the cookie that a text holds. Only what
/// stands before the first semicolon counts. It is cut at its first equals
/// sign: the name is what stands before, trimmed, and the value what stands
/// after, trimmed, without one pair of double quotes around it, and
/// trimmed again. Without an equals sign, or with an empty name, the text
/// holds no cookie.
pub open spec fn cookie_pair(text: Seq<char>) -> Option<(Seq<char>, Seq<char>)> {
    let pair = before(text, ';');
    match after(pair, '=') {
        None => None,
        Some(raw_value) => {
            let name = trimmed(before(pair, '='));
            if name.len() == 0 {
                None
            } else {
                Some((name, trimmed(unquoted(trimmed(raw_value)))))
            }
        },
    }
}

/// Parses a text with `Cookie::from_str` and hands out what `Cookie::name`
/// and `Cookie::value` give for it. The parser reads the name and the value
/// from the first `;`-separated part as `cookie_pair` says, and fails where
/// that part has no `=` or an empty name; what follows the first semicolon
/// it takes for attributes, which change neither.
#[verifier::external_body]
fn parse_cookie(text: &str) -> (r: Option<(String, String)>)
    ensures
        match cookie_pair(text@) {
            Some(pair) => r is Some && r.unwrap().0@ == pair.0 && r.unwrap().1@ == pair.1,
            None => r is None,
        },
{
    match text.parse::<Cookie>() {
        Ok(cookie) => Some((cookie.name().to_owned(), cookie.value().to_owned())),
        Err(_) => None,
    }
}

/// The texts of a list of strings.
pub open spec fn header_texts(headers: Seq<String>) -> Seq<Seq<char>> {
    headers.map_values(|h: String| h@)
}

/// The parts of a `Cookie` header between its semicolons, in order. A text
/// without a semicolon is one part, and a part may be empty.
pub open spec fn cookie_pieces(text: Seq<char>) -> Seq<Seq<char>>
    decreases text.len(),
{
    if text.len() == 0 {
        seq![Seq::empty()]
    } else {
        let earlier = cookie_pieces(text.drop_last());
        if text.last() == ';' {
            earlier.push(Seq::empty())
        } else {
            earlier.drop_last().push(earlier.last().push(text.last()))
        }
    }
}

/// The cookies of a request: the parts of all its `Cookie` headers, in
/// order.
pub open spec fn request_cookies(headers: Seq<Seq<char>>) -> Seq<Seq<char>>
    decreases headers.len(),
{
    if headers.len() == 0 {
        Seq::empty()
    } else {
        cookie_pieces(headers.first()) + request_cookies(headers.drop_first())
    }
}

/// The value of the first cookie among the parts that is named
/// `user_token`.
pub open spec fn session_cookie(pieces: Seq<Seq<char>>) -> Option<Seq<char>>
    decreases pieces.len(),
{
    if pieces.len() == 0 {
        None
    } else {
        match cookie_pair(pieces[0]) {
            Some(pair) => if pair.0 == "user_token"@ {
                Some(pair.1)
            } else {
                session_cookie(pieces.drop_first())
            },
            None => session_cookie(pieces.drop_first()),
        }
    }
}

/// The identity that a request's `Cookie` headers give it: the first
/// cookie named `user_token` among all of them decides.
pub open spec fn identity_of(headers: Seq<Seq<char>>) -> AuthView {
    match session_cookie(request_cookies(headers)) {
        Some(value) => match parse_decimal(value) {
            Some(token) => AuthView::Unresolved(token),
            None => AuthView::Anonymous,
        },
        None => AuthView::Anonymous,
    }
}

/// The first session cookie of two lists of parts, one after the other, is
/// that of the first list, or else that of the second.
pub proof fn lemma_session_cookie_concat(a: Seq<Seq<char>>, b: Seq<Seq<char>>)
    ensures
        session_cookie(a + b) == match session_cookie(a) {
            Some(value) => Some(value),
            None => session_cookie(b),
        },
    decreases a.len(),
{
    if a.len() == 0 {
        assert(a + b =~= b);
    } else {
        assert((a + b)[0] == a[0]);
        assert((a + b).drop_first() =~= a.drop_first() + b);
        lemma_session_cookie_concat(a.drop_first(), b);
    }
}

/// No part of a header holds a semicolon.
pub proof fn lemma_pieces_hold_no_semicolon(text: Seq<char>)
    ensures
        cookie_pieces(text).len() >= 1,
        forall|k: int, j: int|
            0 <= k < cookie_pieces(text).len() && 0 <= j < cookie_pieces(text)[k].len()
                ==> cookie_pieces(text)[k][j] != ';',
    decreases text.len(),
{
    if text.len() > 0 {
        lemma_pieces_hold_no_semicolon(text.drop_last());
    }
}

/// The ASCII code of `;`.
const ASCII_SEMICOLON: u8 = 59;

fn is_semicolon(text: &str, ascii: bool, i: usize) -> (r: bool)
    requires
        i < text@.len(),
        ascii ==> text.is_ascii(),
    ensures
        r == (text@[i as int] == ';'),
{
    if ascii {
        text.get_ascii(i) == ASCII_SEMICOLON
    } else {
        text.get_char(i) == ';'
    }
}

fn part<'a>(text: &'a str, ascii: bool, from: usize, to: usize) -> (r: &'a str)
    requires
        from <= to <= text@.len(),
        ascii ==> text.is_ascii(),
    ensures
        r@ == text@.subrange(from as int, to as int),
{
    if ascii {
        text.substring_ascii(from, to)
    } else {
        text.substring_char(from, to)
    }
}

/// Cuts the text of a `Cookie` header at its semicolons.
pub fn split_cookies(header: &str) -> (r: Vec<String>)
    ensures
        header_texts(r@) == cookie_pieces(header@),
{
    let ascii = header.is_ascii();
    let n = header.unicode_len();
    let mut pieces: Vec<String> = Vec::new();
    let mut start: usize = 0;
    let mut i: usize = 0;
    proof {
        assert(header@.subrange(0, 0) =~= Seq::<char>::empty());
        assert(header_texts(pieces@).push(header@.subrange(0, 0)) =~= seq![Seq::<char>::empty()]);
    }
    while i < n
        invariant
            start <= i <= n,
            n == header@.len(),
            ascii ==> header.is_ascii(),
            cookie_pieces(header@.subrange(0, i as int)) == header_texts(pieces@).push(
                header@.subrange(start as int, i as int),
            ),
        decreases n - i,
    {
        let ghost done = header_texts(pieces@);
        let ghost current = header@.subrange(start as int, i as int);
        proof {
            let longer = header@.subrange(0, i + 1);
            assert(longer.drop_last() =~= header@.subrange(0, i as int));
            assert(longer.last() == header@[i as int]);
            assert(done.push(current).drop_last() =~= done);
            assert(current.push(header@[i as int]) =~= header@.subrange(start as int, i + 1));
        }
        if is_semicolon(header, ascii, i) {
            pieces.push(part(header, ascii, start, i).to_owned());
            start = i + 1;
            proof {
                assert(header_texts(pieces@) =~= done.push(current));
                assert(header@.subrange(start as int, i + 1) =~= Seq::<char>::empty());
            }
        }
        i = i + 1;
    }
    proof {
        assert(header@.subrange(0, n as int) =~= header@);
    }
    let ghost done = header_texts(pieces@);
    pieces.push(part(header, ascii, start, n).to_owned());
    assert(header_texts(pieces@) =~= done.push(header@.subrange(start as int, n as int)));
    pieces
}

/// The value of the first cookie among the parts that is named
/// `user_token`.
pub fn find_session_cookie(pieces: &Vec<String>) -> (r: Option<String>)
    ensures
        match session_cookie(header_texts(pieces@)) {
            Some(value) => r is Some && r.unwrap()@ == value,
            None => r is None,
        },
{
    let ghost all = header_texts(pieces@);
    let mut i: usize = 0;
    assert(all.subrange(0, all.len() as int) =~= all);
    while i < pieces.len()
        invariant
            i <= pieces.len(),
            all == header_texts(pieces@),
            session_cookie(all) == session_cookie(all.subrange(i as int, all.len() as int)),
        decreases pieces.len() - i,
    {
        let ghost rest = all.subrange(i as int, all.len() as int);
        assert(rest[0] == pieces@[i as int]@);
        assert(rest.drop_first() =~= all.subrange(i + 1, all.len() as int));
        match parse_cookie(pieces[i].as_str()) {
            Some((name, value)) => {
                if name == "user_token".to_owned() {
                    return Some(value);
                }
            },
            None => {},
        }
        i = i + 1;
    }
    None
}

impl AuthState {
    /// The identity that a cookie's value gives: unresolved with the token
    /// that the value denotes, anonymous if it denotes none.
    pub fn from_cookie_value(value: &str) -> (r: AuthState)
        ensures
            r@ == match parse_decimal(value@) {
                Some(token) => AuthView::Unresolved(token),
                None => AuthView::Anonymous,
            },
    {
        match SessionToken::from_str(value) {
            Some(token) => AuthState::Unresolved(token),
            None => AuthState::Anonymous,
        }
    }

    /// The identity that a request's `Cookie` headers give it. Each header
    /// is cut at its semicolons, and the first cookie named `user_token`
    /// among the parts of all headers decides.
    pub fn from_cookie_headers(headers: &Vec<String>) -> (r: AuthState)
        ensures
            r@ == identity_of(header_texts(headers@)),
    {
        let ghost all = header_texts(headers@);
        let mut i: usize = 0;
        assert(all.subrange(0, all.len() as int) =~= all);
        while i < headers.len()
            invariant
                i <= headers.len(),
                all == header_texts(headers@),
                session_cookie(request_cookies(all)) == session_cookie(
                    request_cookies(all.subrange(i as int, all.len() as int)),
                ),
            decreases headers.len() - i,
        {
            let ghost rest = all.subrange(i as int, all.len() as int);
            proof {
                assert(rest.first() == headers@[i as int]@);
                assert(rest.drop_first() =~= all.subrange(i + 1, all.len() as int));
                lemma_session_cookie_concat(
                    cookie_pieces(rest.first()),
                    request_cookies(rest.drop_first()),
                );
            }
            let pieces = split_cookies(headers[i].as_str());
            match find_session_cookie(&pieces) {
                Some(value) => {
                    return AuthState::from_cookie_value(value.as_str());
                },
                None => {},
            }
            i = i + 1;
        }
        AuthState::Anonymous
    }

    /// Whether the request carries a session token.
    pub fn logged_in(&self) -> (r: bool)
        ensures
            r == self@.logged_in(),
    {
        match self {
            AuthState::Anonymous => false,
            _ => true,
        }
    }

    /// The token to look up in the store, as the store keeps it, if a
    /// lookup is still due.
    pub fn pending_lookup(&self) -> (r: Option<Vec<u8>>)
        ensures
            match self@.pending() {
                Some(token) => r is Some && r->0@ == le_bytes(token as nat, 16),
                None => r is None,
            },
    {
        match self {
            AuthState::Unresolved(token) => Some(token.into_database_value()),
            _ => None,
        }
    }

    /// Takes in what the store answered to the pending lookup: the id, the
    /// username and the stored permission level of the account behind the
    /// token, or nothing. Afterwards no lookup is pending, whatever the
    /// answer was. A row with a permission level that is none is reported
    /// as corrupt data and leaves the request without an account.
    pub fn resolve(&mut self, row: Option<(i32, String, i32)>) -> (r: Result<(), CorruptData>)
        ensures
            final(self)@ == old(self)@.resolved_with(row_view(row)),
            final(self)@.pending() is None,
            r is Err <==> old(self)@ is Unresolved && row is Some && PermissionLevel::of_level(
                row.unwrap().2,
            ) is None,
    {
        let token = match self {
            AuthState::Unresolved(token) => *token,
            _ => {
                return Ok(());
            },
        };
        match row {
            None => {
                *self = AuthState::NoAccount(token);
                Ok(())
            },
            Some((_id, username, level)) => match PermissionLevel::decode(level) {
                Ok(permission_level) => {
                    *self = AuthState::Resolved(token, User { username, permission_level });
                    Ok(())
                },
                Err(e) => {
                    *self = AuthState::NoAccount(token);
                    Err(e)
                },
            },
        }
    }

    /// The resolved account.
    pub fn get_user(&self) -> (r: Option<&User>)
        ensures
            match *self {
                AuthState::Resolved(_, user) => r == Some(&user),
                _ => r is None,
            },
    {
        match self {
            AuthState::Resolved(_, user) => Some(user),
            _ => None,
        }
    }

    /// Whether the request comes from an administrator. A request that is
    /// anonymous, unresolved or without an account does not.
    pub fn is_admin(&self) -> (r: bool)
        ensures
            r == self@.is_admin(),
    {
        match self {
            AuthState::Resolved(_, user) => user.permission_level == PermissionLevel::Admin,
            _ => false,
        }
    }
}

/// What the store's answer to a session lookup says of the account.
pub open spec fn row_view(row: Option<(i32, String, i32)>) -> Option<(Seq<char>, i32)> {
    match row {
        Some((_, username, level)) => Some((username@, level)),
        None => None,
    }
}

/// Whether the request comes from the account with this username.
pub fn is_logged_in_user(auth_state: &AuthState, username: &String) -> (r: bool)
    ensures
        r == (auth_state@.username() == Some(username@)),
{
    match auth_state.get_user() {
        Some(user) => user.username == *username,
        None => false,
    }
}

/// A request asks the store at most once: after the answer to a lookup,
/// whatever it was, no lookup is due any more, and whatever the store would
/// answer to another one leaves the identity as it is.
pub proof fn lemma_resolution_is_cached(
    state: AuthView,
    first: Option<(Seq<char>, i32)>,
    second: Option<(Seq<char>, i32)>,
)
    ensures
        state.resolved_with(first).pending() is None,
        state.resolved_with(first).resolved_with(second) == state.resolved_with(first),
{
}

/// A lookup that finds no account, or one with a corrupt permission level,
/// leaves the request with its token, without a username and without the
/// rights of an administrator.
pub proof fn lemma_no_account_has_no_rights(token: u128, row: Option<(Seq<char>, i32)>)
    requires
        row is None || PermissionLevel::of_level(row.unwrap().1) is None,
    ensures
        AuthView::Unresolved(token).resolved_with(row) == AuthView::NoAccount(token),
        !AuthView::NoAccount(token).is_admin(),
        AuthView::NoAccount(token).username() is None,
        AuthView::NoAccount(token).logged_in(),
{
}

/// An anonymous request stays anonymous: it has nothing to look up, and no
/// answer of the store gives it an identity or makes it an administrator.
pub proof fn lemma_anonymous_stays(row: Option<(Seq<char>, i32)>)
    ensures
        AuthView::Anonymous.pending() is None,
        AuthView::Anonymous.resolved_with(row) == AuthView::Anonymous,
        !AuthView::Anonymous.is_admin(),
{
}

/// A request keeps its token through resolution.
pub proof fn lemma_resolution_keeps_token(state: AuthView, row: Option<(Seq<char>, i32)>)
    ensures
        state.resolved_with(row).token() == state.token(),
{
}

/// A character that a username may hold.
pub open spec fn username_char(c: char) -> bool {
    ('a' <= c && c <= 'z') || ('0' <= c && c <= '9') || c == '-'
}

/// A username is one to nineteen characters, each a lower-case letter, a
/// digit or a hyphen.
pub open spec fn valid_username_spec(username: Seq<char>) -> bool {
    1 <= username.len() <= 19 && forall|i: int|
        0 <= i < username.len() ==> username_char(#[trigger] username[i])
}

pub fn valid_username(username: &str) -> (r: bool)
    ensures
        r == valid_username_spec(username@),
{
    let n = username.unicode_len();
    if n < 1 || n > 19 {
        return false;
    }
    let mut i: usize = 0;
    while i < n
        invariant
            i <= n,
            n == username@.len(),
            forall|j: int| 0 <= j < i ==> username_char(#[trigger] username@[j]),
        decreases n - i,
    {
        let c = username.get_char(i);
        let allowed = ('a' <= c && c <= 'z') || ('0' <= c && c <= '9') || c == '-';
        if !allowed {
            return false;
        }
        i = i + 1;
    }
    true
}

/// The least number of characters of a password.
pub const MIN_PASSWORD_LENGTH: usize = 8;

/// Why a signup form is turned down before anything is hashed or stored,
/// if it is: the two passwords differ, the password is shorter than eight
/// characters, or the username is not valid, asked in this order.
pub open spec fn signup_rejection(
    username: Seq<char>,
    password: Seq<char>,
    confirm_password: Seq<char>,
) -> Option<SignupError> {
    if password != confirm_password {
        Some(SignupError::PasswordsDoNotMatch)
    } else if password.len() < MIN_PASSWORD_LENGTH {
        Some(SignupError::InvalidPassword)
    } else if !valid_username_spec(username) {
        Some(SignupError::InvalidUsername)
    } else {
        None
    }
}

/// The row to insert for a new account.
#[derive(Debug, Clone)]
pub struct NewAccount {
    pub username: String,
    pub password_hash: String,
}

/// The row to insert for a new session.
#[derive(Debug, Clone, Copy)]
pub struct NewSession {
    pub session_token: SessionToken,
    pub user_id: i32,
}

/// What the store answered to the insertion of a new account.
#[derive(Debug, Clone, Copy, PartialEq, Eq, Structural)]
pub enum InsertOutcome {
    /// The account was stored under this id.
    Inserted(i32),
    /// The username is taken.
    UniqueViolation,
    /// The store failed in another way.
    Failed,
}

/// The new account for a username and what the hasher made of the
/// password; a hasher's refusal is an invalid password.
pub fn new_account(username: &str, password_hash: Option<String>) -> (r: Result<
    NewAccount,
    SignupError,
>)
    ensures
        match password_hash {
            Some(hash) => r is Ok && r.unwrap().username@ == username@ && r.unwrap().password_hash
                == hash,
            None => r == Err::<NewAccount, SignupError>(SignupError::InvalidPassword),
        },
{
    match password_hash {
        Some(hash) => Ok(NewAccount { username: username.to_owned(), password_hash: hash }),
        None => Err(SignupError::InvalidPassword),
    }
}

/// First half of a signup: checks the username and hashes the password
/// with a fresh salt. An invalid username is refused before any hashing.
/// For a valid one the result is the account to insert, with a hash that
/// accepts the password.
pub fn signup(username: &str, password: &str) -> (r: Result<NewAccount, SignupError>)
    ensures
        !valid_username_spec(username@) ==> r == Err::<NewAccount, SignupError>(
            SignupError::InvalidUsername,
        ),
        valid_username_spec(username@) ==> r is Ok && r.unwrap().username@ == username@ && hash_of(
            password@,
            r.unwrap().password_hash@,
        ),
{
    if !valid_username(username) {
        return Err(SignupError::InvalidUsername);
    }
    new_account(username, hash_password(password))
}

/// A signup form as it arrives: turned down with the reason that
/// `signup_rejection` gives, before anything is hashed, or else handed on
/// to `signup`.
pub fn post_signup(username: &String, password: &String, confirm_password: &String) -> (r: Result<
    NewAccount,
    SignupError,
>)
    ensures
        match signup_rejection(username@, password@, confirm_password@) {
            Some(e) => r == Err::<NewAccount, SignupError>(e),
            None => r is Ok && r.unwrap().username@ == username@ && hash_of(
                password@,
                r.unwrap().password_hash@,
            ),
        },
{
    if !(*password == *confirm_password) {
        return Err(SignupError::PasswordsDoNotMatch);
    }
    if password.as_str().unicode_len() < MIN_PASSWORD_LENGTH {
        return Err(SignupError::InvalidPassword);
    }
    signup(username.as_str(), password.as_str())
}

/// What an insertion's outcome means for the signup: the id of the new
/// account, or that the username exists, or an internal error.
pub open spec fn insert_result(outcome: InsertOutcome) -> Result<i32, SignupError> {
    match outcome {
        InsertOutcome::Inserted(user_id) => Ok(user_id),
        InsertOutcome::UniqueViolation => Err(SignupError::UsernameExists),
        InsertOutcome::Failed => Err(SignupError::InternalError),
    }
}

pub fn inserted_user(outcome: InsertOutcome) -> (r: Result<i32, SignupError>)
    ensures
        r == insert_result(outcome),
{
    match outcome {
        InsertOutcome::Inserted(user_id) => Ok(user_id),
        InsertOutcome::UniqueViolation => Err(SignupError::UsernameExists),
        InsertOutcome::Failed => Err(SignupError::InternalError),
    }
}

/// A session for an account, with a fresh token.
pub fn new_session(rng: &mut rand_chacha::ChaCha8Rng, user_id: i32) -> (r: NewSession)
    ensures
        r.user_id == user_id,
{
    NewSession { session_token: SessionToken::generate_new(rng), user_id }
}

/// Second half of a signup: a session for the account that was inserted,
/// or the error that the insertion's outcome stands for.
pub fn signup_session(outcome: InsertOutcome, rng: &mut rand_chacha::ChaCha8Rng) -> (r: Result<
    NewSession,
    SignupError,
>)
    ensures
        match insert_result(outcome) {
            Ok(user_id) => r is Ok && r.unwrap().user_id == user_id,
            Err(e) => r is Err && r.unwrap_err() == e,
        },
{
    match inserted_user(outcome) {
        Ok(user_id) => Ok(new_session(rng, user_id)),
        Err(e) => Err(e),
    }
}

/// Whom a login is for, given the id of the account that the store found
/// under the username, if any, and whether the password was accepted.
pub open spec fn login_result(user_id: Option<i32>, accepted: bool) -> Result<i32, LoginError> {
    match user_id {
        None => Err(LoginError::UserDoesNotExist),
        Some(id) => if accepted {
            Ok(id)
        } else {
            Err(LoginError::WrongPassword)
        },
    }
}

pub fn login_outcome(user_id: Option<i32>, accepted: bool) -> (r: Result<i32, LoginError>)
    ensures
        r == login_result(user_id, accepted),
{
    match user_id {
        None => Err(LoginError::UserDoesNotExist),
        Some(id) => if accepted {
            Ok(id)
        } else {
            Err(LoginError::WrongPassword)
        },
    }
}

/// The id in the row that the store found under a username.
pub open spec fn row_user_id(row: Option<(i32, String)>) -> Option<i32> {
    match row {
        Some((id, _)) => Some(id),
        None => None,
    }
}

/// Whether the row's stored hash can be read and accepts the password.
pub open spec fn row_accepts(row: Option<(i32, String)>, password: Seq<char>) -> bool {
    match row {
        Some((_, hash)) => pbkdf2_accepts(password, hash@),
        None => false,
    }
}

/// Whether the row's stored hash, if there is a row, is a PHC string.
pub open spec fn row_well_formed(row: Option<(i32, String)>) -> bool {
    match row {
        Some((_, hash)) => phc_well_formed(hash@),
        None => true,
    }
}

/// A login, given the row that the store found under the username (the
/// account's id and its stored password hash), if any. It fails with
/// "user does not exist" without a row and with "wrong password" where the
/// stored hash does not accept the password; otherwise it gives a session
/// for the account, with a fresh token.
pub fn login(row: Option<(i32, String)>, password: &str, rng: &mut rand_chacha::ChaCha8Rng) -> (r:
    Result<NewSession, LoginError>)
    requires
        row_well_formed(row),
    ensures
        match login_result(row_user_id(row), row_accepts(row, password@)) {
            Ok(user_id) => r is Ok && r.unwrap().user_id == user_id,
            Err(e) => r is Err && r.unwrap_err() == e,
        },
{
    let decided = match row {
        Some((id, hash)) => login_outcome(Some(id), verify_password(password, hash.as_str())),
        None => login_outcome(None, false),
    };
    match decided {
        Ok(user_id) => Ok(new_session(rng, user_id)),
        Err(e) => Err(e),
    }
}

/// A login that first checks the stored hash: `None` where the row holds
/// a hash that is no PHC string, and else what `login` gives.
pub fn try_login(
    row: Option<(i32, String)>,
    password: &str,
    rng: &mut rand_chacha::ChaCha8Rng,
) -> (r: Option<Result<NewSession, LoginError>>)
    ensures
        r is None <==> !row_well_formed(row),
        r is Some ==> match login_result(row_user_id(row), row_accepts(row, password@)) {
            Ok(user_id) => r.unwrap() is Ok && r.unwrap().unwrap().user_id == user_id,
            Err(e) => r.unwrap() is Err && r.unwrap().unwrap_err() == e,
        },
{
    let readable = match &row {
        Some((_, hash)) => is_well_formed_hash(hash.as_str()),
        None => true,
    };
    if readable {
        Some(login(row, password, rng))
    } else {
        None
    }
}

/// The token by which the store finds the account to delete. Deletion is
/// not for anonymous requests.
pub fn delete_user(auth_state: &AuthState) -> (r: Vec<u8>)
    requires
        auth_state@.logged_in(),
    ensures
        auth_state@.token() is Some,
        r@ == le_bytes(auth_state@.token().unwrap() as nat, 16),
{
    match auth_state {
        AuthState::Unresolved(token) => token.into_database_value(),
        AuthState::Resolved(token, _) => token.into_database_value(),
        AuthState::NoAccount(token) => token.into_database_value(),
        AuthState::Anonymous => Vec::new(),
    }
}

/// A request to delete the own account: "not logged in" for an anonymous
/// request, and else the token by which the store finds the account.
pub fn post_delete(auth_state: &AuthState) -> (r: Result<Vec<u8>, NotLoggedIn>)
    ensures
        match auth_state@.token() {
            Some(token) => r is Ok && r.unwrap()@ == le_bytes(token as nat, 16),
            None => r is Err,
        },
{
    if !auth_state.logged_in() {
        return Err(NotLoggedIn);
    }
    Ok(delete_user(auth_state))
}

/// The outcome of inserting an account into a store in which the given
/// usernames are taken and which keeps usernames unique.
pub open spec fn unique_insert(taken: Set<Seq<char>>, username: Seq<char>, new_id: i32) -> InsertOutcome {
    if taken.contains(username) {
        InsertOutcome::UniqueViolation
    } else {
        InsertOutcome::Inserted(new_id)
    }
}

/// A form with a valid username and a password of eight characters or
/// more, typed twice alike, is not turned down. In a store that keeps
/// usernames unique and does not fail, a username that is free is then
/// inserted, and from then on its insertion is turned down with "username
/// exists".
pub proof fn lemma_signup_succeeds_exactly_once(
    taken: Set<Seq<char>>,
    username: Seq<char>,
    password: Seq<char>,
    first_id: i32,
    second_id: i32,
)
    requires
        valid_username_spec(username),
        password.len() >= 8,
        !taken.contains(username),
    ensures
        signup_rejection(username, password, password) is None,
        insert_result(unique_insert(taken, username, first_id)) == Ok::<i32, SignupError>(first_id),
        insert_result(unique_insert(taken.insert(username), username, second_id)) == Err::<
            i32,
            SignupError,
        >(SignupError::UsernameExists),
{
}

/// A password shorter than eight characters is turned down by the form's
/// check, whatever the username.
pub proof fn lemma_short_password_rejected(
    username: Seq<char>,
    password: Seq<char>,
    confirm_password: Seq<char>,
)
    requires
        password.len() < 8,
    ensures
        signup_rejection(username, password, confirm_password) is Some,
        signup_rejection(username, password, confirm_password) != Some(
            SignupError::InvalidUsername,
        ),
{
}

/// A login with the password that an account was signed up with is for
/// that account: the hash that `signup` stored can be read and accepts the
/// password, so the login is neither "wrong password" nor "user does not
/// exist".
pub proof fn lemma_login_after_signup(user_id: i32, stored: String, password: Seq<char>)
    requires
        hash_of(password, stored@),
    ensures
        row_well_formed(Some((user_id, stored))),
        login_result(
            row_user_id(Some((user_id, stored))),
            row_accepts(Some((user_id, stored)), password),
        ) == Ok::<i32, LoginError>(user_id),
{
}

/// The two ways in which a login fails are told apart: without an account
/// it is "user does not exist", and with one it never is.
pub proof fn lemma_login_failures_differ(user_id: Option<i32>, accepted: bool)
    ensures
        user_id is None <==> login_result(user_id, accepted) == Err::<i32, LoginError>(
            LoginError::UserDoesNotExist,
        ),
        user_id is Some && !accepted <==> login_result(user_id, accepted) == Err::<i32, LoginError>(
            LoginError::WrongPassword,
        ),
        user_id is Some && accepted <==> login_result(user_id, accepted) is Ok,
{
}

} // verus!
