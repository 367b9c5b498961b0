use rand_chacha::ChaCha8Rng;
use rand_core::SeedableRng;
use user_accounts::auth::{
    delete_user, find_session_cookie, inserted_user, is_logged_in_user, login, login_outcome,
    new_account, new_session, post_delete, post_signup, signup, signup_session, split_cookies,
    try_login, valid_username, AuthState, InsertOutcome,
};
use user_accounts::errors::{LoginError, SignupError};
use user_accounts::token::SessionToken;
use user_accounts::users::PermissionLevel;

/// "password1" under PBKDF2-SHA256 with 1000 rounds.
const STORED: &str =
    "$pbkdf2-sha256$i=1000,l=32$MDEyMzQ1Njc4OWFiY2RlZg$qPNV7g60ThaRhm2wjsphGUlU0Er3kA82T/dMkQuL1ls";

fn headers(texts: &[&str]) -> Vec<String> {
    texts.iter().map(|t| t.to_string()).collect()
}

fn five() -> Vec<u8> {
    vec![5, 0, 0, 0, 0, 0, 0, 0, 0, 0, 0, 0, 0, 0, 0, 0]
}

#[test]
fn usernames_that_are_valid() {
    assert!(valid_username("a"));
    assert!(valid_username("alice"));
    assert!(valid_username("a-1"));
    assert!(valid_username("-"));
    assert!(valid_username("0123456789"));
    assert!(valid_username("abcdefghijklmnopqrs"));
}

#[test]
fn usernames_that_are_not_valid() {
    assert!(!valid_username(""));
    assert!(!valid_username("abcdefghijklmnopqrst"));
    assert!(!valid_username("Alice"));
    assert!(!valid_username("al ice"));
    assert!(!valid_username("alice_"));
    assert!(!valid_username("\u{e5}lice"));
    assert!(!valid_username("alice\n"));
    assert!(!valid_username("a.b"));
}

#[test]
fn signup_form_is_checked_in_order() {
    let name = "alice".to_string();
    let bad_name = "Alice".to_string();
    let short = "passwor".to_string();
    let good = "password1".to_string();
    let other = "password2".to_string();
    assert_eq!(post_signup(&name, &good, &other).unwrap_err(), SignupError::PasswordsDoNotMatch);
    assert_eq!(post_signup(&name, &short, &other).unwrap_err(), SignupError::PasswordsDoNotMatch);
    assert_eq!(post_signup(&name, &short, &short).unwrap_err(), SignupError::InvalidPassword);
    assert_eq!(post_signup(&bad_name, &short, &short).unwrap_err(), SignupError::InvalidPassword);
    assert_eq!(post_signup(&bad_name, &good, &good).unwrap_err(), SignupError::InvalidUsername);
    let empty = String::new();
    assert_eq!(post_signup(&name, &empty, &empty).unwrap_err(), SignupError::InvalidPassword);
}

#[test]
fn password_length_counts_characters() {
    let name = "alice".to_string();
    let seven = "\u{e9}\u{e9}\u{e9}\u{e9}\u{e9}\u{e9}\u{e9}".to_string();
    assert_eq!(post_signup(&name, &seven, &seven).unwrap_err(), SignupError::InvalidPassword);
}

#[test]
fn signup_refuses_invalid_username() {
    assert_eq!(signup("", "password1").unwrap_err(), SignupError::InvalidUsername);
    assert_eq!(signup("Bob", "password1").unwrap_err(), SignupError::InvalidUsername);
    assert_eq!(
        signup("abcdefghijklmnopqrst", "password1").unwrap_err(),
        SignupError::InvalidUsername
    );
}

#[test]
fn new_account_from_hasher_answer() {
    let account = new_account("alice", Some("hash".to_string())).unwrap();
    assert_eq!(account.username, "alice");
    assert_eq!(account.password_hash, "hash");
    assert_eq!(new_account("alice", None).unwrap_err(), SignupError::InvalidPassword);
}

#[test]
fn insertion_outcomes() {
    assert_eq!(inserted_user(InsertOutcome::Inserted(12)), Ok(12));
    assert_eq!(inserted_user(InsertOutcome::Inserted(-3)), Ok(-3));
    assert_eq!(inserted_user(InsertOutcome::UniqueViolation), Err(SignupError::UsernameExists));
    assert_eq!(inserted_user(InsertOutcome::Failed), Err(SignupError::InternalError));
}

#[test]
fn signup_succeeds_once_per_username() {
    let mut rng = ChaCha8Rng::seed_from_u64(1);
    let first = signup_session(InsertOutcome::Inserted(1), &mut rng).unwrap();
    assert_eq!(first.user_id, 1);
    let second = signup_session(InsertOutcome::UniqueViolation, &mut rng);
    assert_eq!(second.unwrap_err(), SignupError::UsernameExists);
    let failed = signup_session(InsertOutcome::Failed, &mut rng);
    assert_eq!(failed.unwrap_err(), SignupError::InternalError);
}

#[test]
fn two_signups_for_one_username() {
    let mut rng = ChaCha8Rng::seed_from_u64(2);
    for outcomes in [
        [InsertOutcome::Inserted(4), InsertOutcome::UniqueViolation],
        [InsertOutcome::UniqueViolation, InsertOutcome::Inserted(4)],
    ] {
        let results: Vec<_> =
            outcomes.iter().map(|o| signup_session(*o, &mut rng).map(|s| s.user_id)).collect();
        assert_eq!(results.iter().filter(|r| r.is_ok()).count(), 1);
        assert!(results.contains(&Ok(4)));
        assert!(results.contains(&Err(SignupError::UsernameExists)));
    }
}

#[test]
fn new_sessions_have_fresh_tokens() {
    let mut rng = ChaCha8Rng::seed_from_u64(3);
    let a = new_session(&mut rng, 9);
    let b = new_session(&mut rng, 9);
    assert_eq!(a.user_id, 9);
    assert_eq!(b.user_id, 9);
    assert_ne!(a.session_token.into_cookie_value(), b.session_token.into_cookie_value());
}

#[test]
fn login_outcomes() {
    assert_eq!(login_outcome(None, false), Err(LoginError::UserDoesNotExist));
    assert_eq!(login_outcome(None, true), Err(LoginError::UserDoesNotExist));
    assert_eq!(login_outcome(Some(3), false), Err(LoginError::WrongPassword));
    assert_eq!(login_outcome(Some(3), true), Ok(3));
}

#[test]
fn login_with_stored_hash() {
    let mut rng = ChaCha8Rng::seed_from_u64(4);
    let ok = login(Some((7, STORED.to_string())), "password1", &mut rng).unwrap();
    assert_eq!(ok.user_id, 7);
    let wrong = login(Some((7, STORED.to_string())), "wrong", &mut rng);
    assert_eq!(wrong.unwrap_err(), LoginError::WrongPassword);
    let close = login(Some((7, STORED.to_string())), "password", &mut rng);
    assert_eq!(close.unwrap_err(), LoginError::WrongPassword);
    let nobody = login(None, "password1", &mut rng);
    assert_eq!(nobody.unwrap_err(), LoginError::UserDoesNotExist);
}

#[test]
fn login_checks_the_stored_hash_first() {
    let mut rng = ChaCha8Rng::seed_from_u64(5);
    assert!(try_login(Some((7, "not a hash".to_string())), "password1", &mut rng).is_none());
    assert!(try_login(Some((7, String::new())), "password1", &mut rng).is_none());
    assert!(try_login(Some((7, "password1".to_string())), "password1", &mut rng).is_none());
    let ok = try_login(Some((7, STORED.to_string())), "password1", &mut rng).unwrap();
    assert_eq!(ok.unwrap().user_id, 7);
    let wrong = try_login(Some((7, STORED.to_string())), "Password1", &mut rng).unwrap();
    assert_eq!(wrong.unwrap_err(), LoginError::WrongPassword);
    let nobody = try_login(None, "password1", &mut rng).unwrap();
    assert_eq!(nobody.unwrap_err(), LoginError::UserDoesNotExist);
}

#[test]
fn signup_then_login() {
    let mut rng = ChaCha8Rng::seed_from_u64(6);
    let name = "alice".to_string();
    let password = "password1".to_string();
    let account = post_signup(&name, &password, &password).unwrap();
    assert_eq!(account.username, "alice");
    assert!(account.password_hash.starts_with("$pbkdf2-sha256$"));
    assert_ne!(account.password_hash, "password1");
    let first = signup_session(InsertOutcome::Inserted(1), &mut rng).unwrap();
    let again = try_login(Some((1, account.password_hash)), "password1", &mut rng).unwrap().unwrap();
    assert_eq!(again.user_id, 1);
    assert_ne!(first.session_token.into_cookie_value(), again.session_token.into_cookie_value());
}

#[test]
fn identity_from_cookie_value() {
    assert!(!AuthState::from_cookie_value("").logged_in());
    assert!(!AuthState::from_cookie_value("_").logged_in());
    assert!(!AuthState::from_cookie_value("abc").logged_in());
    let state = AuthState::from_cookie_value("5");
    assert!(state.logged_in());
    assert_eq!(state.pending_lookup(), Some(five()));
}

#[test]
fn identity_from_cookie_headers() {
    let state = AuthState::from_cookie_headers(&headers(&["user_token=5"]));
    assert_eq!(state.pending_lookup(), Some(five()));
    let state = AuthState::from_cookie_headers(&headers(&["theme=dark", "user_token=5"]));
    assert_eq!(state.pending_lookup(), Some(five()));
    let state = AuthState::from_cookie_headers(&headers(&[" user_token = 5 "]));
    assert_eq!(state.pending_lookup(), Some(five()));
    let state = AuthState::from_cookie_headers(&headers(&["user_token=\"5\""]));
    assert_eq!(state.pending_lookup(), Some(five()));
    let state = AuthState::from_cookie_headers(&headers(&["user_token=5; Max-Age=9999999"]));
    assert_eq!(state.pending_lookup(), Some(five()));
    let state = AuthState::from_cookie_headers(&headers(&["no pair here", "=5", "user_token=5"]));
    assert_eq!(state.pending_lookup(), Some(five()));
}

#[test]
fn session_cookie_is_found_among_all_cookies_of_a_header() {
    let state = AuthState::from_cookie_headers(&headers(&["theme=dark; user_token=5"]));
    assert!(state.logged_in());
    assert_eq!(state.pending_lookup(), Some(five()));
    let state = AuthState::from_cookie_headers(&headers(&["a=b;c=d;user_token=5;e=f"]));
    assert_eq!(state.pending_lookup(), Some(five()));
    let state = AuthState::from_cookie_headers(&headers(&["a=b; c", "x; ;user_token = \"5\" "]));
    assert_eq!(state.pending_lookup(), Some(five()));
    let state = AuthState::from_cookie_headers(&headers(&["user_token=5; user_token=6"]));
    assert_eq!(state.pending_lookup(), Some(five()));
    let state = AuthState::from_cookie_headers(&headers(&["na\u{ef}ve=1; user_token=5"]));
    assert_eq!(state.pending_lookup(), Some(five()));
}

#[test]
fn first_session_cookie_decides() {
    assert!(!AuthState::from_cookie_headers(&headers(&["user_token=x; user_token=5"])).logged_in());
    assert!(!AuthState::from_cookie_headers(&headers(&["user_token=; user_token=5"])).logged_in());
    assert!(!AuthState::from_cookie_headers(&headers(&["a=1; user_token=_", "user_token=5"]))
        .logged_in());
}

#[test]
fn headers_are_cut_at_semicolons() {
    assert_eq!(split_cookies(""), vec![""]);
    assert_eq!(split_cookies("a=b"), vec!["a=b"]);
    assert_eq!(split_cookies(";"), vec!["", ""]);
    assert_eq!(split_cookies("a=b; c=d"), vec!["a=b", " c=d"]);
    assert_eq!(split_cookies("a;b;;c;"), vec!["a", "b", "", "c", ""]);
    assert_eq!(split_cookies("\u{e9}=1;\u{4e2d}\u{6587}; z"), vec!["\u{e9}=1", "\u{4e2d}\u{6587}", " z"]);
    for text in ["", "a", ";;", "a=b; c=d; e", "\u{e9};\u{e9}"] {
        let expected: Vec<String> = text.split(';').map(|p| p.to_string()).collect();
        assert_eq!(split_cookies(text), expected);
    }
}

#[test]
fn names_and_values_are_trimmed_and_unquoted() {
    let find = |texts: &[&str]| find_session_cookie(&headers(texts));
    assert_eq!(find(&["user_token=5"]), Some("5".to_string()));
    assert_eq!(find(&["  user_token\t=\t5  "]), Some("5".to_string()));
    assert_eq!(find(&["user_token=\"5\""]), Some("5".to_string()));
    assert_eq!(find(&["user_token= \" 5 \" "]), Some("5".to_string()));
    assert_eq!(find(&["user_token=\"\"5\"\""]), Some("\"5\"".to_string()));
    assert_eq!(find(&["user_token=\""]), Some("\"".to_string()));
    assert_eq!(find(&["user_token=\"\""]), Some(String::new()));
    assert_eq!(find(&["user_token="]), Some(String::new()));
    assert_eq!(find(&["user_token=a=b"]), Some("a=b".to_string()));
    assert_eq!(find(&["\u{a0}user_token\u{3000}=\u{2003}5\u{85}"]), Some("5".to_string()));
    assert_eq!(find(&["user_token=\u{200b}5"]), Some("\u{200b}5".to_string()));
    assert_eq!(find(&["\u{200b}user_token=5"]), None);
    assert_eq!(find(&["user_token"]), None);
    assert_eq!(find(&["=5"]), None);
    assert_eq!(find(&[" =5", "other=1"]), None);
    assert_eq!(find(&["user_token=5;x"]), Some("5".to_string()));
    assert_eq!(find(&["x;user_token=5"]), None);
    assert_eq!(find(&[]), None);
}

#[test]
fn white_space_is_the_unicode_property() {
    let listed = |c: char| {
        ('\u{9}'..='\u{d}').contains(&c)
            || c == ' '
            || c == '\u{85}'
            || c == '\u{a0}'
            || c == '\u{1680}'
            || ('\u{2000}'..='\u{200a}').contains(&c)
            || c == '\u{2028}'
            || c == '\u{2029}'
            || c == '\u{202f}'
            || c == '\u{205f}'
            || c == '\u{3000}'
    };
    for code in 0..=0x10ffffu32 {
        if let Some(c) = char::from_u32(code) {
            assert_eq!(c.is_whitespace(), listed(c), "{:x}", code);
        }
    }
}

#[test]
fn requests_without_a_session_cookie_are_anonymous() {
    assert!(!AuthState::from_cookie_headers(&headers(&[])).logged_in());
    assert!(!AuthState::from_cookie_headers(&headers(&["theme=dark"])).logged_in());
    assert!(!AuthState::from_cookie_headers(&headers(&["user_token"])).logged_in());
    assert!(!AuthState::from_cookie_headers(&headers(&["user_token=_"])).logged_in());
    assert!(!AuthState::from_cookie_headers(&headers(&["User_Token=5"])).logged_in());
    assert!(!AuthState::from_cookie_headers(&headers(&["theme=dark; lang=en"])).logged_in());
    assert!(!AuthState::from_cookie_headers(&headers(&["user_token=x", "user_token=5"])).logged_in());
    let state = AuthState::from_cookie_headers(&headers(&["user_token=-1"]));
    assert!(state.pending_lookup().is_none());
    assert!(state.get_user().is_none());
    assert!(!state.is_admin());
}

#[test]
fn resolution_is_cached() {
    let mut state = AuthState::from_cookie_value("5");
    assert!(state.get_user().is_none());
    assert!(state.resolve(Some((1, "alice".to_string(), 0))).is_ok());
    assert!(state.pending_lookup().is_none());
    assert_eq!(state.get_user().unwrap().username, "alice");
    assert_eq!(state.get_user().unwrap().permission_level, PermissionLevel::User);
    assert!(state.resolve(Some((2, "mallory".to_string(), 1))).is_ok());
    assert_eq!(state.get_user().unwrap().username, "alice");
    assert_eq!(state.get_user().unwrap().permission_level, PermissionLevel::User);
    assert!(state.resolve(None).is_ok());
    assert_eq!(state.get_user().unwrap().username, "alice");
    assert!(state.logged_in());
    assert!(!state.is_admin());
    assert_eq!(delete_user(&state), five());
}

#[test]
fn failed_resolution_is_remembered() {
    let mut state = AuthState::from_cookie_value("5");
    assert_eq!(state.pending_lookup(), Some(five()));
    assert!(state.resolve(None).is_ok());
    assert!(state.pending_lookup().is_none());
    assert!(state.get_user().is_none());
    assert!(!state.is_admin());
    assert!(state.logged_in());
    assert!(state.resolve(Some((1, "alice".to_string(), 1))).is_ok());
    assert!(state.pending_lookup().is_none());
    assert!(state.get_user().is_none());
    assert!(!state.is_admin());
    assert!(!is_logged_in_user(&state, &"alice".to_string()));
    assert_eq!(post_delete(&state).unwrap(), five());
}

#[test]
fn corrupt_permission_level_is_refused() {
    let mut state = AuthState::from_cookie_value("5");
    assert!(state.resolve(Some((1, "alice".to_string(), 2))).is_err());
    assert!(state.get_user().is_none());
    assert!(state.pending_lookup().is_none());
    assert!(!state.is_admin());
    assert!(state.resolve(Some((1, "alice".to_string(), 1))).is_ok());
    assert!(state.get_user().is_none());
    assert!(!state.is_admin());
    let mut other = AuthState::from_cookie_value("5");
    assert!(other.resolve(Some((1, "alice".to_string(), -1))).is_err());
    assert!(other.pending_lookup().is_none());
    let mut resolved = AuthState::from_cookie_value("5");
    assert!(resolved.resolve(Some((1, "alice".to_string(), 1))).is_ok());
    assert!(resolved.resolve(Some((1, "alice".to_string(), 9))).is_ok());
    assert!(resolved.is_admin());
}

#[test]
fn anonymous_never_resolves() {
    let mut state = AuthState::from_cookie_value("nothing");
    assert!(state.resolve(Some((1, "alice".to_string(), 1))).is_ok());
    assert!(state.resolve(Some((1, "alice".to_string(), 7))).is_ok());
    assert!(!state.logged_in());
    assert!(state.get_user().is_none());
    assert!(!state.is_admin());
    assert!(state.pending_lookup().is_none());
}

#[test]
fn admin_is_a_resolved_administrator() {
    let mut admin = AuthState::Unresolved(SessionToken::from_str("9").unwrap());
    assert!(!admin.is_admin());
    admin.resolve(Some((3, "root".to_string(), 1))).unwrap();
    assert!(admin.is_admin());
    let mut user = AuthState::from_cookie_value("10");
    user.resolve(Some((4, "bob".to_string(), 0))).unwrap();
    assert!(!user.is_admin());
}

#[test]
fn logged_in_user_is_compared_by_name() {
    let mut state = AuthState::from_cookie_value("5");
    assert!(!is_logged_in_user(&state, &"alice".to_string()));
    state.resolve(Some((1, "alice".to_string(), 0))).unwrap();
    assert!(is_logged_in_user(&state, &"alice".to_string()));
    assert!(!is_logged_in_user(&state, &"alic".to_string()));
    assert!(!is_logged_in_user(&AuthState::Anonymous, &"alice".to_string()));
}

#[test]
fn deleting_needs_a_session() {
    assert!(post_delete(&AuthState::Anonymous).is_err());
    let state = AuthState::from_cookie_value("5");
    assert_eq!(post_delete(&state).unwrap(), five());
    assert_eq!(delete_user(&state), five());
}
