//! Roles, profiles and the pages about users.

use crate::auth::{AuthState, AuthView};
use crate::errors::{CorruptData, NoUser, NotAdmin, NotLoggedIn};
use vstd::prelude::*;
use vstd::std_specs::convert::FromSpecImpl;
use vstd::string::*;

verus! {

/// The role of an account.
#[derive(Debug, Clone, Copy, PartialEq, Eq, Structural)]
pub enum PermissionLevel {
    User,
    Admin,
}

impl PermissionLevel {
    /// The number that the store keeps for a role.
    pub open spec fn level(self) -> i32 {
        match self {
            PermissionLevel::User => 0,
            PermissionLevel::Admin => 1,
        }
    }

    /// The role that a stored number stands for, if any.
    pub open spec fn of_level(level: i32) -> Option<PermissionLevel> {
        if level == 0 {
            Some(PermissionLevel::User)
        } else if level == 1 {
            Some(PermissionLevel::Admin)
        } else {
            None
        }
    }

    /// Reads a stored role; any number but 0 and 1 is corrupt data.
    pub fn decode(level: i32) -> (r: Result<PermissionLevel, CorruptData>)
        ensures
            match PermissionLevel::of_level(level) {
                Some(p) => r == Ok::<PermissionLevel, CorruptData>(p),
                None => r is Err,
            },
    {
        if level == 0 {
            Ok(PermissionLevel::User)
        } else if level == 1 {
            Ok(PermissionLevel::Admin)
        } else {
            Err(CorruptData)
        }
    }
}

impl From<PermissionLevel> for i32 {
    fn from(permission_level: PermissionLevel) -> (r: i32) {
        match permission_level {
            PermissionLevel::User => 0,
            PermissionLevel::Admin => 1,
        }
    }
}

impl FromSpecImpl<PermissionLevel> for i32 {
    open spec fn obeys_from_spec() -> bool {
        true
    }

    open spec fn from_spec(permission_level: PermissionLevel) -> i32 {
        permission_level.level()
    }
}

/// Every role is stored as a number that reads back as that role.
pub proof fn lemma_level_round_trip(permission_level: PermissionLevel)
    ensures
        PermissionLevel::of_level(permission_level.level()) == Some(permission_level),
{
}

/// The form by which a user edits their profile.
pub struct ProfileForm {
    pub profile: String,
}

/// The most usernames that the directory shows.
pub const DIRECTORY_LIMIT: usize = 100;

/// The directory: the usernames that the store listed, cut off after the
/// first hundred.
pub fn users(usernames: Vec<String>) -> (r: Vec<String>)
    ensures
        r@ == if usernames@.len() <= DIRECTORY_LIMIT {
            usernames@
        } else {
            usernames@.subrange(0, DIRECTORY_LIMIT as int)
        },
{
    let mut listed = usernames;
    listed.truncate(DIRECTORY_LIMIT);
    listed
}

/// What is to be written for a profile edit.
#[derive(Debug, Clone)]
pub struct ProfileUpdate {
    pub username: String,
    pub profile: String,
}

/// A profile edit: the text of the form becomes the profile of the
/// resolved account, whatever it holds. A request without a resolved
/// account is not logged in.
pub fn profile(auth_state: &AuthState, form: ProfileForm) -> (r: Result<ProfileUpdate, NotLoggedIn>)
    ensures
        match auth_state@.username() {
            Some(username) => r is Ok && r.unwrap().username@ == username && r.unwrap().profile
                == form.profile,
            None => r is Err,
        },
{
    match auth_state.get_user() {
        Some(user) => Ok(ProfileUpdate { username: user.username.clone(), profile: form.profile }),
        None => Err(NotLoggedIn),
    }
}

/// What the page of a user shows.
#[derive(Debug, Clone)]
pub struct UserPage {
    pub username: String,
    pub is_self: bool,
    pub profile: String,
}

/// The text shown for a profile: a placeholder where none is set.
pub open spec fn profile_text(profile: Option<String>) -> Seq<char> {
    match profile {
        Some(text) => text@,
        None => "No profile set"@,
    }
}

/// The page of a user, given the row that the store found under the
/// requested username (username, profile, role), if any. Without a row
/// there is no such user.
pub fn user(
    row: Option<(String, Option<String>, PermissionLevel)>,
    auth_state: &AuthState,
    requested: String,
) -> (r: Result<UserPage, NoUser>)
    ensures
        match row {
            Some((username, profile, _)) => r is Ok && r.unwrap().username == username
                && r.unwrap().is_self == (auth_state@.username() == Some(username@))
                && r.unwrap().profile@ == profile_text(profile),
            None => r is Err && r.unwrap_err().0 == requested,
        },
{
    match row {
        Some((username, profile, _level)) => {
            let is_self = crate::auth::is_logged_in_user(auth_state, &username);
            let text = match profile {
                Some(text) => text,
                None => "No profile set".to_owned(),
            };
            Ok(UserPage { username, is_self, profile: text })
        },
        None => Err(NoUser(requested)),
    }
}

/// Where `/me` leads: the page of the resolved account.
pub fn me(auth_state: &AuthState) -> (r: Result<String, NotLoggedIn>)
    ensures
        match auth_state@.username() {
            Some(username) => r is Ok && r.unwrap()@ == "/user/"@ + username,
            None => r is Err,
        },
{
    match auth_state.get_user() {
        Some(user) => {
            let mut target = "/user/".to_owned();
            target.append(user.username.as_str());
            Ok(target)
        },
        None => Err(NotLoggedIn),
    }
}

/// What the admin panel shows.
#[derive(Debug, Clone)]
pub struct AdminPanel {
    pub users: Vec<String>,
    pub admins: Vec<String>,
}

/// The names but the viewer's own, in their order.
pub open spec fn others(names: Seq<String>, viewer: Seq<char>) -> Seq<String> {
    names.filter(|name: String| name@ != viewer)
}

fn without(names: &Vec<String>, viewer: &String) -> (r: Vec<String>)
    ensures
        r@ == others(names@, viewer@),
{
    let ghost keep = |name: String| name@ != viewer@;
    let mut kept: Vec<String> = Vec::new();
    let mut i: usize = 0;
    proof {
        reveal(Seq::filter);
        assert(names@.subrange(0, 0) =~= Seq::<String>::empty());
    }
    while i < names.len()
        invariant
            i <= names.len(),
            keep == |name: String| name@ != viewer@,
            kept@ == names@.subrange(0, i as int).filter(keep),
        decreases names.len() - i,
    {
        proof {
            reveal(Seq::filter);
            assert(names@.subrange(0, i + 1).drop_last() =~= names@.subrange(0, i as int));
        }
        if !(names[i] == *viewer) {
            kept.push(names[i].clone());
        }
        i = i + 1;
    }
    assert(names@.subrange(0, i as int) =~= names@);
    kept
}

/// The admin panel, for an administrator only: all users that the store
/// listed, and the administrators that it listed but for the viewer.
pub fn admin(auth_state: &AuthState, users: Vec<String>, admins: Vec<String>) -> (r: Result<
    AdminPanel,
    NotAdmin,
>)
    ensures
        auth_state@.is_admin() ==> r is Ok && r.unwrap().users == users && r.unwrap().admins@
            == others(admins@, auth_state@.username().unwrap()),
        !auth_state@.is_admin() ==> r is Err,
{
    if !auth_state.is_admin() {
        return Err(NotAdmin);
    }
    match auth_state.get_user() {
        Some(viewer) => {
            let listed = without(&admins, &viewer.username);
            Ok(AdminPanel { users, admins: listed })
        },
        None => Err(NotAdmin),
    }
}

/// The role to write when an account with this stored level, if the
/// account exists, is promoted: administrator for a plain user, nothing
/// otherwise.
pub open spec fn promotion(level: Option<i32>) -> Option<PermissionLevel> {
    if level == Some(0i32) {
        Some(PermissionLevel::Admin)
    } else {
        None
    }
}

/// The role to write when an account with this stored level, if the
/// account exists, is demoted: plain user for an administrator, nothing
/// otherwise.
pub open spec fn demotion(level: Option<i32>) -> Option<PermissionLevel> {
    if level == Some(1i32) {
        Some(PermissionLevel::User)
    } else {
        None
    }
}

/// The stored level after a role was written, or after nothing was.
pub open spec fn level_after(level: i32, change: Option<PermissionLevel>) -> i32 {
    match change {
        Some(permission_level) => permission_level.level(),
        None => level,
    }
}

/// A promotion, for an administrator only: the role to write for the
/// target, whose stored level the store found, if it found the account.
pub fn add_admin(auth_state: &AuthState, target_level: Option<i32>) -> (r: Result<
    Option<PermissionLevel>,
    NotAdmin,
>)
    ensures
        auth_state@.is_admin() ==> r == Ok::<Option<PermissionLevel>, NotAdmin>(
            promotion(target_level),
        ),
        !auth_state@.is_admin() ==> r is Err,
{
    if !auth_state.is_admin() {
        return Err(NotAdmin);
    }
    match target_level {
        Some(level) => if level == 0 {
            Ok(Some(PermissionLevel::Admin))
        } else {
            Ok(None)
        },
        None => Ok(None),
    }
}

/// A demotion, for an administrator only: the role to write for the
/// target, whose stored level the store found, if it found the account.
pub fn remove_admin(auth_state: &AuthState, target_level: Option<i32>) -> (r: Result<
    Option<PermissionLevel>,
    NotAdmin,
>)
    ensures
        auth_state@.is_admin() ==> r == Ok::<Option<PermissionLevel>, NotAdmin>(
            demotion(target_level),
        ),
        !auth_state@.is_admin() ==> r is Err,
{
    if !auth_state.is_admin() {
        return Err(NotAdmin);
    }
    match target_level {
        Some(level) => if level == 1 {
            Ok(Some(PermissionLevel::User))
        } else {
            Ok(None)
        },
        None => Ok(None),
    }
}

/// Promoting twice is promoting once: after a promotion, whatever the
/// level was, another one writes nothing.
pub proof fn lemma_promotion_idempotent(level: i32)
    ensures
        promotion(Some(level_after(level, promotion(Some(level))))) is None,
{
}

/// Demoting an account that is no administrator writes nothing, and
/// after a demotion, whatever the level was, another one writes nothing.
pub proof fn lemma_demotion_idempotent(level: i32)
    ensures
        level != 1 ==> demotion(Some(level)) is None,
        demotion(Some(level_after(level, demotion(Some(level))))) is None,
{
}

} // verus!
