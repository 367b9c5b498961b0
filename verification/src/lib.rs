//! Accounts, sessions and roles of a small multi-user web application.
//!
//! The library holds the rules: what a session token is and how it travels,
//! which usernames and passwords are accepted, how a request's identity is
//! resolved, who may promote or demote whom, and what each answer looks
//! like as plain values. The program around it talks to the database and
//! to the HTTP server.

pub mod auth;
pub mod errors;
pub mod password;
pub mod token;
pub mod users;
pub mod utils;

use vstd::prelude::*;

verus! {

/// Name of the cookie that carries the session token.
pub const USER_COOKIE_NAME: &'static str = "user_token";

/// `Max-Age` of the session cookie after a login or a signup, in seconds.
pub const COOKIE_MAX_AGE: &'static str = "9999999";

} // verus!
