//! The answers to a request, as plain values: a status code, the headers
//! that matter and a body.

use crate::errors::ErrorInfo;
use crate::token::{decimal_digits, SessionToken};
use crate::{COOKIE_MAX_AGE, USER_COOKIE_NAME};
use vstd::prelude::*;
use vstd::string::*;

verus! {

pub const SEE_OTHER: u16 = 303;

/// An HTTP answer.
#[derive(Debug, Clone, PartialEq, Eq)]
pub struct Response {
    pub status: u16,
    /// The `Location` header, if there is one.
    pub location: Option<String>,
    /// The `Set-Cookie` header, if there is one.
    pub set_cookie: Option<String>,
    pub body: String,
}

/// The `Set-Cookie` header that starts a session.
pub open spec fn login_cookie(token: u128) -> Seq<char> {
    "user_token"@ + "="@ + decimal_digits(token as nat) + "; Max-Age="@ + "9999999"@
}

/// The `Set-Cookie` header that ends a session.
pub open spec fn logout_cookie() -> Seq<char> {
    "user_token"@ + "=_; Max-Age=0"@
}

/// The answer to a login or a signup that succeeded: a redirect to the
/// landing page that sets the session cookie.
pub fn login_response(session_token: SessionToken) -> (r: Response)
    ensures
        r.status == SEE_OTHER,
        r.location is Some && r.location.unwrap()@ == "/"@,
        r.set_cookie is Some && r.set_cookie.unwrap()@ == login_cookie(session_token@),
        r.body@ == Seq::<char>::empty(),
{
    let mut cookie = USER_COOKIE_NAME.to_owned();
    cookie.append("=");
    cookie.append(session_token.into_cookie_value().as_str());
    cookie.append("; Max-Age=");
    cookie.append(COOKIE_MAX_AGE);
    Response {
        status: SEE_OTHER,
        location: Some("/".to_owned()),
        set_cookie: Some(cookie),
        body: String::new(),
    }
}

/// The answer to a logout: a redirect to the landing page that clears the
/// session cookie.
pub fn logout_response() -> (r: Response)
    ensures
        r.status == SEE_OTHER,
        r.location is Some && r.location.unwrap()@ == "/"@,
        r.set_cookie is Some && r.set_cookie.unwrap()@ == logout_cookie(),
        r.body@ == Seq::<char>::empty(),
{
    let mut cookie = USER_COOKIE_NAME.to_owned();
    cookie.append("=_; Max-Age=0");
    Response {
        status: SEE_OTHER,
        location: Some("/".to_owned()),
        set_cookie: Some(cookie),
        body: String::new(),
    }
}

/// The page that shows a failure: its status code, and its message as the
/// body.
pub fn error_page<E: ErrorInfo>(err: &E) -> (r: Response)
    ensures
        r.status == err.status(),
        r.body@ == err.message(),
        r.location is None,
        r.set_cookie is None,
{
    let (status, body) = err.error_info();
    Response { status, location: None, set_cookie: None, body }
}

} // verus!
