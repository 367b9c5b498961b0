//! What can go wrong, and how each failure is shown to the client: an HTTP
//! status code and a short message.

use vstd::prelude::*;
use vstd::string::*;

verus! {

pub const BAD_REQUEST: u16 = 400;

pub const UNAUTHORIZED: u16 = 401;

pub const NOT_FOUND: u16 = 404;

pub const INTERNAL_SERVER_ERROR: u16 = 500;

/// A failure that can be shown as an error page.
pub trait ErrorInfo {
    /// The HTTP status code of the error page.
    spec fn status(&self) -> u16;

    /// The text of the error page.
    spec fn message(&self) -> Seq<char>;

    fn error_info(&self) -> (r: (u16, String))
        ensures
            r.0 == self.status(),
            r.1@ == self.message(),
    ;
}

/// The request needs a session and has none.
#[derive(Debug, Clone, Copy, PartialEq, Eq, Structural)]
pub struct NotLoggedIn;

impl NotLoggedIn {
    pub fn to_string(&self) -> (r: String)
        ensures
            r@ == "Not logged in"@,
    {
        "Not logged in".to_owned()
    }
}

impl ErrorInfo for NotLoggedIn {
    open spec fn status(&self) -> u16 {
        UNAUTHORIZED
    }

    open spec fn message(&self) -> Seq<char> {
        "Not logged in"@
    }

    fn error_info(&self) -> (r: (u16, String)) {
        (UNAUTHORIZED, self.to_string())
    }
}

/// The request needs an administrator and comes from someone else.
#[derive(Debug, Clone, Copy, PartialEq, Eq, Structural)]
pub struct NotAdmin;

impl NotAdmin {
    pub fn to_string(&self) -> (r: String)
        ensures
            r@ == "Not an administator"@,
    {
        "Not an administator".to_owned()
    }
}

impl ErrorInfo for NotAdmin {
    open spec fn status(&self) -> u16 {
        UNAUTHORIZED
    }

    open spec fn message(&self) -> Seq<char> {
        "Not an administator"@
    }

    fn error_info(&self) -> (r: (u16, String)) {
        (UNAUTHORIZED, self.to_string())
    }
}

/// Why an account was not created.
#[derive(Debug, Clone, Copy, PartialEq, Eq, Structural)]
pub enum SignupError {
    UsernameExists,
    InvalidUsername,
    PasswordsDoNotMatch,
    InvalidPassword,
    InternalError,
}

impl SignupError {
    pub fn to_string(&self) -> (r: String)
        ensures
            r@ == self.message(),
    {
        match self {
            SignupError::InvalidUsername => "Invalid username".to_owned(),
            SignupError::UsernameExists => "Username already exists".to_owned(),
            SignupError::PasswordsDoNotMatch => "Passwords do not match".to_owned(),
            SignupError::InvalidPassword => "Invalid Password".to_owned(),
            SignupError::InternalError => "Internal Error".to_owned(),
        }
    }
}

impl ErrorInfo for SignupError {
    open spec fn status(&self) -> u16 {
        match self {
            SignupError::InternalError => INTERNAL_SERVER_ERROR,
            _ => BAD_REQUEST,
        }
    }

    open spec fn message(&self) -> Seq<char> {
        match self {
            SignupError::InvalidUsername => "Invalid username"@,
            SignupError::UsernameExists => "Username already exists"@,
            SignupError::PasswordsDoNotMatch => "Passwords do not match"@,
            SignupError::InvalidPassword => "Invalid Password"@,
            SignupError::InternalError => "Internal Error"@,
        }
    }

    fn error_info(&self) -> (r: (u16, String)) {
        match self {
            SignupError::InvalidUsername => (BAD_REQUEST, self.to_string()),
            SignupError::UsernameExists => (BAD_REQUEST, self.to_string()),
            SignupError::PasswordsDoNotMatch => (BAD_REQUEST, self.to_string()),
            SignupError::InvalidPassword => (BAD_REQUEST, self.to_string()),
            SignupError::InternalError => (INTERNAL_SERVER_ERROR, self.to_string()),
        }
    }
}

/// Why a login was refused.
#[derive(Debug, Clone, Copy, PartialEq, Eq, Structural)]
pub enum LoginError {
    UserDoesNotExist,
    WrongPassword,
}

impl LoginError {
    pub fn to_string(&self) -> (r: String)
        ensures
            r@ == self.message(),
    {
        match self {
            LoginError::UserDoesNotExist => "User does not exist".to_owned(),
            LoginError::WrongPassword => "Wrong password".to_owned(),
        }
    }
}

impl ErrorInfo for LoginError {
    open spec fn status(&self) -> u16 {
        match self {
            LoginError::UserDoesNotExist => BAD_REQUEST,
            LoginError::WrongPassword => UNAUTHORIZED,
        }
    }

    open spec fn message(&self) -> Seq<char> {
        match self {
            LoginError::UserDoesNotExist => "User does not exist"@,
            LoginError::WrongPassword => "Wrong password"@,
        }
    }

    fn error_info(&self) -> (r: (u16, String)) {
        match self {
            LoginError::UserDoesNotExist => (BAD_REQUEST, self.to_string()),
            LoginError::WrongPassword => (UNAUTHORIZED, self.to_string()),
        }
    }
}

/// No account has the username that was asked for.
#[derive(Debug, Clone, PartialEq, Eq)]
pub struct NoUser(pub String);

impl NoUser {
    pub fn to_string(&self) -> (r: String)
        ensures
            r@ == self.message(),
    {
        let mut text = "could not find user '".to_owned();
        text.append(self.0.as_str());
        text.append("'");
        text
    }
}

impl ErrorInfo for NoUser {
    open spec fn status(&self) -> u16 {
        NOT_FOUND
    }

    open spec fn message(&self) -> Seq<char> {
        "could not find user '"@ + self.0@ + "'"@
    }

    fn error_info(&self) -> (r: (u16, String)) {
        (NOT_FOUND, self.to_string())
    }
}

/// A stored value is not one that this library ever writes: a permission
/// level other than 0 and 1, or a password hash that is no PHC string.
#[derive(Debug, Clone, Copy, PartialEq, Eq, Structural)]
pub struct CorruptData;

impl CorruptData {
    pub fn to_string(&self) -> (r: String)
        ensures
            r@ == "Internal Error"@,
    {
        "Internal Error".to_owned()
    }
}

impl ErrorInfo for CorruptData {
    open spec fn status(&self) -> u16 {
        INTERNAL_SERVER_ERROR
    }

    open spec fn message(&self) -> Seq<char> {
        "Internal Error"@
    }

    fn error_info(&self) -> (r: (u16, String)) {
        (INTERNAL_SERVER_ERROR, self.to_string())
    }
}

} // verus!
