use vstd::prelude::*;

verus! {

/// Which structural check a request value failed.
#[derive(Clone, Copy, PartialEq, Eq, Structural, Debug)]
pub enum ValidationFault {
    BadEmail,
    BadPasswordLength,
    BadTokenLength,
    BadUsernameLength,
    BadTokenNameLength,
}

/// Every failure the core can report to its callers.
#[derive(Debug)]
pub enum Error {
    /// A request value failed structural validation, before any store access.
    Validation(ValidationFault),
    /// The presented credential proves no identity.  Login collapses a
    /// mismatched password and an unmatched token into this one signal, so a
    /// client cannot tell which half of the credential was wrong.
    WrongPassword,
    /// A user looked up by identifier is not in the store.
    UserDoesNotExist,
    /// A stored hash could not be parsed, or the hashing primitive rejected
    /// its parameters.
    PwHashing,
    /// A stored hash record carries no embedded salt: a data-integrity
    /// fault, not a wrong guess.
    MissingSalt,
    /// A stored token hash carries no embedded salt: a data-integrity fault,
    /// not a wrong guess.  Carries the token's name.
    NoSaltStoredForToken(String),
    /// A user with this email or display name already exists.
    UserExists,
    /// The owner already has a token with the requested name.
    TokenWithThatNameExists(String),
    /// A metadata row for this file identifier already exists.
    FileExists,
    /// No file with this identifier exists on this server.
    FileNotFound,
    /// A storage directory holds more or fewer than one file.
    NotOneFileInStorageDir,
    /// The file has storage but no metadata row.
    FileDBEntryNotFound,
    /// The acting user may not perform this action.
    Unauthorized,
    /// Registrations are closed on this instance.
    RegistrationClosed,
    /// The requested site does not exist.
    SiteDoesNotExist,
    /// A user record carries a kind string no variant answers to.
    UnknownUserKind(String),
    /// A file identifier string did not parse.
    BadFileID,
    /// The identifier allocator exceeded its retry bound: fatal.
    IdSpaceExhausted,
}

impl Clone for Error {
    fn clone(&self) -> (r: Self)
        ensures
            r == *self,
    {
        match self {
            Error::Validation(f) => Error::Validation(*f),
            Error::WrongPassword => Error::WrongPassword,
            Error::UserDoesNotExist => Error::UserDoesNotExist,
            Error::PwHashing => Error::PwHashing,
            Error::MissingSalt => Error::MissingSalt,
            Error::NoSaltStoredForToken(s) => Error::NoSaltStoredForToken(s.clone()),
            Error::UserExists => Error::UserExists,
            Error::TokenWithThatNameExists(s) => Error::TokenWithThatNameExists(s.clone()),
            Error::FileExists => Error::FileExists,
            Error::FileNotFound => Error::FileNotFound,
            Error::NotOneFileInStorageDir => Error::NotOneFileInStorageDir,
            Error::FileDBEntryNotFound => Error::FileDBEntryNotFound,
            Error::Unauthorized => Error::Unauthorized,
            Error::RegistrationClosed => Error::RegistrationClosed,
            Error::SiteDoesNotExist => Error::SiteDoesNotExist,
            Error::UnknownUserKind(s) => Error::UnknownUserKind(s.clone()),
            Error::BadFileID => Error::BadFileID,
            Error::IdSpaceExhausted => Error::IdSpaceExhausted,
        }
    }
}

impl Error {
    /// The HTTP status the boundary reports for this failure.
    pub open spec fn spec_status_code(&self) -> u16 {
        match self {
            Error::FileNotFound => 404,
            Error::SiteDoesNotExist => 404,
            Error::Unauthorized => 401,
            Error::WrongPassword => 401,
            Error::RegistrationClosed => 401,
            Error::TokenWithThatNameExists(_) => 409,
            Error::BadFileID => 400,
            _ => 500,
        }
    }

    pub fn status_code(&self) -> (r: u16)
        ensures
            r == self.spec_status_code(),
    {
        match self {
            Error::FileNotFound | Error::SiteDoesNotExist => 404,
            Error::Unauthorized | Error::WrongPassword | Error::RegistrationClosed => 401,
            Error::TokenWithThatNameExists(_) => 409,
            Error::BadFileID => 400,
            _ => 500,
        }
    }

    /// The human-readable description of this failure.
    pub open spec fn spec_message(&self) -> Seq<char> {
        match self {
            Error::Validation(f) => "Validation of a datastructure failed: "@ + fault_text(*f),
            Error::WrongPassword => "Wrong login password"@,
            Error::UserDoesNotExist => "The requested user does not exist"@,
            Error::PwHashing => "Error while working with password hashes"@,
            Error::MissingSalt => "A stored hash does not embed a salt"@,
            Error::NoSaltStoredForToken(s) => "DB has no salt for a stored token: "@ + s@,
            Error::UserExists => "A user with this email or user name already exists"@,
            Error::TokenWithThatNameExists(s) => "A token with this name already exists: "@
                + s@,
            Error::FileExists => "File exists already in the database"@,
            Error::FileNotFound => "This file does not exist on this server"@,
            Error::NotOneFileInStorageDir => "A storage directory is not holding exactly one file"@,
            Error::FileDBEntryNotFound => "This file does not have a database entry"@,
            Error::Unauthorized => "User not authorized for this action"@,
            Error::RegistrationClosed => "Registrations are closed"@,
            Error::SiteDoesNotExist => "The requested site does not exist"@,
            Error::UnknownUserKind(s) => "Unknown user kind: "@ + s@,
            Error::BadFileID => "Could not parse FileID"@,
            Error::IdSpaceExhausted => "Exceeded the retry bound while allocating a file identifier"@,
        }
    }

    pub fn message(&self) -> (r: String)
        ensures
            r@ == self.spec_message(),
    {
        match self {
            Error::Validation(f) => "Validation of a datastructure failed: ".to_owned().concat(
                fault_message(*f),
            ),
            Error::WrongPassword => "Wrong login password".to_owned(),
            Error::UserDoesNotExist => "The requested user does not exist".to_owned(),
            Error::PwHashing => "Error while working with password hashes".to_owned(),
            Error::MissingSalt => "A stored hash does not embed a salt".to_owned(),
            Error::NoSaltStoredForToken(s) => "DB has no salt for a stored token: ".to_owned()
                .concat(s.as_str()),
            Error::UserExists => "A user with this email or user name already exists".to_owned(),
            Error::TokenWithThatNameExists(s) => "A token with this name already exists: "
                .to_owned().concat(s.as_str()),
            Error::FileExists => "File exists already in the database".to_owned(),
            Error::FileNotFound => "This file does not exist on this server".to_owned(),
            Error::NotOneFileInStorageDir => "A storage directory is not holding exactly one file"
                .to_owned(),
            Error::FileDBEntryNotFound => "This file does not have a database entry".to_owned(),
            Error::Unauthorized => "User not authorized for this action".to_owned(),
            Error::RegistrationClosed => "Registrations are closed".to_owned(),
            Error::SiteDoesNotExist => "The requested site does not exist".to_owned(),
            Error::UnknownUserKind(s) => "Unknown user kind: ".to_owned().concat(s.as_str()),
            Error::BadFileID => "Could not parse FileID".to_owned(),
            Error::IdSpaceExhausted => "Exceeded the retry bound while allocating a file identifier"
                .to_owned(),
        }
    }
}

/// The short text for one failed structural check.
pub open spec fn fault_text(f: ValidationFault) -> Seq<char> {
    match f {
        ValidationFault::BadEmail => "invalid email address"@,
        ValidationFault::BadPasswordLength => "password length out of bounds"@,
        ValidationFault::BadTokenLength => "token length out of bounds"@,
        ValidationFault::BadUsernameLength => "user name length out of bounds"@,
        ValidationFault::BadTokenNameLength => "token name length out of bounds"@,
    }
}

pub fn fault_message(f: ValidationFault) -> (r: &'static str)
    ensures
        r@ == fault_text(f),
{
    match f {
        ValidationFault::BadEmail => "invalid email address",
        ValidationFault::BadPasswordLength => "password length out of bounds",
        ValidationFault::BadTokenLength => "token length out of bounds",
        ValidationFault::BadUsernameLength => "user name length out of bounds",
        ValidationFault::BadTokenNameLength => "token name length out of bounds",
    }
}

/// What the error page for a failure shows.
#[derive(Debug)]
pub struct ErrorPageDetails {
    pub icon: String,
    pub code: u16,
    pub heading: String,
    pub message: String,
}

/// The icon class shown for one status code: a bug for server errors, more
/// specific marks for the common client errors.
pub open spec fn spec_icon_for(code: u16) -> Seq<char> {
    if 500 <= code < 600 {
        "bug"@
    } else if code == 404 {
        "question-circle-fill"@
    } else if code == 401 {
        "slash-circle-fill"@
    } else {
        "x"@
    }
}

/// The heading shown for one of the status codes the core produces.
pub open spec fn spec_heading_for(code: u16) -> Seq<char> {
    if code == 400 {
        "400 Bad Request"@
    } else if code == 401 {
        "401 Unauthorized"@
    } else if code == 404 {
        "404 Not Found"@
    } else if code == 409 {
        "409 Conflict"@
    } else {
        "500 Internal Server Error"@
    }
}

/// The message shown on an error page: the failure's own description, except
/// that server errors show a generic text instead of internals.
pub open spec fn spec_page_message(e: Error) -> Seq<char> {
    if 500 <= e.spec_status_code() < 600 {
        "The server ran into a problem it did not know how to handle. Please contact the administrator."@
    } else {
        e.spec_message()
    }
}

impl ErrorPageDetails {
    /// Details for the page that reports a failure: the failure's status
    /// code, the icon and heading for that code, and the page message.
    pub fn from_error(e: &Error) -> (r: ErrorPageDetails)
        ensures
            r.code == e.spec_status_code(),
            r.icon@ == spec_icon_for(e.spec_status_code()),
            r.heading@ == spec_heading_for(e.spec_status_code()),
            r.message@ == spec_page_message(*e),
    {
        let code = e.status_code();
        let icon = if code >= 500 {
            "bug"
        } else if code == 404 {
            "question-circle-fill"
        } else if code == 401 {
            "slash-circle-fill"
        } else {
            "x"
        };
        let heading = if code == 400 {
            "400 Bad Request"
        } else if code == 401 {
            "401 Unauthorized"
        } else if code == 404 {
            "404 Not Found"
        } else if code == 409 {
            "409 Conflict"
        } else {
            "500 Internal Server Error"
        };
        let message = if code >= 500 {
            "The server ran into a problem it did not know how to handle. Please contact the administrator.".to_owned()
        } else {
            e.message()
        };
        ErrorPageDetails {
            icon: icon.to_owned(),
            code,
            heading: heading.to_owned(),
            message,
        }
    }
}

/// A failure as the API boundary reports it.
#[derive(Debug)]
pub struct ErrorResponse {
    pub error: Error,
}

} // verus!
