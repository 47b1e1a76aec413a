use vstd::prelude::*;
use vstd::string::StringExecFns;

verus! {

/// Why a piece of text is not a count that the service accepts.
#[derive(Debug, Clone, Copy, PartialEq, Eq, Structural)]
pub enum ParseFailure {
    /// The text is empty.
    Empty,
    /// The text holds something other than decimal digits after its sign,
    /// or nothing at all after it.
    InvalidDigit,
    /// The number does not fit in 32 bits.
    Overflow,
    /// The number is below zero.
    Negative,
}

/// Every way in which an operation of the service can fail.
#[derive(Debug, Clone, Copy, PartialEq, Eq, Structural)]
pub enum Error {
    /// A pagination parameter is present but is not a count.
    ParseError(ParseFailure),
    /// A pagination parameter that is required is missing.
    ParamsAbsent,
    /// A stored credential hash is not in a recognised encoding.
    HashFormatError,
    /// The password does not belong to the account.
    WrongPassword,
    /// A session token is corrupt, forged, not yet valid or expired.
    FailTokenDecryption,
    /// The account is authenticated but does not own what it tries to change.
    Unauthorized,
    /// An account with the same email is already registered.
    DuplicateAccount,
    /// The entity asked for does not exist.
    NotFound,
    /// The store could not carry out the operation.
    QueryError,
}

impl ParseFailure {
    /// The text that says why the text is no count.
    pub fn message(&self) -> (text: String)
        ensures
            text@ == self.spec_message(),
    {
        match self {
            ParseFailure::Empty => "cannot parse integer from empty string".to_owned(),
            ParseFailure::InvalidDigit => "invalid digit found in string".to_owned(),
            ParseFailure::Overflow => "number too large to fit in target type".to_owned(),
            ParseFailure::Negative => "number below zero".to_owned(),
        }
    }

    /// The text of `message`, as a sequence of characters.
    pub open spec fn spec_message(&self) -> Seq<char> {
        match self {
            ParseFailure::Empty => "cannot parse integer from empty string"@,
            ParseFailure::InvalidDigit => "invalid digit found in string"@,
            ParseFailure::Overflow => "number too large to fit in target type"@,
            ParseFailure::Negative => "number below zero"@,
        }
    }
}

impl Error {
    /// The text shown for this failure. For a parameter that is no count it
    /// ends with the reason.
    pub fn message(&self) -> (text: String)
        ensures
            text@ == self.spec_message(),
    {
        match self {
            Error::ParseError(failure) => "Invalid parameter: ".to_owned().concat(
                failure.message().as_str(),
            ),
            Error::ParamsAbsent => "Missing required parameter".to_owned(),
            Error::HashFormatError => "Unable to verify password".to_owned(),
            Error::WrongPassword => "Wrong password".to_owned(),
            Error::FailTokenDecryption => "Unable decrypt token".to_owned(),
            Error::Unauthorized => "Unauthorized access to modify content".to_owned(),
            Error::DuplicateAccount => "Account already exists".to_owned(),
            Error::NotFound => "Not found in the database".to_owned(),
            Error::QueryError => "Unable to proceed with the query".to_owned(),
        }
    }

    /// The text of `message`, as a sequence of characters.
    pub open spec fn spec_message(&self) -> Seq<char> {
        match self {
            Error::ParseError(failure) => "Invalid parameter: "@ + failure.spec_message(),
            Error::ParamsAbsent => "Missing required parameter"@,
            Error::HashFormatError => "Unable to verify password"@,
            Error::WrongPassword => "Wrong password"@,
            Error::FailTokenDecryption => "Unable decrypt token"@,
            Error::Unauthorized => "Unauthorized access to modify content"@,
            Error::DuplicateAccount => "Account already exists"@,
            Error::NotFound => "Not found in the database"@,
            Error::QueryError => "Unable to proceed with the query"@,
        }
    }
}

/// The status of a reply to a request that conflicts with what is stored.
pub const CONFLICT: u16 = 409;

/// The status of a reply to a request that is not allowed.
pub const UNAUTHORIZED: u16 = 401;

/// The status of a reply to a request that cannot be carried out.
pub const UNPROCESSABLE_ENTITY: u16 = 422;

/// What a client is told when its request fails: a status and a text.
#[derive(Debug, Clone, PartialEq, Eq)]
pub struct ErrorReply {
    pub status: u16,
    pub body: String,
}

/// The status shown for a failure; `None` stands for a failure that is not
/// one of this service. A login that fails shows the same status whether the
/// account is missing or the password is wrong.
pub open spec fn reply_status(failure: Option<Error>) -> u16 {
    match failure {
        Some(Error::DuplicateAccount) => CONFLICT,
        Some(Error::WrongPassword) | Some(Error::NotFound) => UNAUTHORIZED,
        Some(Error::HashFormatError) => UNAUTHORIZED,
        Some(Error::FailTokenDecryption) => UNAUTHORIZED,
        Some(Error::Unauthorized) => UNAUTHORIZED,
        _ => UNPROCESSABLE_ENTITY,
    }
}

/// The text shown for a failure. A login that fails shows the same text
/// whether the account is missing or the password is wrong.
pub open spec fn reply_body(failure: Option<Error>) -> Seq<char> {
    match failure {
        Some(Error::DuplicateAccount) => "Account already exists"@,
        Some(Error::WrongPassword) | Some(Error::NotFound) => "Invalid email/password combination"@,
        Some(Error::HashFormatError) => "Unable to verify password"@,
        Some(Error::FailTokenDecryption) => "Unable to decrypt token"@,
        Some(Error::Unauthorized) => "Unauthorized access to modify content"@,
        _ => "Unprocessable entity"@,
    }
}

/// Chooses what a client is told about a failure.
pub fn handle_errors(failure: Option<Error>) -> (reply: ErrorReply)
    ensures
        reply.status == reply_status(failure),
        reply.body@ == reply_body(failure),
{
    match failure {
        Some(Error::DuplicateAccount) => ErrorReply {
            status: CONFLICT,
            body: "Account already exists".to_owned(),
        },
        Some(Error::WrongPassword) | Some(Error::NotFound) => ErrorReply {
            status: UNAUTHORIZED,
            body: "Invalid email/password combination".to_owned(),
        },
        Some(Error::HashFormatError) => ErrorReply {
            status: UNAUTHORIZED,
            body: "Unable to verify password".to_owned(),
        },
        Some(Error::FailTokenDecryption) => ErrorReply {
            status: UNAUTHORIZED,
            body: "Unable to decrypt token".to_owned(),
        },
        Some(Error::Unauthorized) => ErrorReply {
            status: UNAUTHORIZED,
            body: "Unauthorized access to modify content".to_owned(),
        },
        _ => ErrorReply { status: UNPROCESSABLE_ENTITY, body: "Unprocessable entity".to_owned() },
    }
}

} // verus!
