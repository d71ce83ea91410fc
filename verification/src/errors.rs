//! The error kinds of the data access and service layers.

use vstd::prelude::*;

verus! {

/// Why an operation of the data access or service layer failed.
#[derive(Clone, Copy, Debug, PartialEq, Eq, Structural)]
pub enum Error {
    /// A query that expects exactly one row found none.
    NotFound,
    /// Unknown user name or wrong password; the two are not told apart.
    InvalidCredentials,
    /// The request carries no principal that may act for the addressed user.
    Unauthorized,
    /// The principal does not own the post, or the ids of the request disagree.
    Forbidden,
    /// The request is malformed.
    ValidationError,
    /// The user name is already taken.
    Conflict,
    /// A post names an owner that does not exist.
    ForeignKeyViolation,
    /// The store refused or could not complete the operation.
    StorageFault,
}

impl Error {
    /// The HTTP status that answers a request failing with this error.
    pub open spec fn spec_status_code(self) -> u16 {
        match self {
            Error::NotFound => 404,
            Error::InvalidCredentials => 400,
            Error::Unauthorized => 401,
            Error::Forbidden => 403,
            Error::ValidationError => 400,
            Error::Conflict => 400,
            Error::ForeignKeyViolation => 500,
            Error::StorageFault => 500,
        }
    }

    /// True for the kinds whose cause lies in the store, not in the request.
    pub open spec fn is_internal(self) -> bool {
        self == Error::ForeignKeyViolation || self == Error::StorageFault
    }

    /// The words that tell a client of this error. For the kinds whose cause
    /// lies in the store they say nothing of the cause.
    pub open spec fn spec_description(self) -> Seq<char> {
        match self {
            Error::NotFound => "Not found"@,
            Error::InvalidCredentials => "Invalid credentials"@,
            Error::Unauthorized => "Invalid credentials"@,
            Error::Forbidden => "Wrong owner or post id!"@,
            Error::ValidationError => "Bad request"@,
            Error::Conflict => "Name is already taken"@,
            Error::ForeignKeyViolation => "Internal server error"@,
            Error::StorageFault => "Internal server error"@,
        }
    }

    pub fn description(self) -> (words: String)
        ensures
            words@ == self.spec_description(),
    {
        let words = match self {
            Error::NotFound => "Not found",
            Error::InvalidCredentials => "Invalid credentials",
            Error::Unauthorized => "Invalid credentials",
            Error::Forbidden => "Wrong owner or post id!",
            Error::ValidationError => "Bad request",
            Error::Conflict => "Name is already taken",
            Error::ForeignKeyViolation => "Internal server error",
            Error::StorageFault => "Internal server error",
        };
        words.to_owned()
    }

    #[verifier::when_used_as_spec(spec_status_code)]
    pub fn status_code(self) -> (code: u16)
        ensures
            code == self.spec_status_code(),
            self.is_internal() <==> code == 500,
    {
        match self {
            Error::NotFound => 404,
            Error::InvalidCredentials => 400,
            Error::Unauthorized => 401,
            Error::Forbidden => 403,
            Error::ValidationError => 400,
            Error::Conflict => 400,
            Error::ForeignKeyViolation => 500,
            Error::StorageFault => 500,
        }
    }
}

} // verus!
