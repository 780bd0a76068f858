use vstd::prelude::*;

verus! {

/// Why a single text field failed validation.
#[derive(Clone, Copy, Debug, PartialEq, Eq, Structural)]
pub enum ValidationError {
    /// Nothing but whitespace (or nothing at all).
    Empty,
    /// More characters than the configured bound.
    TooLong,
    /// Holds a control character or a storage-significant delimiter.
    ForbiddenChar,
}

/// A typed failure that ends one route attempt or one handler call.
#[derive(Clone, Copy, Debug, PartialEq, Eq, Structural)]
pub enum Rejection {
    /// A required query or body field is absent.
    MissingParameter,
    /// A field failed a validation rule.
    InvalidInput(ValidationError),
    /// A typed path parameter could not be parsed, or the query string
    /// could not be decoded.
    InvalidQuery,
    /// The request body is not well-formed JSON.
    InvalidBody,
    /// The credential is missing, malformed or was not accepted.
    Unauthorized,
    /// A login whose username and password match no stored user.
    NoMatchingUser,
    /// No route matched the method and path.
    NotFound,
    /// The persistence collaborator failed.
    DatabaseError,
    /// The file-storage collaborator refused the payload.
    InvalidFileType,
}

/// The HTTP status code a rejection is answered with.
pub open spec fn status_of(r: Rejection) -> u16 {
    match r {
        Rejection::MissingParameter => 400,
        Rejection::InvalidInput(_) => 400,
        Rejection::InvalidQuery => 400,
        Rejection::InvalidBody => 400,
        Rejection::Unauthorized => 401,
        Rejection::NoMatchingUser => 401,
        Rejection::NotFound => 404,
        Rejection::DatabaseError => 500,
        Rejection::InvalidFileType => 415,
    }
}

impl Rejection {
    /// The HTTP status code of this rejection.
    pub fn status_code(&self) -> (r: u16)
        ensures
            r == status_of(*self),
    {
        match self {
            Rejection::MissingParameter => 400,
            Rejection::InvalidInput(_) => 400,
            Rejection::InvalidQuery => 400,
            Rejection::InvalidBody => 400,
            Rejection::Unauthorized => 401,
            Rejection::NoMatchingUser => 401,
            Rejection::NotFound => 404,
            Rejection::DatabaseError => 500,
            Rejection::InvalidFileType => 415,
        }
    }

    /// Whether the rejection is a client error (a 4xx status).
    pub fn is_client_error(&self) -> (r: bool)
        ensures
            r == (400 <= status_of(*self) < 500),
    {
        let s = self.status_code();
        400 <= s && s < 500
    }
}

} // verus!
