use vstd::prelude::*;

verus! {

/// The failures that the authentication core reports to its callers.
#[derive(Debug)]
pub enum ServiceError {
    InternalServerError(String),
    BadRequest(String),
    NotFound(String),
    Conflict(String),
    DependencyUnavailable,
    MissingToken,
    InvalidToken,
    ExpiredToken,
}

/// The kind of a failure, without its message.
#[derive(PartialEq, Eq, Structural, Clone, Copy, Debug)]
pub enum ErrorKind {
    InternalServerError,
    BadRequest,
    NotFound,
    Conflict,
    DependencyUnavailable,
    MissingToken,
    InvalidToken,
    ExpiredToken,
}

pub open spec fn kind_of(e: ServiceError) -> ErrorKind {
    match e {
        ServiceError::InternalServerError(_) => ErrorKind::InternalServerError,
        ServiceError::BadRequest(_) => ErrorKind::BadRequest,
        ServiceError::NotFound(_) => ErrorKind::NotFound,
        ServiceError::Conflict(_) => ErrorKind::Conflict,
        ServiceError::DependencyUnavailable => ErrorKind::DependencyUnavailable,
        ServiceError::MissingToken => ErrorKind::MissingToken,
        ServiceError::InvalidToken => ErrorKind::InvalidToken,
        ServiceError::ExpiredToken => ErrorKind::ExpiredToken,
    }
}

/// HTTP status that each kind of failure is reported with.
pub open spec fn status_of(e: ServiceError) -> u16 {
    match e {
        ServiceError::InternalServerError(_) => 500,
        ServiceError::BadRequest(_) => 400,
        ServiceError::NotFound(_) => 404,
        ServiceError::Conflict(_) => 409,
        ServiceError::DependencyUnavailable => 503,
        _ => 401,
    }
}

impl ServiceError {
    pub fn status_code(&self) -> (r: u16)
        ensures
            r == status_of(*self),
    {
        match self {
            ServiceError::InternalServerError(_) => 500,
            ServiceError::BadRequest(_) => 400,
            ServiceError::NotFound(_) => 404,
            ServiceError::Conflict(_) => 409,
            ServiceError::DependencyUnavailable => 503,
            _ => 401,
        }
    }

    pub fn kind(&self) -> (r: ErrorKind)
        ensures
            r == kind_of(*self),
    {
        match self {
            ServiceError::InternalServerError(_) => ErrorKind::InternalServerError,
            ServiceError::BadRequest(_) => ErrorKind::BadRequest,
            ServiceError::NotFound(_) => ErrorKind::NotFound,
            ServiceError::Conflict(_) => ErrorKind::Conflict,
            ServiceError::DependencyUnavailable => ErrorKind::DependencyUnavailable,
            ServiceError::MissingToken => ErrorKind::MissingToken,
            ServiceError::InvalidToken => ErrorKind::InvalidToken,
            ServiceError::ExpiredToken => ErrorKind::ExpiredToken,
        }
    }

    /// The text shown to the caller. Internal failures are reported opaquely,
    /// without the underlying detail.
    pub fn message(&self) -> (r: String)
        ensures
            self is InternalServerError ==> r@ == "Internal server error"@,
            self is DependencyUnavailable ==> r@ == "Service temporarily unavailable"@,
            self is MissingToken ==> r@ == "Missing token header"@,
            self is InvalidToken ==> r@ == "Invalid token"@,
            self is ExpiredToken ==> r@ == "Expired token, please refresh it"@,
            self is BadRequest ==> r@ == "Bad request: "@ + self->BadRequest_0@,
            self is NotFound ==> r@ == "Resource not found: "@ + self->NotFound_0@,
            self is Conflict ==> r@ == "Conflict: "@ + self->Conflict_0@,
    {
        match self {
            ServiceError::InternalServerError(_) => String::from_str("Internal server error"),
            ServiceError::DependencyUnavailable => String::from_str("Service temporarily unavailable"),
            ServiceError::MissingToken => String::from_str("Missing token header"),
            ServiceError::InvalidToken => String::from_str("Invalid token"),
            ServiceError::ExpiredToken => String::from_str("Expired token, please refresh it"),
            ServiceError::BadRequest(m) => {
                let mut s = String::from_str("Bad request: ");
                s.append(m.as_str());
                s
            },
            ServiceError::NotFound(m) => {
                let mut s = String::from_str("Resource not found: ");
                s.append(m.as_str());
                s
            },
            ServiceError::Conflict(m) => {
                let mut s = String::from_str("Conflict: ");
                s.append(m.as_str());
                s
            },
        }
    }
}

impl From<String> for ServiceError {
    fn from(error: String) -> (r: ServiceError)
        ensures
            r == ServiceError::BadRequest(error),
    {
        ServiceError::BadRequest(error)
    }
}

impl vstd::std_specs::convert::FromSpecImpl<String> for ServiceError {
    open spec fn obeys_from_spec() -> bool {
        true
    }

    open spec fn from_spec(v: String) -> ServiceError {
        ServiceError::BadRequest(v)
    }
}

} // verus!
