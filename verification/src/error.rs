//! The error taxonomy of the service, with its mapping to HTTP-level status
//! codes and stable error-type labels.
use vstd::prelude::*;

verus! {

/// Every failure the core can report. Validation failures, conflicts,
/// missing records and expiry are deterministic business outcomes; the
/// remaining variants carry a description of a backend or internal fault.
#[derive(Debug)]
pub enum UrlShortenerError {
    InvalidUrl(String),
    ShortCodeExists(String),
    ShortCodeNotFound(String),
    UrlExpired,
    DatabaseError(String),
    ValidationError(String),
    ConfigurationError(String),
    RateLimitExceeded,
    SerializationError(String),
    InternalError(String),
}

impl UrlShortenerError {
    /// The HTTP status code each variant translates to at the transport
    /// boundary.
    pub open spec fn spec_status_code(&self) -> u16 {
        match self {
            UrlShortenerError::InvalidUrl(_) => 400,
            UrlShortenerError::ShortCodeExists(_) => 409,
            UrlShortenerError::ShortCodeNotFound(_) => 404,
            UrlShortenerError::UrlExpired => 410,
            UrlShortenerError::ValidationError(_) => 400,
            UrlShortenerError::ConfigurationError(_) => 500,
            UrlShortenerError::RateLimitExceeded => 429,
            UrlShortenerError::SerializationError(_) => 500,
            _ => 500,
        }
    }

    /// The stable label each variant is reported under.
    pub open spec fn spec_error_type(&self) -> Seq<char> {
        match self {
            UrlShortenerError::InvalidUrl(_) => "InvalidUrl"@,
            UrlShortenerError::ShortCodeExists(_) => "ConflictError"@,
            UrlShortenerError::ShortCodeNotFound(_) => "NotFound"@,
            UrlShortenerError::UrlExpired => "Gone"@,
            UrlShortenerError::ValidationError(_) => "ValidationError"@,
            UrlShortenerError::ConfigurationError(_) => "ConfigurationError"@,
            UrlShortenerError::RateLimitExceeded => "RateLimitExceeded"@,
            UrlShortenerError::SerializationError(_) => "SerializationError"@,
            _ => "InternalServerError"@,
        }
    }

    pub fn status_code(&self) -> (r: u16)
        ensures
            r == self.spec_status_code(),
    {
        match self {
            UrlShortenerError::InvalidUrl(_) => 400,
            UrlShortenerError::ShortCodeExists(_) => 409,
            UrlShortenerError::ShortCodeNotFound(_) => 404,
            UrlShortenerError::UrlExpired => 410,
            UrlShortenerError::ValidationError(_) => 400,
            UrlShortenerError::ConfigurationError(_) => 500,
            UrlShortenerError::RateLimitExceeded => 429,
            UrlShortenerError::SerializationError(_) => 500,
            _ => 500,
        }
    }

    pub fn error_type(&self) -> (r: &'static str)
        ensures
            r@ == self.spec_error_type(),
    {
        match self {
            UrlShortenerError::InvalidUrl(_) => "InvalidUrl",
            UrlShortenerError::ShortCodeExists(_) => "ConflictError",
            UrlShortenerError::ShortCodeNotFound(_) => "NotFound",
            UrlShortenerError::UrlExpired => "Gone",
            UrlShortenerError::ValidationError(_) => "ValidationError",
            UrlShortenerError::ConfigurationError(_) => "ConfigurationError",
            UrlShortenerError::RateLimitExceeded => "RateLimitExceeded",
            UrlShortenerError::SerializationError(_) => "SerializationError",
            _ => "InternalServerError",
        }
    }
}

} // verus!
