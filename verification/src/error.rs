use vstd::prelude::*;

verus! {

/// The typed errors surfaced to the boundary layer. Validation failures
/// are per-request and never touch the store; metrics failures never roll
/// back an insert.
#[derive(Debug)]
pub enum AppError {
    InvalidIpAddress(String),
    BadRequest(String),
    InternalError(String),
    ServiceUnavailable,
    MetricsError(String),
    ConfigError(String),
}

impl AppError {
    /// The human-readable description of this error.
    pub open spec fn spec_message(&self) -> Seq<char> {
        match self {
            AppError::InvalidIpAddress(m) => "Invalid IP address: "@ + m@,
            AppError::BadRequest(m) => "Invalid request: "@ + m@,
            AppError::InternalError(m) => "Internal server error: "@ + m@,
            AppError::ServiceUnavailable => "Service unavailable"@,
            AppError::MetricsError(m) => "Metrics error: "@ + m@,
            AppError::ConfigError(m) => "Configuration error: "@ + m@,
        }
    }

    /// The HTTP status the boundary layer renders this error with.
    pub open spec fn spec_status_code(&self) -> u16 {
        match self {
            AppError::InvalidIpAddress(_) => 400,
            AppError::BadRequest(_) => 400,
            AppError::InternalError(_) => 500,
            AppError::ServiceUnavailable => 503,
            AppError::MetricsError(_) => 500,
            AppError::ConfigError(_) => 500,
        }
    }

    pub fn message(&self) -> (r: String)
        ensures
            r@ == self.spec_message(),
    {
        match self {
            AppError::InvalidIpAddress(m) => {
                let mut s = String::from_str("Invalid IP address: ");
                s.append(m.as_str());
                s
            },
            AppError::BadRequest(m) => {
                let mut s = String::from_str("Invalid request: ");
                s.append(m.as_str());
                s
            },
            AppError::InternalError(m) => {
                let mut s = String::from_str("Internal server error: ");
                s.append(m.as_str());
                s
            },
            AppError::ServiceUnavailable => String::from_str("Service unavailable"),
            AppError::MetricsError(m) => {
                let mut s = String::from_str("Metrics error: ");
                s.append(m.as_str());
                s
            },
            AppError::ConfigError(m) => {
                let mut s = String::from_str("Configuration error: ");
                s.append(m.as_str());
                s
            },
        }
    }

    pub fn status_code(&self) -> (r: u16)
        ensures
            r == self.spec_status_code(),
    {
        match self {
            AppError::InvalidIpAddress(_) => 400,
            AppError::BadRequest(_) => 400,
            AppError::InternalError(_) => 500,
            AppError::ServiceUnavailable => 503,
            AppError::MetricsError(_) => 500,
            AppError::ConfigError(_) => 500,
        }
    }
}

} // verus!
