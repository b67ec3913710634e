//! Typed failure outcomes of the domain layer.

use vstd::prelude::*;
use vstd::string::StringExecFns;

verus! {

/// A business-rule violation or a storage-layer failure, returned as a
/// value to the immediate caller; none of these is treated as fatal.
#[derive(Debug, Clone)]
pub enum DomainError {
    InvalidEmail(String),
    InvalidUserData(String),
    UserNotFound,
    UserAlreadyExists,
    DatabaseError(String),
    ExternalServiceError(String),
}

/// A storage-layer failure, propagated unchanged from the repository.
pub open spec fn storage_failure(e: DomainError) -> bool {
    ||| e matches DomainError::DatabaseError(_)
    ||| e matches DomainError::ExternalServiceError(_)
}

/// The human-readable description of `e`.
pub open spec fn domain_error_text(e: DomainError) -> Seq<char> {
    match e {
        DomainError::InvalidEmail(m) => "Invalid email: "@ + m@,
        DomainError::InvalidUserData(m) => "Invalid user data: "@ + m@,
        DomainError::UserNotFound => "User not found"@,
        DomainError::UserAlreadyExists => "User already exists"@,
        DomainError::DatabaseError(m) => "Database error: "@ + m@,
        DomainError::ExternalServiceError(m) => "External service error: "@ + m@,
    }
}

impl DomainError {
    /// A human-readable description of the failure.
    pub fn message(&self) -> (r: String)
        ensures
            r@ == domain_error_text(*self),
    {
        match self {
            DomainError::InvalidEmail(m) => "Invalid email: ".to_owned().concat(m.as_str()),
            DomainError::InvalidUserData(m) => "Invalid user data: ".to_owned().concat(m.as_str()),
            DomainError::UserNotFound => "User not found".to_owned(),
            DomainError::UserAlreadyExists => "User already exists".to_owned(),
            DomainError::DatabaseError(m) => "Database error: ".to_owned().concat(m.as_str()),
            DomainError::ExternalServiceError(m) => {
                "External service error: ".to_owned().concat(m.as_str())
            },
        }
    }
}

} // verus!
