use vstd::prelude::*;

verus! {

/// Errors of the domain layer.
#[derive(Debug, Clone)]
pub enum DomainError {
    InvalidStateTransition(&'static str),
    SessionExpired,
    InvalidPinCode,
    BusinessRuleViolation(String),
    DeviceNotFound(String),
    DeviceNotTrusted(String),
    ShareNotFound(String),
    TransferNotFound(String),
    PermissionDenied(String),
    VersionConflict(String),
    IntegrityError(String),
    NotFound(String),
    Persistence(String),
    Network(String),
    Security(String),
    FileSystem(String),
    NonceReplay,
    TimestampOutOfWindow,
}

pub type DomainResult<T> = Result<T, DomainError>;

/// Errors of the application layer.
#[derive(Debug, Clone)]
pub enum AppError {
    Domain(DomainError),
    Internal(String),
}

} // verus!
