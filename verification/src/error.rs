//! The error type that every fallible operation of the library returns.
use vstd::prelude::*;

verus! {

/// Failure categories. Each carries a human-readable message.
#[derive(Debug)]
pub enum AppError {
    /// A caller-supplied value was rejected.
    InvalidConfig(String),
    /// A referenced object does not exist.
    NotFound(String),
    /// The selected connection does not offer the requested operation.
    Unsupported(String),
    /// The selected connection cannot be used at the moment.
    Unavailable(String),
    /// A schedule could not be computed.
    ScheduleError(String),
    /// A VM template could not be found or stored.
    TemplateError(String),
    /// libvirt refused or failed a request.
    LibvirtError(String),
    /// A failed operation left resources behind that require inspection.
    Partial(String),
    /// No VM has the given id.
    VmNotFound(String),
    /// The VM is not in a state that allows the operation.
    InvalidVmState(String),
    /// Any other failure.
    Other(String),
}

impl AppError {
    pub fn invalid(msg: &str) -> (e: AppError)
        ensures
            e is InvalidConfig,
    {
        AppError::InvalidConfig(String::from_str(msg))
    }

    /// The message carried by the error.
    pub fn message(&self) -> (m: String)
        ensures
            m@ == (match self {
                AppError::InvalidConfig(x) => x@,
                AppError::NotFound(x) => x@,
                AppError::Unsupported(x) => x@,
                AppError::Unavailable(x) => x@,
                AppError::ScheduleError(x) => x@,
                AppError::TemplateError(x) => x@,
                AppError::LibvirtError(x) => x@,
                AppError::Partial(x) => x@,
                AppError::VmNotFound(x) => x@,
                AppError::InvalidVmState(x) => x@,
                AppError::Other(x) => x@,
            }),
    {
        match self {
            AppError::InvalidConfig(m) => m.clone(),
            AppError::NotFound(m) => m.clone(),
            AppError::Unsupported(m) => m.clone(),
            AppError::Unavailable(m) => m.clone(),
            AppError::ScheduleError(m) => m.clone(),
            AppError::TemplateError(m) => m.clone(),
            AppError::LibvirtError(m) => m.clone(),
            AppError::Partial(m) => m.clone(),
            AppError::VmNotFound(m) => m.clone(),
            AppError::InvalidVmState(m) => m.clone(),
            AppError::Other(m) => m.clone(),
        }
    }
}

} // verus!
