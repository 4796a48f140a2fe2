//! The error taxonomy of the bridge.
//!
//! Every native call that returns a nonzero status is converted at the
//! boundary into one of these typed errors, carrying the native code and the
//! human-readable text that the native error-string accessor produced for it.

use vstd::prelude::*;

verus! {

/// One typed failure of a bridge operation.
#[derive(Debug)]
pub enum MultiError {
    /// The native multiplexer could not be allocated (a null handle came back).
    InitializationError,
    /// A null or closed transfer or multiplexer handle was used.
    InvalidHandle,
    /// A native set-option call returned a nonzero status.
    OptionError { code: i32, message: String },
    /// A native add-handle call returned a nonzero status.
    AddError { code: i32, message: String },
    /// A native drive call (perform, socket action, poll, wait) failed.
    ActionError { code: i32, message: String },
    /// A completion consumer was already registered for this identity.
    DuplicateRegistration,
    /// A transfer did not finish within its configured deadline.
    TransferTimeout,
    /// A transfer was removed before its completion message was drained.
    Cancelled,
    /// The operation was attempted after the multiplexer was closed.
    ClosedResource,
}

impl MultiError {
    /// The native status code attached to this error, if one was.
    pub fn native_code(&self) -> (r: Option<i32>)
        ensures
            match *self {
                MultiError::OptionError { code, .. } => r == Some(code),
                MultiError::AddError { code, .. } => r == Some(code),
                MultiError::ActionError { code, .. } => r == Some(code),
                _ => r is None,
            },
    {
        match self {
            MultiError::OptionError { code, .. } => Some(*code),
            MultiError::AddError { code, .. } => Some(*code),
            MultiError::ActionError { code, .. } => Some(*code),
            _ => None,
        }
    }
}

} // verus!
