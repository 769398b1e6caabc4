//! The library's error values.
use vstd::prelude::*;

verus! {

/// The category of a failure.
#[derive(Clone, Copy, Debug, PartialEq, Eq, Structural)]
pub enum OmErrorCode {
    Parse,
    InvalidState,
    Unsupported,
    TypeMismatch,
}

/// A failure with its category and a human-readable message.
#[derive(Clone, Debug)]
pub struct OmError {
    pub code: OmErrorCode,
    pub message: String,
}

/// A failure of the given category with a fixed message.
pub fn om_error(code: OmErrorCode, message: &str) -> (e: OmError)
    ensures
        e.code == code,
        e.message@ == message@,
{
    OmError { code, message: String::from_str(message) }
}

} // verus!
