//! Error conditions of the lifecycle engine and their numeric codes.

use vstd::prelude::*;

verus! {

/// The error taxonomy of the engine.
///
/// `InvalidOption` covers malformed or missing required input, caught before
/// any work is scheduled; the invalid-handle variants cover handles that do
/// not resolve; `NotReady` is a precondition failure, an operation attempted
/// from a state that does not permit it; `PostMsgFailure` is a transport
/// failure reported by the protocol client; `UnknownError` covers signing
/// and unexpected internal failures.
#[derive(Clone, Copy, Debug, PartialEq, Eq, Structural)]
pub enum ErrorCode {
    Success,
    UnknownError,
    InvalidConnectionHandle,
    NotReady,
    InvalidOption,
    PostMsgFailure,
    InvalidIssuerClaimHandle,
}

/// The numeric code a condition is reported as across the command surface.
pub open spec fn spec_code_num(e: ErrorCode) -> u32 {
    match e {
        ErrorCode::Success => 0,
        ErrorCode::UnknownError => 1001,
        ErrorCode::InvalidConnectionHandle => 1003,
        ErrorCode::NotReady => 1005,
        ErrorCode::InvalidOption => 1007,
        ErrorCode::PostMsgFailure => 1010,
        ErrorCode::InvalidIssuerClaimHandle => 1015,
    }
}

impl ErrorCode {
    /// The numeric code of this condition.
    pub fn code_num(&self) -> (n: u32)
        ensures
            n == spec_code_num(*self),
    {
        match self {
            ErrorCode::Success => 0,
            ErrorCode::UnknownError => 1001,
            ErrorCode::InvalidConnectionHandle => 1003,
            ErrorCode::NotReady => 1005,
            ErrorCode::InvalidOption => 1007,
            ErrorCode::PostMsgFailure => 1010,
            ErrorCode::InvalidIssuerClaimHandle => 1015,
        }
    }
}

} // verus!
