//! The failures that a request can end in.

use vstd::prelude::*;

verus! {

/// Why a request was not served. Every failure belongs to the request that
/// caused it and leaves the sessions as they were before the request.
#[derive(Clone, Copy, Debug, PartialEq, Eq, Structural)]
pub enum ProtocolError {
    /// No session is registered under the given identifier.
    SessionNotFound,
    /// A session is already registered under the given identifier.
    DuplicateSessionId,
    /// The cycles of a request are not strictly ascending.
    InvalidCycleOrder,
    /// An address, a length or a subtree size does not fit the memory layout.
    MemoryAlignmentError,
    /// A Merkle proof does not lead from its target to its root.
    ProofVerificationFailed,
    /// A decoded message lacks a required field, or a field has the wrong size.
    MalformedRequest,
}

impl ProtocolError {
    /// A short description of the failure.
    pub fn message(&self) -> (text: String)
        ensures
            text@ == self.spec_message()@,
    {
        match self {
            ProtocolError::SessionNotFound => "session not found".to_string(),
            ProtocolError::DuplicateSessionId => "duplicate session id".to_string(),
            ProtocolError::InvalidCycleOrder => "invalid cycle order".to_string(),
            ProtocolError::MemoryAlignmentError => "memory alignment error".to_string(),
            ProtocolError::ProofVerificationFailed => "proof verification failed".to_string(),
            ProtocolError::MalformedRequest => "malformed request".to_string(),
        }
    }

    /// The text that `message` returns.
    pub open spec fn spec_message(&self) -> &'static str {
        match self {
            ProtocolError::SessionNotFound => "session not found",
            ProtocolError::DuplicateSessionId => "duplicate session id",
            ProtocolError::InvalidCycleOrder => "invalid cycle order",
            ProtocolError::MemoryAlignmentError => "memory alignment error",
            ProtocolError::ProofVerificationFailed => "proof verification failed",
            ProtocolError::MalformedRequest => "malformed request",
        }
    }
}

} // verus!
