//! The error taxonomy of the core: a rejected request is always one of
//! these, and live-push delivery failures are deliberately not among
//! them (persistence is the durability boundary; a missed push only
//! delays the recipient).

use vstd::prelude::*;

verus! {

/// Why a request against the core was rejected.
#[derive(Clone, Copy, PartialEq, Eq, Structural, Debug)]
pub enum AppError {
    /// Malformed, oversized or empty content: the client's fault.
    ValidationError,
    /// The caller is not a participant of the chat, or carries no
    /// valid credential.
    AuthorizationError,
    /// A referenced user or chat does not exist.
    NotFoundError,
    /// The durable store cannot take the write (here: an identifier
    /// counter has no room left).
    StorageError,
}

} // verus!
