//! The error kinds surfaced by every gate and state transition.

use vstd::prelude::*;

verus! {

/// Every way a call into the ledger can fail. Each failure is reported
/// synchronously and leaves the state untouched: no partial update of
/// the enumeration structures ever persists.
#[derive(Clone, Copy, Debug, PartialEq, Eq, Structural)]
pub enum Error {
    /// A role, admin, or attestation check failed.
    Unauthorized,
    /// The admin was already set; the constructor invariant would be violated.
    AlreadyInitialized,
    /// A mint collided with an existing token id.
    AlreadyExists,
    /// The claimed owner does not own the token.
    NotOwner,
    /// The recipient is the null address.
    ZeroAddress,
    /// A mutating call arrived while the ledger was paused.
    Paused,
    /// `pause` while paused, or `unpause` while active.
    InvalidPauseTransition,
    /// An enumeration accessor was called with an index past the end.
    IndexOutOfBounds,
    /// `owner_of` on a token id that does not exist.
    TokenNotFound,
}

} // verus!
