//! The error taxonomy of the session manager. Every failing transition
//! returns one of these and leaves the store unchanged.

use vstd::prelude::*;

verus! {

/// Why a transition or a lookup was refused.
#[derive(Clone, Copy, Debug, PartialEq, Eq, Structural)]
pub enum ContractError {
    /// The caller lacks the privilege the action requires.
    Unauthorized {},
    /// The caller is barred from acting as a host.
    HostAddressBlacklisted {},
    /// The caller already has an open session against this opponent.
    OnlyOneGameAtATime {},
    /// No session exists under the given (host, opponent) key.
    NoGameFound {},
    /// The host environment rejected an account identifier.
    InvalidAddress {},
}

} // verus!
