//! Client protocol state, reported by the networking layer and consumed by
//! the play states.

use vstd::prelude::*;

verus! {

/// The connection/registration state a client session can be in.
#[derive(Debug, Clone, Copy, PartialEq, Eq, Structural)]
pub enum ClientState {
    Pending,
    Connected,
    Registered,
    Spectator,
    Dead,
    Character,
}

} // verus!
