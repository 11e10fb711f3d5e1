//! The UDP demultiplexer's routing decision: where one decoded datagram
//! goes. The socket loop, the per-peer channels and the task spawning live
//! outside; they follow what this decision says.

use vstd::prelude::*;

use crate::msg::{MessagePayload, PlugMessage};

verus! {

/// Where a decoded datagram goes.
#[derive(Debug, Clone, Copy, PartialEq, Eq, Structural)]
pub enum RouteDecision {
    /// Hand it to the session driver already serving this peer address.
    Existing,
    /// Spawn a new session driver for this address and hand it the message.
    Spawn,
    /// Drop it: an unknown peer may only open with `Conn`.
    Drop,
}

/// Routes one decoded datagram by its source address: a known peer's frames
/// go to its driver; an unknown peer's `Conn` births a driver; anything else
/// from an unknown peer is dropped.
pub fn route(known_peer: bool, msg: &PlugMessage) -> (r: RouteDecision)
    ensures
        known_peer ==> r == RouteDecision::Existing,
        !known_peer ==> r == (if msg.payload matches MessagePayload::Conn { .. } {
            RouteDecision::Spawn
        } else {
            RouteDecision::Drop
        }),
{
    if known_peer {
        RouteDecision::Existing
    } else if matches!(msg.payload, MessagePayload::Conn { .. }) {
        RouteDecision::Spawn
    } else {
        RouteDecision::Drop
    }
}

} // verus!
