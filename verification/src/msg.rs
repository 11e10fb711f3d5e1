//! The message frame both peers exchange: a sequence number and a tagged
//! payload. One frame travels per UDP datagram.

use vstd::prelude::*;

verus! {

/// Stable 128-bit identity a plug declares at connection time and reuses
/// across reconnects; the broker's registry key.
#[derive(Debug, Clone, Copy, PartialEq, Eq, Hash, Structural)]
pub struct PlugId(pub u128);

/// The cause a peer gives when it deliberately ends a session.
#[derive(Debug, Clone, Copy, PartialEq, Eq, Hash, Structural)]
pub enum DisconnectReason {
    BadHeartbeat,
    Timeout,
    ProtocolError,
    SequenceError,
    Closed,
}

impl Default for DisconnectReason {
    fn default() -> (r: Self)
        ensures
            r == DisconnectReason::Closed,
    {
        DisconnectReason::Closed
    }
}

/// The tagged union carried by every frame. `Ping`/`Pong` carry a 16-byte
/// nonce, held here as its 128-bit little-endian value.
#[derive(Debug, Clone, Copy, PartialEq, Eq, Hash, Structural)]
pub enum MessagePayload {
    /// Request from plug to initiate connection
    Conn { id: PlugId },
    ConnAck,
    Disconnect { reason: DisconnectReason },
    Ping { data: u128 },
    Pong { data: u128 },
    /// Request from broker to turn plug on
    TurnOn,
    TurnOnAck,
    TurnOnNotify,
    /// Request from broker to turn plug off
    TurnOff,
    TurnOffAck,
    TurnOffNotify,
    /// Request from broker to query plug status
    QueryStatus,
    StatusResp { is_on: bool },
}

/// One wire frame: a per-direction wrap-around sequence number and a payload.
#[derive(Debug, Clone, Copy, PartialEq, Eq, Hash, Structural)]
pub struct PlugMessage {
    /// sequential ID for dropped packet detection
    pub seq: u32,
    pub payload: MessagePayload,
}

impl PlugMessage {
    pub fn new(seq: u32, payload: MessagePayload) -> (r: Self)
        ensures
            r == (PlugMessage { seq, payload }),
    {
        PlugMessage { seq, payload }
    }
}

/// The next value of a wrap-around 32-bit sequence counter.
pub open spec fn seq_next(s: u32) -> u32 {
    if s == u32::MAX {
        0
    } else {
        (s + 1) as u32
    }
}

/// Executable twin of [`seq_next`]: sequence numbers advance modulo 2^32.
pub fn seq_successor(s: u32) -> (r: u32)
    ensures
        r == seq_next(s),
{
    if s == u32::MAX {
        0
    } else {
        s + 1
    }
}

} // verus!
