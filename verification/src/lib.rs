//! Core of a smart-plug control network: the wire codec shared by both peers,
//! the session state machines of the broker and of the plug, the broker's plug
//! registry, the per-session driver decisions, the UDP routing decision and the
//! HTTP control-plane bridge.

pub mod bridge;
pub mod codec;
pub mod demux;
pub mod device;
pub mod driver;
pub mod msg;
pub mod registry;
pub mod session;

use vstd::prelude::*;

verus! {

/// What the broker believes about a plug's relay. `Unknown` until an ack or
/// a status report arrives.
#[derive(Debug, Clone, Copy, PartialEq, Eq, Hash, Structural)]
pub enum PowerState {
    On,
    Off,
    Unknown,
}

impl Default for PowerState {
    fn default() -> (r: Self)
        ensures
            r == PowerState::Unknown,
    {
        PowerState::Unknown
    }
}

/// A relay command the HTTP bridge posts into a session driver's inbox.
#[derive(Debug, Clone, Copy, PartialEq, Eq, Structural)]
pub enum PlugCommand {
    TurnOn,
    TurnOff,
}

/// Command-line configuration of the broker: the UDP port the plugs speak to
/// and the port of the HTTP control plane.
pub struct Args {
    pub broker_port: u16,
    pub http_port: u16,
}

impl Default for Args {
    /// The stock ports: 8080 for the plug-facing UDP socket, 8081 for HTTP.
    fn default() -> (r: Self)
        ensures
            r.broker_port == 8080,
            r.http_port == 8081,
    {
        Args { broker_port: 8080, http_port: 8081 }
    }
}

} // verus!
