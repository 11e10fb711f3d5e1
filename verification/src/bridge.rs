//! The control-plane bridge: what each HTTP operation computes from the
//! registry and from the fate of a posted command. The HTTP server, JSON
//! and the 10-second deadline live outside; they feed plain values in and
//! carry plain values out.

use vstd::prelude::*;

use crate::msg::PlugId;
use crate::registry::{PlugRecord, Registry, RegistryEntry};
use crate::{PlugCommand, PowerState};

verus! {

/// The desired relay state named in a set-state request.
#[derive(Debug, Clone, Copy, PartialEq, Eq, Structural)]
pub enum PowerStateOption {
    On,
    Off,
}

impl PowerStateOption {
    /// The command this request posts to the plug's session driver.
    pub fn command(&self) -> (c: PlugCommand)
        ensures
            c == (match self {
                PowerStateOption::On => PlugCommand::TurnOn,
                PowerStateOption::Off => PlugCommand::TurnOff,
            }),
    {
        match self {
            PowerStateOption::On => PlugCommand::TurnOn,
            PowerStateOption::Off => PlugCommand::TurnOff,
        }
    }
}

/// The set-state reply: whether the plug was registered, and whether its
/// ack arrived inside the deadline.
#[derive(Debug, Clone, Copy, PartialEq, Eq, Structural)]
pub struct SetStateResponse {
    pub present: bool,
    pub success: bool,
}

/// The query reply: what the registry shows for the plug, both fields
/// absent when it is not registered.
#[derive(Debug, Clone, Copy, PartialEq, Eq, Structural)]
pub struct QueryStatusResponse {
    pub state: Option<PowerState>,
    /// Milliseconds since the epoch of the plug's last inbound event.
    pub lastseen: Option<i64>,
}

/// One row of the list reply.
#[derive(Debug, Clone, Copy, PartialEq, Eq, Structural)]
pub struct PlugListInfo {
    pub id: PlugId,
    pub state: PowerState,
    pub last_seen: i64,
}

/// The list reply: every registered plug, no blocking on any session.
pub struct ListResponse {
    pub plugs: Vec<PlugListInfo>,
}

/// A snapshot of every record for the list endpoint, row for row.
pub fn list_plugs(reg: &Registry) -> (r: ListResponse)
    ensures
        r.plugs@.len() == reg.entries@.len(),
        forall|i: int|
            0 <= i < r.plugs@.len() ==> #[trigger] r.plugs@[i] == (PlugListInfo {
                id: reg.entries@[i].id,
                state: reg.entries@[i].record.power_state,
                last_seen: reg.entries@[i].record.last_seen,
            }),
{
    let rows: Vec<RegistryEntry> = reg.snapshot();
    let mut plugs: Vec<PlugListInfo> = Vec::new();
    let n = rows.len();
    let mut i: usize = 0;
    while i < n
        invariant
            i <= n,
            n == rows@.len(),
            rows@ == reg.entries@,
            plugs@.len() == i,
            forall|k: int|
                0 <= k < i ==> #[trigger] plugs@[k] == (PlugListInfo {
                    id: reg.entries@[k].id,
                    state: reg.entries@[k].record.power_state,
                    last_seen: reg.entries@[k].record.last_seen,
                }),
        decreases n - i,
    {
        let e = rows[i];
        plugs.push(PlugListInfo {
            id: e.id,
            state: e.record.power_state,
            last_seen: e.record.last_seen,
        });
        i += 1;
    }
    ListResponse { plugs }
}

/// Whether the query endpoint probes the plug first: only a registered plug
/// whose power state is still unknown is asked before answering.
pub fn should_probe(record: Option<&PlugRecord>) -> (r: bool)
    ensures
        r == (record matches Some(rec) && rec.power_state == PowerState::Unknown),
{
    match record {
        Some(rec) => matches!(rec.power_state, PowerState::Unknown),
        None => false,
    }
}

/// Builds the query reply from what the registry shows once the probe, if
/// any, has had its window: both fields absent exactly when the plug is not
/// registered.
pub fn query_status_response(record: Option<PlugRecord>) -> (r: QueryStatusResponse)
    ensures
        match record {
            Some(rec) => r.state == Some(rec.power_state) && r.lastseen == Some(rec.last_seen),
            None => r.state is None && r.lastseen is None,
        },
{
    match record {
        Some(rec) => QueryStatusResponse {
            state: Some(rec.power_state),
            lastseen: Some(rec.last_seen),
        },
        None => QueryStatusResponse { state: None, lastseen: None },
    }
}

/// Builds the set-state reply. `completion` is what came back over the
/// command's completion hand-off inside the deadline: `Some(true)` when the
/// driver saw the matching ack, `Some(false)` when the session died first,
/// `None` when the window closed or the command could not be posted.
/// Success is owed exactly when the plug was present and its ack arrived.
pub fn set_state_response(present: bool, completion: Option<bool>) -> (r: SetStateResponse)
    ensures
        r.present == present,
        r.success == (present && completion == Some(true)),
{
    let success = present && matches!(completion, Some(true));
    SetStateResponse { present, success }
}

} // verus!
