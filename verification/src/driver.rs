//! Per-session driver decisions on the broker: what one consumed event does
//! to the session and to the registry, and what cleaning up on exit does.
//! The event loop around these — channels, timers, the socket — lives
//! outside; every decision it takes goes through here.

use vstd::prelude::*;

use crate::msg::{DisconnectReason, MessagePayload, PlugId, PlugMessage};
use crate::registry::{PlugRecord, Registry};
use crate::session::{
    all_tokens, broker_feed_spec, BrokerSession, ConnectionState, FeedOutcome, FeedResult,
    PendingCommand,
};
use crate::PowerState;

verus! {

/// Relies on chrono::Utc::now: the wall clock as milliseconds since the
/// Unix epoch. Nothing is promised of its value.
#[verifier::external_body]
fn now_millis() -> i64 {
    chrono::Utc::now().timestamp_millis()
}

/// What one driver step decides: the wire action, and the pending commands
/// the event completed with success.
pub struct StepResult {
    pub outcome: FeedOutcome,
    pub completed: Vec<u64>,
}

/// The registry after the driver stamped `last_seen`: touched only when an
/// inbound frame arrived for a session whose record this driver owns.
pub open spec fn touch_map(
    m: Map<PlugId, PlugRecord>,
    pid: Option<PlugId>,
    driver: u64,
    have_msg: bool,
    t: i64,
) -> Map<PlugId, PlugRecord> {
    match pid {
        Some(id) => if have_msg && m.contains_key(id) && m[id].driver == driver {
            m.insert(id, PlugRecord { last_seen: t, ..m[id] })
        } else {
            m
        },
        None => m,
    }
}

/// How one driver step relates everything it touches, for the feed result
/// `fr` the session machine produced and the timestamp `t` the clock gave:
/// the session moves per the transition table; `last_seen` is stamped on an
/// inbound frame; a handshake claims the record, and a refused claim (the
/// identity is already live) turns the newcomer away with `Closed`; a power
/// report updates the owned record.
pub open spec fn broker_step_spec(
    pre_s: BrokerSession,
    pre_m: Map<PlugId, PlugRecord>,
    driver: u64,
    msg: Option<PlugMessage>,
    post_s: BrokerSession,
    post_m: Map<PlugId, PlugRecord>,
    r: StepResult,
    fr: FeedResult,
    t: i64,
) -> bool {
    let touched = touch_map(pre_m, pre_s.plug_id, driver, msg is Some, t);
    &&& broker_feed_spec(pre_s, msg, post_s, fr)
    &&& r.completed@ == fr.completed@
    &&& match fr.register {
        Some(id) => if !touched.contains_key(id) {
            post_m == touched.insert(
                id,
                PlugRecord { power_state: PowerState::Unknown, last_seen: t, driver },
            ) && r.outcome == fr.outcome
        } else {
            post_m == touched && r.outcome == FeedOutcome::Disconnect(DisconnectReason::Closed)
        },
        None => {
            &&& r.outcome == fr.outcome
            &&& match (fr.power, pre_s.plug_id) {
                (Some(p), Some(id)) => post_m == (if touched.contains_key(id)
                    && touched[id].driver == driver {
                    touched.insert(id, PlugRecord { power_state: p, ..touched[id] })
                } else {
                    touched
                }),
                _ => post_m == touched,
            }
        },
    }
}

/// Consumes one event for a session: stamps `last_seen`, runs the state
/// machine, and applies its registry effects under this driver's token.
pub fn broker_step(
    session: &mut BrokerSession,
    reg: &mut Registry,
    driver: u64,
    msg: Option<PlugMessage>,
) -> (r: StepResult)
    requires
        old(reg).wf(),
    ensures
        final(reg).wf(),
        exists|fr: FeedResult, t: i64|
            broker_step_spec(
                *old(session),
                old(reg)@,
                driver,
                msg,
                *final(session),
                final(reg)@,
                r,
                fr,
                t,
            ),
        // The recorded power state of a plug that stays registered moves
        // only on the three report payloads, never on command injection or
        // anything else.
        forall|id: PlugId|
            old(reg)@.contains_key(id) && final(reg)@.contains_key(id) && (
            #[trigger] final(reg)@[id]).power_state != old(reg)@[id].power_state ==> (
            msg matches Some(m) && (m.payload == MessagePayload::TurnOnAck || m.payload
                == MessagePayload::TurnOffAck || m.payload matches MessagePayload::StatusResp {
                ..
            })),
        // A pending command completes with success only on the matching ack
        // frame.
        r.completed@.len() > 0 ==> (msg matches Some(m) && (m.payload
            == MessagePayload::TurnOnAck || m.payload == MessagePayload::TurnOffAck)),
{
    let t = now_millis();
    if msg.is_some() {
        if let Some(id) = session.plug_id {
            let _ = reg.touch(id, driver, t);
        }
    }
    let fr = session.feed_msg(msg);
    let ghost gfr = fr;
    let outcome = match fr.register {
        Some(id) => {
            if reg.claim(id, driver, t) {
                fr.outcome
            } else {
                FeedOutcome::Disconnect(DisconnectReason::Closed)
            }
        },
        None => {
            if let Some(p) = fr.power {
                if let Some(id) = session.plug_id {
                    let _ = reg.set_power(id, driver, p);
                }
            }
            fr.outcome
        },
    };
    let r = StepResult { outcome, completed: fr.completed };
    proof {
        assert(broker_step_spec(
            *old(session),
            old(reg)@,
            driver,
            msg,
            *session,
            reg@,
            r,
            gfr,
            t,
        ));
    }
    r
}

/// Cleans up a driver on any exit path: the session ends in its terminal
/// state, the registry claim is released (only this driver's own claim can
/// go), and every still-pending command comes back to be completed with
/// failure.
pub fn terminate(session: &mut BrokerSession, reg: &mut Registry, driver: u64) -> (failed: Vec<
    u64,
>)
    requires
        old(reg).wf(),
    ensures
        final(reg).wf(),
        final(session).state == ConnectionState::Dead,
        final(session).pending@ == Seq::<PendingCommand>::empty(),
        final(session).plug_id == old(session).plug_id,
        failed@ == all_tokens(old(session).pending@),
        match old(session).plug_id {
            Some(id) => final(reg)@ == (if old(reg)@.contains_key(id) && old(reg)@[id].driver
                == driver {
                old(reg)@.remove(id)
            } else {
                old(reg)@
            }),
            None => final(reg)@ == old(reg)@,
        },
{
    let failed = session.take_pending();
    session.state = ConnectionState::Dead;
    if let Some(id) = session.plug_id {
        let _ = reg.release(id, driver);
    }
    failed
}

} // verus!
