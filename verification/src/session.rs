//! The session state machine both peers run: a reducer from (state, event)
//! to (state, wire action). An event is either one decoded inbound frame or
//! the receive timer elapsing. The broker side tracks the plug identity and
//! the commands whose acks are outstanding; the plug side drives its relay.

use vstd::prelude::*;

use crate::codec::{parse_frame, BrokerCodec};
use crate::device::RelayMode;
use crate::msg::{seq_next, seq_successor, DisconnectReason, MessagePayload, PlugId, PlugMessage};
use crate::{PlugCommand, PowerState};

verus! {

/// Broker-side connection state. A session is born `Unknown` on the first
/// datagram from a new address and dies in `Dead`, which absorbs everything.
#[derive(Debug, Clone, Copy, PartialEq, Eq, Structural)]
pub enum ConnectionState {
    Working,
    Pinging(u128),
    Unknown,
    Dead,
}

/// Plug-side connection state; the mirror image of the broker's, with
/// `Connecting` as the pre-handshake state and `Disconnected` as the resting
/// state from which the plug retries.
#[derive(Debug, Clone, Copy, PartialEq, Eq, Structural)]
pub enum ConnState {
    Working,
    Connecting,
    Disconnected,
    Pinging(u128),
}

/// What one fed event asks the driver to do on the wire.
#[derive(Debug, Clone, Copy, PartialEq, Eq, Structural)]
pub enum FeedOutcome {
    /// Send this payload under the next sequence number.
    Reply(MessagePayload),
    /// Send nothing.
    Silent,
    /// Send `Disconnect { reason }` (best effort) and end the session.
    Disconnect(DisconnectReason),
}

/// A command posted by the bridge whose ack is still outstanding. The token
/// lets the driver find the completion hand-off for this command again.
#[derive(Debug, Clone, Copy, PartialEq, Eq, Structural)]
pub struct PendingCommand {
    pub token: u64,
    pub command: PlugCommand,
}

/// Everything one broker-side feed decides: the wire action, the registry
/// record to create, the power state to record, and the pending commands the
/// event completed with success.
pub struct FeedResult {
    pub outcome: FeedOutcome,
    pub register: Option<PlugId>,
    pub power: Option<PowerState>,
    pub completed: Vec<u64>,
}

/// The tokens of the pending commands of one kind, in posting order.
pub open spec fn tokens_of(s: Seq<PendingCommand>, k: PlugCommand) -> Seq<u64>
    decreases s.len(),
{
    if s.len() == 0 {
        Seq::empty()
    } else {
        let rest = tokens_of(s.skip(1), k);
        if s[0].command == k {
            seq![s[0].token] + rest
        } else {
            rest
        }
    }
}

/// The pending commands left once every command of one kind is completed.
pub open spec fn remaining(s: Seq<PendingCommand>, k: PlugCommand) -> Seq<PendingCommand>
    decreases s.len(),
{
    if s.len() == 0 {
        Seq::empty()
    } else {
        let rest = remaining(s.skip(1), k);
        if s[0].command == k {
            rest
        } else {
            seq![s[0]] + rest
        }
    }
}

/// The tokens of every pending command, in posting order.
pub open spec fn all_tokens(s: Seq<PendingCommand>) -> Seq<u64>
    decreases s.len(),
{
    if s.len() == 0 {
        Seq::empty()
    } else {
        seq![s[0].token] + all_tokens(s.skip(1))
    }
}

/// Moves every pending command of kind `k` out of `pending`, in posting
/// order, keeping the others in order.
fn complete_matching(pending: &mut Vec<PendingCommand>, k: PlugCommand) -> (done: Vec<u64>)
    ensures
        final(pending)@ == remaining(old(pending)@, k),
        done@ == tokens_of(old(pending)@, k),
{
    let mut keep: Vec<PendingCommand> = Vec::new();
    let mut done: Vec<u64> = Vec::new();
    let n = pending.len();
    let mut i: usize = 0;
    proof {
        assert(pending@.skip(0) =~= pending@);
        assert(done@ + tokens_of(pending@, k) =~= tokens_of(pending@, k));
        assert(keep@ + remaining(pending@, k) =~= remaining(pending@, k));
    }
    while i < n
        invariant
            i <= n,
            n == pending@.len(),
            pending@ == old(pending)@,
            done@ + tokens_of(pending@.skip(i as int), k) == tokens_of(pending@, k),
            keep@ + remaining(pending@.skip(i as int), k) == remaining(pending@, k),
        decreases n - i,
    {
        let p = pending[i];
        proof {
            assert(pending@.skip(i as int)[0] == p);
            assert(pending@.skip(i as int).skip(1) =~= pending@.skip(i + 1));
        }
        if p.command == k {
            let ghost pre = done@;
            done.push(p.token);
            proof {
                assert(done@ =~= pre + seq![p.token]);
                assert(done@ + tokens_of(pending@.skip(i + 1), k) =~= tokens_of(pending@, k));
            }
        } else {
            let ghost pre = keep@;
            keep.push(p);
            proof {
                assert(keep@ =~= pre + seq![p]);
                assert(keep@ + remaining(pending@.skip(i + 1), k) =~= remaining(pending@, k));
            }
        }
        i += 1;
    }
    proof {
        assert(pending@.skip(n as int) =~= Seq::<PendingCommand>::empty());
        assert(done@ =~= tokens_of(pending@, k));
        assert(keep@ =~= remaining(pending@, k));
    }
    *pending = keep;
    done
}

/// Relies on rand::random: a fresh 128-bit value from the thread-local
/// generator, used as a heartbeat nonce. Nothing is promised of its value.
#[verifier::external_body]
fn random_nonce() -> u128 {
    rand::random()
}

/// Relies on rand::random: a fresh 32-bit value used as the random starting
/// point of the local sequence counter. Nothing is promised of its value.
#[verifier::external_body]
fn random_seq_start() -> u32 {
    rand::random()
}

/// The broker's half of one session: local and remote sequence counters, the
/// connection state, the plug identity learned from the handshake, and the
/// commands awaiting acks.
pub struct BrokerSession {
    /// Local sequence counter; the last value sent.
    pub seq: u32,
    /// Remote sequence counter; the last value accepted.
    pub client_seq: u32,
    pub state: ConnectionState,
    /// Set once a `Conn` is accepted; the registry key this driver owns.
    pub plug_id: Option<PlugId>,
    /// Commands whose acks are still outstanding.
    pub pending: Vec<PendingCommand>,
}

/// `post` is `pre` with the connection state replaced.
pub open spec fn steps_to(pre: BrokerSession, post: BrokerSession, st: ConnectionState) -> bool {
    &&& post.seq == pre.seq
    &&& post.client_seq == pre.client_seq
    &&& post.state == st
    &&& post.plug_id == pre.plug_id
    &&& post.pending@ == pre.pending@
}

/// The feed touched neither the registry nor any pending command.
pub open spec fn no_effects(r: FeedResult) -> bool {
    &&& r.register is None
    &&& r.power is None
    &&& r.completed@ == Seq::<u64>::empty()
}

/// The full broker-side transition table, relating the state before a feed,
/// the event fed, the state after, and what the feed asks of the driver.
pub open spec fn broker_feed_spec(
    pre: BrokerSession,
    msg: Option<PlugMessage>,
    post: BrokerSession,
    r: FeedResult,
) -> bool {
    match pre.state {
        ConnectionState::Dead => steps_to(pre, post, pre.state) && r.outcome == FeedOutcome::Silent
            && no_effects(r),
        ConnectionState::Unknown => broker_feed_unknown(pre, msg, post, r),
        _ => broker_feed_established(pre, msg, post, r),
    }
}

/// Pre-handshake: only a `Conn` opens the session; its sequence number is
/// the baseline, with no prior expectation. Anything else closes.
pub open spec fn broker_feed_unknown(
    pre: BrokerSession,
    msg: Option<PlugMessage>,
    post: BrokerSession,
    r: FeedResult,
) -> bool {
    match msg {
        Some(m) => match m.payload {
            MessagePayload::Conn { id } => {
                &&& post.seq == pre.seq
                &&& post.client_seq == m.seq
                &&& post.state == ConnectionState::Working
                &&& post.plug_id == Some(id)
                &&& post.pending@ == pre.pending@
                &&& r.outcome == FeedOutcome::Reply(MessagePayload::ConnAck)
                &&& r.register == Some(id)
                &&& r.power is None
                &&& r.completed@ == Seq::<u64>::empty()
            },
            _ => steps_to(pre, post, pre.state) && r.outcome == FeedOutcome::Disconnect(
                DisconnectReason::Closed,
            ) && no_effects(r),
        },
        None => steps_to(pre, post, pre.state) && r.outcome == FeedOutcome::Disconnect(
            DisconnectReason::Closed,
        ) && no_effects(r),
    }
}

/// In `Working` or `Pinging`: the ordering gate first, then the payload
/// table; a timer tick heartbeats from `Working` and times out `Pinging`.
pub open spec fn broker_feed_established(
    pre: BrokerSession,
    msg: Option<PlugMessage>,
    post: BrokerSession,
    r: FeedResult,
) -> bool {
    match msg {
        None => match pre.state {
            ConnectionState::Working => {
                &&& (r.outcome matches FeedOutcome::Reply(MessagePayload::Ping { data })
                    && post.state == ConnectionState::Pinging(data))
                &&& post.seq == pre.seq
                &&& post.client_seq == pre.client_seq
                &&& post.plug_id == pre.plug_id
                &&& post.pending@ == pre.pending@
                &&& no_effects(r)
            },
            _ => steps_to(pre, post, pre.state) && r.outcome == FeedOutcome::Disconnect(
                DisconnectReason::Timeout,
            ) && no_effects(r),
        },
        Some(m) => if m.seq != seq_next(pre.client_seq) {
            steps_to(pre, post, pre.state) && r.outcome == FeedOutcome::Disconnect(
                DisconnectReason::SequenceError,
            ) && no_effects(r)
        } else {
            broker_feed_payload(pre, m.payload, m.seq, post, r)
        },
    }
}

/// The broker's payload table, after an in-order message advanced the remote
/// counter.
pub open spec fn broker_feed_payload(
    pre: BrokerSession,
    p: MessagePayload,
    mseq: u32,
    post: BrokerSession,
    r: FeedResult,
) -> bool {
    &&& post.seq == pre.seq
    &&& post.client_seq == mseq
    &&& post.plug_id == pre.plug_id
    &&& match p {
        MessagePayload::Conn { .. } => post.state == pre.state && post.pending@ == pre.pending@
            && r.outcome == FeedOutcome::Disconnect(DisconnectReason::Closed) && no_effects(r),
        MessagePayload::Disconnect { .. } => post.state == pre.state && post.pending@
            == pre.pending@ && r.outcome == FeedOutcome::Disconnect(DisconnectReason::Closed)
            && no_effects(r),
        MessagePayload::Ping { data } => post.state == pre.state && post.pending@ == pre.pending@
            && r.outcome == FeedOutcome::Reply(MessagePayload::Pong { data }) && no_effects(r),
        MessagePayload::Pong { data } => match pre.state {
            ConnectionState::Pinging(expect) => if data == expect {
                post.state == ConnectionState::Working && post.pending@ == pre.pending@
                    && r.outcome == FeedOutcome::Silent && no_effects(r)
            } else {
                post.state == pre.state && post.pending@ == pre.pending@ && r.outcome
                    == FeedOutcome::Disconnect(DisconnectReason::BadHeartbeat) && no_effects(r)
            },
            _ => post.state == pre.state && post.pending@ == pre.pending@ && r.outcome
                == FeedOutcome::Disconnect(DisconnectReason::ProtocolError) && no_effects(r),
        },
        MessagePayload::TurnOnAck => {
            &&& post.state == pre.state
            &&& post.pending@ == remaining(pre.pending@, PlugCommand::TurnOn)
            &&& r.outcome == FeedOutcome::Silent
            &&& r.register is None
            &&& r.power == Some(PowerState::On)
            &&& r.completed@ == tokens_of(pre.pending@, PlugCommand::TurnOn)
        },
        MessagePayload::TurnOffAck => {
            &&& post.state == pre.state
            &&& post.pending@ == remaining(pre.pending@, PlugCommand::TurnOff)
            &&& r.outcome == FeedOutcome::Silent
            &&& r.register is None
            &&& r.power == Some(PowerState::Off)
            &&& r.completed@ == tokens_of(pre.pending@, PlugCommand::TurnOff)
        },
        MessagePayload::StatusResp { is_on } => {
            &&& post.state == pre.state
            &&& post.pending@ == pre.pending@
            &&& r.outcome == FeedOutcome::Silent
            &&& r.register is None
            &&& r.power == Some(if is_on { PowerState::On } else { PowerState::Off })
            &&& r.completed@ == Seq::<u64>::empty()
        },
        _ => post.state == pre.state && post.pending@ == pre.pending@ && r.outcome
            == FeedOutcome::Silent && no_effects(r),
    }
}

impl BrokerSession {
    /// A fresh broker-side session for a new peer address: pre-handshake,
    /// with a random starting point for the local sequence counter.
    pub fn new() -> (r: Self)
        ensures
            r.state == ConnectionState::Unknown,
            r.client_seq == 0,
            r.plug_id is None,
            r.pending@ == Seq::<PendingCommand>::empty(),
    {
        BrokerSession {
            seq: random_seq_start(),
            client_seq: 0,
            state: ConnectionState::Unknown,
            plug_id: None,
            pending: Vec::new(),
        }
    }

    /// True until the session reaches its terminal state.
    pub fn can_recv(&self) -> (r: bool)
        ensures
            r == !(self.state is Dead),
    {
        !matches!(self.state, ConnectionState::Dead)
    }

    /// Stamps a payload with the next local sequence number.
    pub fn frame(&mut self, payload: MessagePayload) -> (m: PlugMessage)
        ensures
            final(self).seq == seq_next(old(self).seq),
            final(self).client_seq == old(self).client_seq,
            final(self).state == old(self).state,
            final(self).plug_id == old(self).plug_id,
            final(self).pending@ == old(self).pending@,
            m == (PlugMessage { seq: seq_next(old(self).seq), payload }),
    {
        self.seq = seq_successor(self.seq);
        PlugMessage { seq: self.seq, payload }
    }

    /// Ends the session and frames the goodbye to send, best effort.
    pub fn disconnect(&mut self, reason: DisconnectReason) -> (m: PlugMessage)
        ensures
            final(self).state == ConnectionState::Dead,
            final(self).seq == seq_next(old(self).seq),
            final(self).client_seq == old(self).client_seq,
            final(self).plug_id == old(self).plug_id,
            final(self).pending@ == old(self).pending@,
            m == (PlugMessage {
                seq: seq_next(old(self).seq),
                payload: MessagePayload::Disconnect { reason },
            }),
    {
        self.state = ConnectionState::Dead;
        self.frame(MessagePayload::Disconnect { reason })
    }

    /// Records a command drawn from the inbox as pending and hands back the
    /// wire payload that asks the plug for it. Touches neither the
    /// connection state nor the power state: command injection is not a
    /// protocol event.
    pub fn inject_command(&mut self, token: u64, command: PlugCommand) -> (p: MessagePayload)
        ensures
            final(self).pending@ == old(self).pending@.push(PendingCommand { token, command }),
            final(self).seq == old(self).seq,
            final(self).client_seq == old(self).client_seq,
            final(self).state == old(self).state,
            final(self).plug_id == old(self).plug_id,
            p == (match command {
                PlugCommand::TurnOn => MessagePayload::TurnOn,
                PlugCommand::TurnOff => MessagePayload::TurnOff,
            }),
    {
        self.pending.push(PendingCommand { token, command });
        match command {
            PlugCommand::TurnOn => MessagePayload::TurnOn,
            PlugCommand::TurnOff => MessagePayload::TurnOff,
        }
    }

    /// Empties the pending list on session death; the driver completes every
    /// returned token with failure.
    pub fn take_pending(&mut self) -> (r: Vec<u64>)
        ensures
            final(self).pending@ == Seq::<PendingCommand>::empty(),
            final(self).seq == old(self).seq,
            final(self).client_seq == old(self).client_seq,
            final(self).state == old(self).state,
            final(self).plug_id == old(self).plug_id,
            r@ == all_tokens(old(self).pending@),
    {
        let mut out: Vec<u64> = Vec::new();
        let n = self.pending.len();
        let mut i: usize = 0;
        proof {
            assert(self.pending@.skip(0) =~= self.pending@);
            assert(out@ + all_tokens(self.pending@) =~= all_tokens(self.pending@));
        }
        while i < n
            invariant
                i <= n,
                n == self.pending@.len(),
                self.pending@ == old(self).pending@,
                self.seq == old(self).seq,
                self.client_seq == old(self).client_seq,
                self.state == old(self).state,
                self.plug_id == old(self).plug_id,
                out@ + all_tokens(self.pending@.skip(i as int)) == all_tokens(self.pending@),
            decreases n - i,
        {
            let p = self.pending[i];
            proof {
                assert(self.pending@.skip(i as int)[0] == p);
                assert(self.pending@.skip(i as int).skip(1) =~= self.pending@.skip(i + 1));
            }
            let ghost pre = out@;
            out.push(p.token);
            proof {
                assert(out@ =~= pre + seq![p.token]);
                assert(out@ + all_tokens(self.pending@.skip(i + 1)) =~= all_tokens(self.pending@));
            }
            i += 1;
        }
        proof {
            assert(self.pending@.skip(n as int) =~= Seq::<PendingCommand>::empty());
            assert(out@ =~= all_tokens(self.pending@));
        }
        self.pending = Vec::new();
        out
    }

    /// Turns a feed outcome into the frame to put on the wire, if any: a
    /// reply under the next sequence number, nothing, or the goodbye that
    /// ends the session.
    pub fn respond(&mut self, outcome: FeedOutcome) -> (r: Option<PlugMessage>)
        ensures
            match outcome {
                FeedOutcome::Reply(p) => {
                    &&& final(self).client_seq == old(self).client_seq
                    &&& final(self).plug_id == old(self).plug_id
                    &&& final(self).pending@ == old(self).pending@
                    &&& final(self).state == old(self).state
                    &&& final(self).seq == seq_next(old(self).seq)
                    &&& r == Some(PlugMessage { seq: seq_next(old(self).seq), payload: p })
                },
                FeedOutcome::Silent => steps_to(*old(self), *final(self), old(self).state)
                    && r is None,
                FeedOutcome::Disconnect(reason) => {
                    &&& final(self).state == ConnectionState::Dead
                    &&& final(self).seq == seq_next(old(self).seq)
                    &&& final(self).client_seq == old(self).client_seq
                    &&& final(self).plug_id == old(self).plug_id
                    &&& final(self).pending@ == old(self).pending@
                    &&& r == Some(PlugMessage {
                        seq: seq_next(old(self).seq),
                        payload: MessagePayload::Disconnect { reason },
                    })
                },
            },
    {
        match outcome {
            FeedOutcome::Reply(p) => Some(self.frame(p)),
            FeedOutcome::Silent => None,
            FeedOutcome::Disconnect(reason) => Some(self.disconnect(reason)),
        }
    }

    /// Feeds one event — a decoded inbound frame, or `None` for the receive
    /// timer elapsing — through the broker-side transition table.
    pub fn feed_msg(&mut self, msg: Option<PlugMessage>) -> (r: FeedResult)
        ensures
            broker_feed_spec(*old(self), msg, *final(self), r),
            // The remote counter advances by exactly one for every accepted
            // in-order message after the handshake baseline.
            (match msg {
                Some(m) => (old(self).state is Working || old(self).state is Pinging) && m.seq
                    == seq_next(old(self).client_seq) ==> final(self).client_seq == seq_next(
                    old(self).client_seq,
                ),
                None => true,
            }),
            // A pong that does not echo the outstanding ping's nonce ends
            // the session with `BadHeartbeat`.
            (match msg {
                Some(m) => match (m.payload, old(self).state) {
                    (MessagePayload::Pong { data }, ConnectionState::Pinging(expect)) => (m.seq
                        == seq_next(old(self).client_seq) && data != expect) ==> r.outcome
                        == FeedOutcome::Disconnect(DisconnectReason::BadHeartbeat),
                    _ => true,
                },
                None => true,
            }),
            // The recorded power state moves only on the three report
            // payloads, never on anything else.
            r.power == Some(PowerState::On) ==> (msg matches Some(m) && (m.payload
                == MessagePayload::TurnOnAck || m.payload == (MessagePayload::StatusResp {
                is_on: true,
            }))),
            r.power == Some(PowerState::Off) ==> (msg matches Some(m) && (m.payload
                == MessagePayload::TurnOffAck || m.payload == (MessagePayload::StatusResp {
                is_on: false,
            }))),
            r.power != Some(PowerState::Unknown),
            // A pending command completes with success only on the matching
            // ack frame.
            r.completed@.len() > 0 ==> (msg matches Some(m) && (m.payload
                == MessagePayload::TurnOnAck || m.payload == MessagePayload::TurnOffAck)),
    {
        match self.state {
            ConnectionState::Dead => FeedResult {
                outcome: FeedOutcome::Silent,
                register: None,
                power: None,
                completed: Vec::new(),
            },
            ConnectionState::Unknown => match msg {
                Some(m) => match m.payload {
                    MessagePayload::Conn { id } => {
                        self.client_seq = m.seq;
                        self.state = ConnectionState::Working;
                        self.plug_id = Some(id);
                        FeedResult {
                            outcome: FeedOutcome::Reply(MessagePayload::ConnAck),
                            register: Some(id),
                            power: None,
                            completed: Vec::new(),
                        }
                    },
                    _ => FeedResult {
                        outcome: FeedOutcome::Disconnect(DisconnectReason::Closed),
                        register: None,
                        power: None,
                        completed: Vec::new(),
                    },
                },
                None => FeedResult {
                    outcome: FeedOutcome::Disconnect(DisconnectReason::Closed),
                    register: None,
                    power: None,
                    completed: Vec::new(),
                },
            },
            _ => match msg {
                None => match self.state {
                    ConnectionState::Working => {
                        let data = random_nonce();
                        self.state = ConnectionState::Pinging(data);
                        FeedResult {
                            outcome: FeedOutcome::Reply(MessagePayload::Ping { data }),
                            register: None,
                            power: None,
                            completed: Vec::new(),
                        }
                    },
                    _ => FeedResult {
                        outcome: FeedOutcome::Disconnect(DisconnectReason::Timeout),
                        register: None,
                        power: None,
                        completed: Vec::new(),
                    },
                },
                Some(m) => {
                    let expected = seq_successor(self.client_seq);
                    if m.seq != expected {
                        FeedResult {
                            outcome: FeedOutcome::Disconnect(DisconnectReason::SequenceError),
                            register: None,
                            power: None,
                            completed: Vec::new(),
                        }
                    } else {
                        self.client_seq = m.seq;
                        match m.payload {
                            MessagePayload::Conn { .. } => FeedResult {
                                outcome: FeedOutcome::Disconnect(DisconnectReason::Closed),
                                register: None,
                                power: None,
                                completed: Vec::new(),
                            },
                            MessagePayload::Disconnect { .. } => FeedResult {
                                outcome: FeedOutcome::Disconnect(DisconnectReason::Closed),
                                register: None,
                                power: None,
                                completed: Vec::new(),
                            },
                            MessagePayload::Ping { data } => FeedResult {
                                outcome: FeedOutcome::Reply(MessagePayload::Pong { data }),
                                register: None,
                                power: None,
                                completed: Vec::new(),
                            },
                            MessagePayload::Pong { data } => match self.state {
                                ConnectionState::Pinging(expect) => if data == expect {
                                    self.state = ConnectionState::Working;
                                    FeedResult {
                                        outcome: FeedOutcome::Silent,
                                        register: None,
                                        power: None,
                                        completed: Vec::new(),
                                    }
                                } else {
                                    FeedResult {
                                        outcome: FeedOutcome::Disconnect(
                                            DisconnectReason::BadHeartbeat,
                                        ),
                                        register: None,
                                        power: None,
                                        completed: Vec::new(),
                                    }
                                },
                                _ => FeedResult {
                                    outcome: FeedOutcome::Disconnect(
                                        DisconnectReason::ProtocolError,
                                    ),
                                    register: None,
                                    power: None,
                                    completed: Vec::new(),
                                },
                            },
                            MessagePayload::TurnOnAck => {
                                let completed = complete_matching(
                                    &mut self.pending,
                                    PlugCommand::TurnOn,
                                );
                                FeedResult {
                                    outcome: FeedOutcome::Silent,
                                    register: None,
                                    power: Some(PowerState::On),
                                    completed,
                                }
                            },
                            MessagePayload::TurnOffAck => {
                                let completed = complete_matching(
                                    &mut self.pending,
                                    PlugCommand::TurnOff,
                                );
                                FeedResult {
                                    outcome: FeedOutcome::Silent,
                                    register: None,
                                    power: Some(PowerState::Off),
                                    completed,
                                }
                            },
                            MessagePayload::StatusResp { is_on } => FeedResult {
                                outcome: FeedOutcome::Silent,
                                register: None,
                                power: Some(
                                    if is_on {
                                        PowerState::On
                                    } else {
                                        PowerState::Off
                                    },
                                ),
                                completed: Vec::new(),
                            },
                            _ => FeedResult {
                                outcome: FeedOutcome::Silent,
                                register: None,
                                power: None,
                                completed: Vec::new(),
                            },
                        }
                    }
                },
            },
        }
    }
}

/// The plug's half of one session: sequence counters, connection state, and
/// the stable identity it declares at connection time.
pub struct PlugSession {
    /// The identity declared in `Conn`, reused across reconnects.
    pub id: PlugId,
    /// Local sequence counter; the last value sent.
    pub seq: u32,
    /// Remote sequence counter; the last value accepted.
    pub server_seq: u32,
    pub state: ConnState,
}

/// Everything one plug-side feed decides: the wire action and the relay
/// position the plug must drive before acking, if any.
pub struct PlugFeedResult {
    pub outcome: FeedOutcome,
    /// The relay position a `TurnOn`/`TurnOff` asks the plug to drive.
    pub relay: Option<RelayMode>,
}

/// `post` is `pre` with the connection state replaced.
pub open spec fn plug_steps_to(pre: PlugSession, post: PlugSession, st: ConnState) -> bool {
    &&& post.id == pre.id
    &&& post.seq == pre.seq
    &&& post.server_seq == pre.server_seq
    &&& post.state == st
}

/// The full plug-side transition table. `relay` is the relay position at the
/// time of the feed, read for `QueryStatus`.
pub open spec fn plug_feed_spec(
    pre: PlugSession,
    msg: Option<PlugMessage>,
    relay: RelayMode,
    post: PlugSession,
    r: PlugFeedResult,
) -> bool {
    match msg {
        None => match pre.state {
            ConnState::Working => {
                &&& (r.outcome matches FeedOutcome::Reply(MessagePayload::Ping { data })
                    && post.state == ConnState::Pinging(data))
                &&& post.id == pre.id
                &&& post.seq == pre.seq
                &&& post.server_seq == pre.server_seq
                &&& r.relay is None
            },
            ConnState::Pinging(_) => plug_steps_to(pre, post, pre.state) && r.outcome
                == FeedOutcome::Disconnect(DisconnectReason::Timeout) && r.relay is None,
            ConnState::Connecting => plug_steps_to(pre, post, ConnState::Disconnected) && r.outcome
                == FeedOutcome::Silent && r.relay is None,
            ConnState::Disconnected => plug_steps_to(pre, post, pre.state) && r.outcome
                == FeedOutcome::Disconnect(DisconnectReason::Closed) && r.relay is None,
        },
        Some(m) => if !(pre.state is Connecting) && m.seq != seq_next(pre.server_seq) {
            plug_steps_to(pre, post, pre.state) && r.outcome == FeedOutcome::Disconnect(
                DisconnectReason::SequenceError,
            ) && r.relay is None
        } else {
            plug_feed_payload(pre, m, relay, post, r)
        },
    }
}

/// The plug's payload table, reached once the ordering gate passed (or was
/// skipped: the first `ConnAck` in `Connecting` sets the baseline).
pub open spec fn plug_feed_payload(
    pre: PlugSession,
    m: PlugMessage,
    relay: RelayMode,
    post: PlugSession,
    r: PlugFeedResult,
) -> bool {
    &&& post.id == pre.id
    &&& post.seq == pre.seq
    &&& post.server_seq == (if pre.state is Connecting {
        if m.payload == MessagePayload::ConnAck {
            m.seq
        } else {
            pre.server_seq
        }
    } else {
        m.seq
    })
    &&& match m.payload {
        MessagePayload::ConnAck => if pre.state is Connecting {
            post.state == ConnState::Working && r.outcome == FeedOutcome::Silent && r.relay is None
        } else {
            post.state == pre.state && r.outcome == FeedOutcome::Disconnect(
                DisconnectReason::Closed,
            ) && r.relay is None
        },
        MessagePayload::Disconnect { .. } => post.state == pre.state && r.outcome
            == FeedOutcome::Disconnect(DisconnectReason::Closed) && r.relay is None,
        MessagePayload::Ping { data } => post.state == pre.state && r.outcome
            == FeedOutcome::Reply(MessagePayload::Pong { data }) && r.relay is None,
        MessagePayload::Pong { data } => match pre.state {
            ConnState::Pinging(expect) => if data == expect {
                post.state == ConnState::Working && r.outcome == FeedOutcome::Silent
                    && r.relay is None
            } else {
                post.state == pre.state && r.outcome == FeedOutcome::Disconnect(
                    DisconnectReason::BadHeartbeat,
                ) && r.relay is None
            },
            _ => post.state == pre.state && r.outcome == FeedOutcome::Disconnect(
                DisconnectReason::ProtocolError,
            ) && r.relay is None,
        },
        MessagePayload::TurnOff => post.state == pre.state && r.outcome == FeedOutcome::Reply(
            MessagePayload::TurnOffAck,
        ) && r.relay == Some(RelayMode::Open),
        MessagePayload::TurnOn => post.state == pre.state && r.outcome == FeedOutcome::Reply(
            MessagePayload::TurnOnAck,
        ) && r.relay == Some(RelayMode::Closed),
        MessagePayload::QueryStatus => post.state == pre.state && r.outcome == FeedOutcome::Reply(
            MessagePayload::StatusResp { is_on: relay == RelayMode::Closed },
        ) && r.relay is None,
        _ => if pre.state is Connecting {
            post.state == pre.state && r.outcome == FeedOutcome::Disconnect(
                DisconnectReason::Closed,
            ) && r.relay is None
        } else {
            post.state == pre.state && r.outcome == FeedOutcome::Silent && r.relay is None
        },
    }
}

impl PlugSession {
    /// A fresh plug-side session, resting in `Disconnected`.
    pub fn new(id: PlugId) -> (r: Self)
        ensures
            r.id == id,
            r.seq == 0,
            r.server_seq == 0,
            r.state == ConnState::Disconnected,
    {
        PlugSession { id, seq: 0, server_seq: 0, state: ConnState::Disconnected }
    }

    /// Stamps a payload with the next local sequence number.
    pub fn frame(&mut self, payload: MessagePayload) -> (m: PlugMessage)
        ensures
            final(self).seq == seq_next(old(self).seq),
            final(self).id == old(self).id,
            final(self).server_seq == old(self).server_seq,
            final(self).state == old(self).state,
            m == (PlugMessage { seq: seq_next(old(self).seq), payload }),
    {
        self.seq = seq_successor(self.seq);
        PlugMessage { seq: self.seq, payload }
    }

    /// Opens the handshake: frames `Conn` with the plug's identity and waits
    /// for the `ConnAck` in `Connecting`.
    pub fn connect(&mut self) -> (m: PlugMessage)
        ensures
            final(self).state == ConnState::Connecting,
            final(self).seq == seq_next(old(self).seq),
            final(self).id == old(self).id,
            final(self).server_seq == old(self).server_seq,
            m == (PlugMessage {
                seq: seq_next(old(self).seq),
                payload: MessagePayload::Conn { id: old(self).id },
            }),
    {
        self.state = ConnState::Connecting;
        let id = self.id;
        self.frame(MessagePayload::Conn { id })
    }

    /// The idle decision of the plug's event loop: a session resting in
    /// `Disconnected` opens a fresh handshake; any other state only waits.
    pub fn poll_connect(&mut self) -> (r: Option<PlugMessage>)
        ensures
            final(self).id == old(self).id,
            final(self).server_seq == old(self).server_seq,
            old(self).state is Disconnected ==> {
                &&& final(self).state == ConnState::Connecting
                &&& final(self).seq == seq_next(old(self).seq)
                &&& r == Some(PlugMessage {
                    seq: seq_next(old(self).seq),
                    payload: MessagePayload::Conn { id: old(self).id },
                })
            },
            !(old(self).state is Disconnected) ==> final(self).state == old(self).state
                && final(self).seq == old(self).seq && r is None,
    {
        if matches!(self.state, ConnState::Disconnected) {
            Some(self.connect())
        } else {
            None
        }
    }

    /// Leaves the session and frames the goodbye to send, best effort.
    pub fn disconnect(&mut self, reason: DisconnectReason) -> (m: PlugMessage)
        ensures
            final(self).state == ConnState::Disconnected,
            final(self).seq == seq_next(old(self).seq),
            final(self).id == old(self).id,
            final(self).server_seq == old(self).server_seq,
            m == (PlugMessage {
                seq: seq_next(old(self).seq),
                payload: MessagePayload::Disconnect { reason },
            }),
    {
        self.state = ConnState::Disconnected;
        self.frame(MessagePayload::Disconnect { reason })
    }

    /// Turns a feed outcome into the frame to put on the wire, if any: a
    /// reply under the next sequence number, nothing, or the goodbye that
    /// leaves the session.
    pub fn respond(&mut self, outcome: FeedOutcome) -> (r: Option<PlugMessage>)
        ensures
            match outcome {
                FeedOutcome::Reply(p) => {
                    &&& final(self).id == old(self).id
                    &&& final(self).server_seq == old(self).server_seq
                    &&& final(self).state == old(self).state
                    &&& final(self).seq == seq_next(old(self).seq)
                    &&& r == Some(PlugMessage { seq: seq_next(old(self).seq), payload: p })
                },
                FeedOutcome::Silent => plug_steps_to(*old(self), *final(self), old(self).state)
                    && r is None,
                FeedOutcome::Disconnect(reason) => {
                    &&& final(self).state == ConnState::Disconnected
                    &&& final(self).seq == seq_next(old(self).seq)
                    &&& final(self).id == old(self).id
                    &&& final(self).server_seq == old(self).server_seq
                    &&& r == Some(PlugMessage {
                        seq: seq_next(old(self).seq),
                        payload: MessagePayload::Disconnect { reason },
                    })
                },
            },
    {
        match outcome {
            FeedOutcome::Reply(p) => Some(self.frame(p)),
            FeedOutcome::Silent => None,
            FeedOutcome::Disconnect(reason) => Some(self.disconnect(reason)),
        }
    }

    /// Handles the raw bytes of one received datagram: a well-formed frame
    /// is fed through the transition table; anything else asks for a
    /// `ProtocolError` disconnect.
    pub fn handle_datagram(&mut self, buf: &[u8], relay: RelayMode) -> (r: PlugFeedResult)
        ensures
            match parse_frame(buf@) {
                Some(m) => plug_feed_spec(*old(self), Some(m), relay, *final(self), r),
                None => plug_steps_to(*old(self), *final(self), old(self).state) && r.outcome
                    == FeedOutcome::Disconnect(DisconnectReason::ProtocolError)
                    && r.relay is None,
            },
    {
        let codec = BrokerCodec;
        match codec.decode(buf) {
            Ok(Some(m)) => self.feed_msg(Some(m), relay),
            _ => PlugFeedResult {
                outcome: FeedOutcome::Disconnect(DisconnectReason::ProtocolError),
                relay: None,
            },
        }
    }

    /// Feeds one event — a decoded inbound frame, or `None` for the receive
    /// timer elapsing — through the plug-side transition table. `relay` is
    /// the position the relay holds now.
    pub fn feed_msg(&mut self, msg: Option<PlugMessage>, relay: RelayMode) -> (r: PlugFeedResult)
        ensures
            plug_feed_spec(*old(self), msg, relay, *final(self), r),
            // The remote counter advances by exactly one for every accepted
            // in-order message after the handshake baseline.
            (match msg {
                Some(m) => !(old(self).state is Connecting) && m.seq == seq_next(
                    old(self).server_seq,
                ) ==> final(self).server_seq == seq_next(old(self).server_seq),
                None => true,
            }),
            // A pong that does not echo the outstanding ping's nonce ends
            // the session with `BadHeartbeat`.
            (match msg {
                Some(m) => match (m.payload, old(self).state) {
                    (MessagePayload::Pong { data }, ConnState::Pinging(expect)) => (m.seq
                        == seq_next(old(self).server_seq) && data != expect) ==> r.outcome
                        == FeedOutcome::Disconnect(DisconnectReason::BadHeartbeat),
                    _ => true,
                },
                None => true,
            }),
    {
        match msg {
            None => match self.state {
                ConnState::Working => {
                    let data = random_nonce();
                    self.state = ConnState::Pinging(data);
                    PlugFeedResult {
                        outcome: FeedOutcome::Reply(MessagePayload::Ping { data }),
                        relay: None,
                    }
                },
                ConnState::Pinging(_) => PlugFeedResult {
                    outcome: FeedOutcome::Disconnect(DisconnectReason::Timeout),
                    relay: None,
                },
                ConnState::Connecting => {
                    self.state = ConnState::Disconnected;
                    PlugFeedResult { outcome: FeedOutcome::Silent, relay: None }
                },
                ConnState::Disconnected => PlugFeedResult {
                    outcome: FeedOutcome::Disconnect(DisconnectReason::Closed),
                    relay: None,
                },
            },
            Some(m) => {
                let connecting = matches!(self.state, ConnState::Connecting);
                if !connecting {
                    let expected = seq_successor(self.server_seq);
                    if m.seq != expected {
                        return PlugFeedResult {
                            outcome: FeedOutcome::Disconnect(DisconnectReason::SequenceError),
                            relay: None,
                        };
                    }
                    self.server_seq = m.seq;
                }
                match m.payload {
                    MessagePayload::ConnAck => if connecting {
                        self.server_seq = m.seq;
                        self.state = ConnState::Working;
                        PlugFeedResult { outcome: FeedOutcome::Silent, relay: None }
                    } else {
                        PlugFeedResult {
                            outcome: FeedOutcome::Disconnect(DisconnectReason::Closed),
                            relay: None,
                        }
                    },
                    MessagePayload::Disconnect { .. } => PlugFeedResult {
                        outcome: FeedOutcome::Disconnect(DisconnectReason::Closed),
                        relay: None,
                    },
                    MessagePayload::Ping { data } => PlugFeedResult {
                        outcome: FeedOutcome::Reply(MessagePayload::Pong { data }),
                        relay: None,
                    },
                    MessagePayload::Pong { data } => match self.state {
                        ConnState::Pinging(expect) => if data == expect {
                            self.state = ConnState::Working;
                            PlugFeedResult { outcome: FeedOutcome::Silent, relay: None }
                        } else {
                            PlugFeedResult {
                                outcome: FeedOutcome::Disconnect(DisconnectReason::BadHeartbeat),
                                relay: None,
                            }
                        },
                        _ => PlugFeedResult {
                            outcome: FeedOutcome::Disconnect(DisconnectReason::ProtocolError),
                            relay: None,
                        },
                    },
                    MessagePayload::TurnOff => PlugFeedResult {
                        outcome: FeedOutcome::Reply(MessagePayload::TurnOffAck),
                        relay: Some(RelayMode::Open),
                    },
                    MessagePayload::TurnOn => PlugFeedResult {
                        outcome: FeedOutcome::Reply(MessagePayload::TurnOnAck),
                        relay: Some(RelayMode::Closed),
                    },
                    MessagePayload::QueryStatus => PlugFeedResult {
                        outcome: FeedOutcome::Reply(
                            MessagePayload::StatusResp { is_on: relay == RelayMode::Closed },
                        ),
                        relay: None,
                    },
                    _ => if connecting {
                        PlugFeedResult {
                            outcome: FeedOutcome::Disconnect(DisconnectReason::Closed),
                            relay: None,
                        }
                    } else {
                        PlugFeedResult { outcome: FeedOutcome::Silent, relay: None }
                    },
                }
            },
        }
    }
}

} // verus!
