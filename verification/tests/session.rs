use tomada::codec::BrokerCodec;
use tomada::device::RelayMode;
use tomada::msg::{DisconnectReason, MessagePayload, PlugId, PlugMessage};
use tomada::session::{
    BrokerSession, ConnState, ConnectionState, FeedOutcome, PendingCommand, PlugSession,
};
use tomada::{PlugCommand, PowerState};

fn working_session(seq: u32, client_seq: u32) -> BrokerSession {
    BrokerSession {
        seq,
        client_seq,
        state: ConnectionState::Working,
        plug_id: Some(PlugId(1)),
        pending: vec![],
    }
}

#[test]
fn happy_handshake() {
    let mut s = BrokerSession::new();
    assert_eq!(s.state, ConnectionState::Unknown);
    let r = s.feed_msg(Some(PlugMessage::new(100, MessagePayload::Conn { id: PlugId(7) })));
    assert_eq!(r.outcome, FeedOutcome::Reply(MessagePayload::ConnAck));
    assert_eq!(r.register, Some(PlugId(7)));
    assert_eq!(r.power, None);
    assert_eq!(s.state, ConnectionState::Working);
    assert_eq!(s.client_seq, 100);
    assert_eq!(s.plug_id, Some(PlugId(7)));
}

#[test]
fn heartbeat_success() {
    let mut s = working_session(50, 100);
    // the receive timer fires: a ping goes out and its nonce is remembered
    let r = s.feed_msg(None);
    let nonce = match r.outcome {
        FeedOutcome::Reply(MessagePayload::Ping { data }) => data,
        other => panic!("expected a ping, got {:?}", other),
    };
    assert_eq!(s.state, ConnectionState::Pinging(nonce));
    let frame = s.respond(r.outcome).unwrap();
    assert_eq!(frame.seq, 51);
    // the matching pong comes back in order
    let r2 = s.feed_msg(Some(PlugMessage::new(101, MessagePayload::Pong { data: nonce })));
    assert_eq!(r2.outcome, FeedOutcome::Silent);
    assert_eq!(s.state, ConnectionState::Working);
}

#[test]
fn heartbeat_failure() {
    let mut s = working_session(50, 100);
    s.state = ConnectionState::Pinging(5);
    let r = s.feed_msg(Some(PlugMessage::new(101, MessagePayload::Pong { data: 6 })));
    assert_eq!(r.outcome, FeedOutcome::Disconnect(DisconnectReason::BadHeartbeat));
    // the driver sends the goodbye and the session is dead
    let frame = s.respond(r.outcome).unwrap();
    assert_eq!(
        frame.payload,
        MessagePayload::Disconnect { reason: DisconnectReason::BadHeartbeat }
    );
    assert_eq!(s.state, ConnectionState::Dead);
}

#[test]
fn sequence_gap_disconnects() {
    let mut s = working_session(50, 100);
    let r = s.feed_msg(Some(PlugMessage::new(102, MessagePayload::Ping { data: 1 })));
    assert_eq!(r.outcome, FeedOutcome::Disconnect(DisconnectReason::SequenceError));
    assert_eq!(s.client_seq, 100);
}

#[test]
fn expected_seq_advances_by_one_per_accepted_message() {
    let mut s = working_session(50, 100);
    let r = s.feed_msg(Some(PlugMessage::new(101, MessagePayload::Ping { data: 1 })));
    assert_eq!(r.outcome, FeedOutcome::Reply(MessagePayload::Pong { data: 1 }));
    assert_eq!(s.client_seq, 101);
    let r2 = s.feed_msg(Some(PlugMessage::new(102, MessagePayload::QueryStatus)));
    assert_eq!(r2.outcome, FeedOutcome::Silent);
    assert_eq!(s.client_seq, 102);
}

#[test]
fn expected_seq_wraps_around() {
    let mut s = working_session(50, u32::MAX);
    let r = s.feed_msg(Some(PlugMessage::new(0, MessagePayload::Ping { data: 1 })));
    assert_eq!(r.outcome, FeedOutcome::Reply(MessagePayload::Pong { data: 1 }));
    assert_eq!(s.client_seq, 0);
}

#[test]
fn pong_outside_pinging_is_protocol_error() {
    let mut s = working_session(50, 100);
    let r = s.feed_msg(Some(PlugMessage::new(101, MessagePayload::Pong { data: 1 })));
    assert_eq!(r.outcome, FeedOutcome::Disconnect(DisconnectReason::ProtocolError));
}

#[test]
fn timer_while_pinging_times_out() {
    let mut s = working_session(50, 100);
    s.state = ConnectionState::Pinging(5);
    let r = s.feed_msg(None);
    assert_eq!(r.outcome, FeedOutcome::Disconnect(DisconnectReason::Timeout));
}

#[test]
fn non_conn_before_handshake_closes() {
    let mut s = BrokerSession::new();
    let r = s.feed_msg(Some(PlugMessage::new(3, MessagePayload::Ping { data: 1 })));
    assert_eq!(r.outcome, FeedOutcome::Disconnect(DisconnectReason::Closed));
}

#[test]
fn conn_after_handshake_closes() {
    let mut s = working_session(50, 100);
    let r = s.feed_msg(Some(PlugMessage::new(101, MessagePayload::Conn { id: PlugId(9) })));
    assert_eq!(r.outcome, FeedOutcome::Disconnect(DisconnectReason::Closed));
}

#[test]
fn dead_absorbs_everything() {
    let mut s = working_session(50, 100);
    s.state = ConnectionState::Dead;
    let r = s.feed_msg(Some(PlugMessage::new(5, MessagePayload::Ping { data: 1 })));
    assert_eq!(r.outcome, FeedOutcome::Silent);
    let r2 = s.feed_msg(None);
    assert_eq!(r2.outcome, FeedOutcome::Silent);
    assert_eq!(s.state, ConnectionState::Dead);
}

#[test]
fn turn_on_ack_completes_matching_commands_only() {
    let mut s = working_session(50, 100);
    let p1 = s.inject_command(1, PlugCommand::TurnOn);
    assert_eq!(p1, MessagePayload::TurnOn);
    let p2 = s.inject_command(2, PlugCommand::TurnOff);
    assert_eq!(p2, MessagePayload::TurnOff);
    let p3 = s.inject_command(3, PlugCommand::TurnOn);
    assert_eq!(p3, MessagePayload::TurnOn);
    // injecting commands is not a protocol event
    assert_eq!(s.state, ConnectionState::Working);
    let r = s.feed_msg(Some(PlugMessage::new(101, MessagePayload::TurnOnAck)));
    assert_eq!(r.outcome, FeedOutcome::Silent);
    assert_eq!(r.power, Some(PowerState::On));
    assert_eq!(r.completed, vec![1, 3]);
    assert_eq!(s.pending, vec![PendingCommand { token: 2, command: PlugCommand::TurnOff }]);
}

#[test]
fn turn_off_ack_reports_power_off() {
    let mut s = working_session(50, 100);
    s.inject_command(4, PlugCommand::TurnOff);
    let r = s.feed_msg(Some(PlugMessage::new(101, MessagePayload::TurnOffAck)));
    assert_eq!(r.power, Some(PowerState::Off));
    assert_eq!(r.completed, vec![4]);
    assert!(s.pending.is_empty());
}

#[test]
fn status_resp_reports_power_without_completing() {
    let mut s = working_session(50, 100);
    s.inject_command(9, PlugCommand::TurnOn);
    let r = s.feed_msg(Some(PlugMessage::new(101, MessagePayload::StatusResp { is_on: false })));
    assert_eq!(r.power, Some(PowerState::Off));
    assert!(r.completed.is_empty());
    assert_eq!(s.pending.len(), 1);
}

#[test]
fn take_pending_returns_every_token() {
    let mut s = working_session(50, 100);
    s.inject_command(1, PlugCommand::TurnOn);
    s.inject_command(2, PlugCommand::TurnOff);
    let failed = s.take_pending();
    assert_eq!(failed, vec![1, 2]);
    assert!(s.pending.is_empty());
}

#[test]
fn plug_connects_and_acknowledges() {
    let mut p = PlugSession::new(PlugId(7));
    assert_eq!(p.state, ConnState::Disconnected);
    let conn = p.connect();
    assert_eq!(conn.seq, 1);
    assert_eq!(conn.payload, MessagePayload::Conn { id: PlugId(7) });
    assert_eq!(p.state, ConnState::Connecting);
    let r = p.feed_msg(Some(PlugMessage::new(900, MessagePayload::ConnAck)), RelayMode::Open);
    assert_eq!(r.outcome, FeedOutcome::Silent);
    assert_eq!(p.state, ConnState::Working);
    assert_eq!(p.server_seq, 900);
}

#[test]
fn plug_drives_relay_on_commands() {
    let mut p = PlugSession::new(PlugId(7));
    p.state = ConnState::Working;
    p.server_seq = 10;
    let r = p.feed_msg(Some(PlugMessage::new(11, MessagePayload::TurnOn)), RelayMode::Open);
    assert_eq!(r.outcome, FeedOutcome::Reply(MessagePayload::TurnOnAck));
    assert_eq!(r.relay, Some(RelayMode::Closed));
    let r2 = p.feed_msg(Some(PlugMessage::new(12, MessagePayload::TurnOff)), RelayMode::Closed);
    assert_eq!(r2.outcome, FeedOutcome::Reply(MessagePayload::TurnOffAck));
    assert_eq!(r2.relay, Some(RelayMode::Open));
}

#[test]
fn plug_reports_relay_on_query() {
    let mut p = PlugSession::new(PlugId(7));
    p.state = ConnState::Working;
    p.server_seq = 10;
    let r = p.feed_msg(Some(PlugMessage::new(11, MessagePayload::QueryStatus)), RelayMode::Closed);
    assert_eq!(
        r.outcome,
        FeedOutcome::Reply(MessagePayload::StatusResp { is_on: true })
    );
    let r2 = p.feed_msg(Some(PlugMessage::new(12, MessagePayload::QueryStatus)), RelayMode::Open);
    assert_eq!(
        r2.outcome,
        FeedOutcome::Reply(MessagePayload::StatusResp { is_on: false })
    );
}

#[test]
fn plug_echoes_ping_and_checks_pong() {
    let mut p = PlugSession::new(PlugId(7));
    p.state = ConnState::Working;
    p.server_seq = 10;
    let r = p.feed_msg(Some(PlugMessage::new(11, MessagePayload::Ping { data: 5 })), RelayMode::Open);
    assert_eq!(r.outcome, FeedOutcome::Reply(MessagePayload::Pong { data: 5 }));
    p.state = ConnState::Pinging(8);
    let r2 = p.feed_msg(Some(PlugMessage::new(12, MessagePayload::Pong { data: 9 })), RelayMode::Open);
    assert_eq!(r2.outcome, FeedOutcome::Disconnect(DisconnectReason::BadHeartbeat));
}

#[test]
fn plug_sequence_gap_disconnects() {
    let mut p = PlugSession::new(PlugId(7));
    p.state = ConnState::Working;
    p.server_seq = 10;
    let r = p.feed_msg(Some(PlugMessage::new(13, MessagePayload::Ping { data: 5 })), RelayMode::Open);
    assert_eq!(r.outcome, FeedOutcome::Disconnect(DisconnectReason::SequenceError));
    assert_eq!(p.server_seq, 10);
}

#[test]
fn plug_reconnects_only_when_resting() {
    let mut p = PlugSession::new(PlugId(7));
    let frame = p.poll_connect().unwrap();
    assert_eq!(frame.payload, MessagePayload::Conn { id: PlugId(7) });
    assert_eq!(p.state, ConnState::Connecting);
    // already connecting: nothing more to open
    assert!(p.poll_connect().is_none());
}

#[test]
fn plug_timer_while_connecting_rests() {
    let mut p = PlugSession::new(PlugId(7));
    p.connect();
    let r = p.feed_msg(None, RelayMode::Open);
    assert_eq!(r.outcome, FeedOutcome::Silent);
    assert_eq!(p.state, ConnState::Disconnected);
}

#[test]
fn plug_handles_raw_datagrams() {
    let codec = BrokerCodec;
    let mut p = PlugSession::new(PlugId(7));
    p.state = ConnState::Working;
    p.server_seq = 10;
    let bytes = codec.encode(&PlugMessage::new(11, MessagePayload::Ping { data: 3 }));
    let r = p.handle_datagram(bytes.as_slice(), RelayMode::Open);
    assert_eq!(r.outcome, FeedOutcome::Reply(MessagePayload::Pong { data: 3 }));
    let r2 = p.handle_datagram(&[9, 13], RelayMode::Open);
    assert_eq!(r2.outcome, FeedOutcome::Disconnect(DisconnectReason::ProtocolError));
}

#[test]
fn outbound_seq_advances_with_each_frame() {
    let mut s = working_session(u32::MAX - 1, 100);
    let f1 = s.frame(MessagePayload::TurnOn);
    assert_eq!(f1.seq, u32::MAX);
    let f2 = s.frame(MessagePayload::TurnOff);
    assert_eq!(f2.seq, 0);
    assert_eq!(s.seq, 0);
}
