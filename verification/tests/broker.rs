use tomada::bridge::{
    list_plugs, query_status_response, set_state_response, should_probe, PowerStateOption,
};
use tomada::demux::{route, RouteDecision};
use tomada::driver::{broker_step, terminate};
use tomada::msg::{DisconnectReason, MessagePayload, PlugId, PlugMessage};
use tomada::registry::{PlugRecord, Registry};
use tomada::session::{BrokerSession, ConnectionState, FeedOutcome};
use tomada::{Args, PlugCommand, PowerState};

#[test]
fn registry_lifecycle() {
    let mut reg = Registry::new();
    assert_eq!(reg.len(), 0);
    assert!(reg.claim(PlugId(1), 10, 500));
    assert_eq!(
        reg.get(PlugId(1)),
        Some(PlugRecord { power_state: PowerState::Unknown, last_seen: 500, driver: 10 })
    );
    assert!(reg.set_power(PlugId(1), 10, PowerState::On));
    assert!(reg.touch(PlugId(1), 10, 900));
    assert_eq!(
        reg.get(PlugId(1)),
        Some(PlugRecord { power_state: PowerState::On, last_seen: 900, driver: 10 })
    );
    assert!(!reg.set_power(PlugId(2), 10, PowerState::On));
    assert!(reg.release(PlugId(1), 10));
    assert_eq!(reg.get(PlugId(1)), None);
    assert_eq!(reg.len(), 0);
}

#[test]
fn duplicate_claim_is_refused() {
    let mut reg = Registry::new();
    assert!(reg.claim(PlugId(1), 10, 500));
    // a second driver handshaking the same identity is turned away
    assert!(!reg.claim(PlugId(1), 11, 600));
    let rec = reg.get(PlugId(1)).unwrap();
    assert_eq!(rec.driver, 10);
    assert_eq!(rec.last_seen, 500);
}

#[test]
fn only_the_claiming_driver_writes() {
    let mut reg = Registry::new();
    assert!(reg.claim(PlugId(1), 10, 500));
    assert!(!reg.set_power(PlugId(1), 11, PowerState::On));
    assert!(!reg.touch(PlugId(1), 11, 999));
    assert_eq!(
        reg.get(PlugId(1)),
        Some(PlugRecord { power_state: PowerState::Unknown, last_seen: 500, driver: 10 })
    );
}

#[test]
fn only_the_claiming_driver_releases() {
    let mut reg = Registry::new();
    assert!(reg.claim(PlugId(1), 10, 500));
    assert!(!reg.release(PlugId(1), 11));
    assert!(reg.get(PlugId(1)).is_some());
    assert!(reg.release(PlugId(1), 10));
    assert!(reg.get(PlugId(1)).is_none());
}

#[test]
fn handshake_step_registers_record() {
    let mut reg = Registry::new();
    let mut s = BrokerSession::new();
    let r = broker_step(
        &mut s,
        &mut reg,
        77,
        Some(PlugMessage::new(100, MessagePayload::Conn { id: PlugId(5) })),
    );
    assert_eq!(r.outcome, FeedOutcome::Reply(MessagePayload::ConnAck));
    assert!(r.completed.is_empty());
    assert_eq!(s.state, ConnectionState::Working);
    let rec = reg.get(PlugId(5)).unwrap();
    assert_eq!(rec.power_state, PowerState::Unknown);
    assert_eq!(rec.driver, 77);
}

#[test]
fn duplicate_handshake_step_turns_newcomer_away() {
    let mut reg = Registry::new();
    let mut first = BrokerSession::new();
    broker_step(
        &mut first,
        &mut reg,
        1,
        Some(PlugMessage::new(100, MessagePayload::Conn { id: PlugId(5) })),
    );
    let mut second = BrokerSession::new();
    let r = broker_step(
        &mut second,
        &mut reg,
        2,
        Some(PlugMessage::new(200, MessagePayload::Conn { id: PlugId(5) })),
    );
    assert_eq!(r.outcome, FeedOutcome::Disconnect(DisconnectReason::Closed));
    // the older session's record is untouched and its driver still owns it
    assert_eq!(reg.get(PlugId(5)).unwrap().driver, 1);
    // the newcomer's exit cannot take the record away either
    let failed = terminate(&mut second, &mut reg, 2);
    assert!(failed.is_empty());
    assert!(reg.get(PlugId(5)).is_some());
}

#[test]
fn ack_step_records_power_and_completes() {
    let mut reg = Registry::new();
    let mut s = BrokerSession::new();
    broker_step(
        &mut s,
        &mut reg,
        7,
        Some(PlugMessage::new(100, MessagePayload::Conn { id: PlugId(5) })),
    );
    let payload = s.inject_command(42, PlugCommand::TurnOn);
    assert_eq!(payload, MessagePayload::TurnOn);
    // the command is pending; the record's power state is untouched by it
    assert_eq!(reg.get(PlugId(5)).unwrap().power_state, PowerState::Unknown);
    let r = broker_step(&mut s, &mut reg, 7, Some(PlugMessage::new(101, MessagePayload::TurnOnAck)));
    assert_eq!(r.outcome, FeedOutcome::Silent);
    assert_eq!(r.completed, vec![42]);
    assert_eq!(reg.get(PlugId(5)).unwrap().power_state, PowerState::On);
}

#[test]
fn status_step_records_power() {
    let mut reg = Registry::new();
    let mut s = BrokerSession::new();
    broker_step(
        &mut s,
        &mut reg,
        7,
        Some(PlugMessage::new(100, MessagePayload::Conn { id: PlugId(5) })),
    );
    let r = broker_step(
        &mut s,
        &mut reg,
        7,
        Some(PlugMessage::new(101, MessagePayload::StatusResp { is_on: true })),
    );
    assert!(r.completed.is_empty());
    assert_eq!(reg.get(PlugId(5)).unwrap().power_state, PowerState::On);
}

#[test]
fn terminate_releases_record_and_fails_pending() {
    let mut reg = Registry::new();
    let mut s = BrokerSession::new();
    broker_step(
        &mut s,
        &mut reg,
        7,
        Some(PlugMessage::new(100, MessagePayload::Conn { id: PlugId(5) })),
    );
    s.inject_command(1, PlugCommand::TurnOn);
    s.inject_command(2, PlugCommand::TurnOff);
    let failed = terminate(&mut s, &mut reg, 7);
    assert_eq!(failed, vec![1, 2]);
    assert_eq!(s.state, ConnectionState::Dead);
    assert!(reg.get(PlugId(5)).is_none());
    // driver exit is idempotent
    let failed_again = terminate(&mut s, &mut reg, 7);
    assert!(failed_again.is_empty());
}

#[test]
fn routing_follows_the_table() {
    let conn = PlugMessage::new(1, MessagePayload::Conn { id: PlugId(5) });
    let ping = PlugMessage::new(1, MessagePayload::Ping { data: 2 });
    assert_eq!(route(true, &conn), RouteDecision::Existing);
    assert_eq!(route(true, &ping), RouteDecision::Existing);
    assert_eq!(route(false, &conn), RouteDecision::Spawn);
    assert_eq!(route(false, &ping), RouteDecision::Drop);
}

#[test]
fn list_snapshots_every_record() {
    let mut reg = Registry::new();
    reg.claim(PlugId(1), 10, 100);
    reg.claim(PlugId(2), 11, 200);
    reg.set_power(PlugId(2), 11, PowerState::Off);
    let list = list_plugs(&reg);
    assert_eq!(list.plugs.len(), 2);
    assert_eq!(list.plugs[0].id, PlugId(1));
    assert_eq!(list.plugs[0].state, PowerState::Unknown);
    assert_eq!(list.plugs[0].last_seen, 100);
    assert_eq!(list.plugs[1].id, PlugId(2));
    assert_eq!(list.plugs[1].state, PowerState::Off);
}

#[test]
fn set_state_success_needs_presence_and_ack() {
    // the ack arrived inside the deadline
    let r = set_state_response(true, Some(true));
    assert!(r.present && r.success);
    // the plug stayed silent for the whole window
    let r2 = set_state_response(true, None);
    assert!(r2.present && !r2.success);
    // the session died before acking
    let r3 = set_state_response(true, Some(false));
    assert!(r3.present && !r3.success);
    // no such plug
    let r4 = set_state_response(false, None);
    assert!(!r4.present && !r4.success);
}

#[test]
fn query_reflects_the_record() {
    let r = query_status_response(Some(PlugRecord {
        power_state: PowerState::On,
        last_seen: 750,
        driver: 3,
    }));
    assert_eq!(r.state, Some(PowerState::On));
    assert_eq!(r.lastseen, Some(750));
    let missing = query_status_response(None);
    assert_eq!(missing.state, None);
    assert_eq!(missing.lastseen, None);
}

#[test]
fn query_probes_only_unknown_power() {
    let unknown = PlugRecord { power_state: PowerState::Unknown, last_seen: 1, driver: 3 };
    let on = PlugRecord { power_state: PowerState::On, last_seen: 1, driver: 3 };
    assert!(should_probe(Some(&unknown)));
    assert!(!should_probe(Some(&on)));
    assert!(!should_probe(None));
}

#[test]
fn query_while_unknown_sees_probed_state() {
    // a plug whose power is unknown is probed; its status report lands
    // before the window closes, and the reply shows what the record shows
    let mut reg = Registry::new();
    let mut s = BrokerSession::new();
    broker_step(
        &mut s,
        &mut reg,
        7,
        Some(PlugMessage::new(100, MessagePayload::Conn { id: PlugId(5) })),
    );
    assert!(should_probe(reg.get(PlugId(5)).as_ref()));
    broker_step(
        &mut s,
        &mut reg,
        7,
        Some(PlugMessage::new(101, MessagePayload::StatusResp { is_on: true })),
    );
    let r = query_status_response(reg.get(PlugId(5)));
    assert_eq!(r.state, Some(PowerState::On));
}

#[test]
fn set_state_command_mapping() {
    assert_eq!(PowerStateOption::On.command(), PlugCommand::TurnOn);
    assert_eq!(PowerStateOption::Off.command(), PlugCommand::TurnOff);
}

#[test]
fn default_ports() {
    let args = Args::default();
    assert_eq!(args.broker_port, 8080);
    assert_eq!(args.http_port, 8081);
}
