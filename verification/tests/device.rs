use tomada::device::{
    blink_plan, button_transition, led_for_relay, relay_transition, BlinkPlan, ButtonEvent,
    LedStatusCode, OnboardLedMode, PinLevel, PlugLedMode, RelayMode,
};
use tomada::msg::MessagePayload;

#[test]
fn relay_toggles() {
    assert_eq!(RelayMode::Open.toggle(), RelayMode::Closed);
    assert_eq!(RelayMode::Closed.toggle(), RelayMode::Open);
}

#[test]
fn relay_levels_round_trip() {
    assert_eq!(RelayMode::Closed.level(), PinLevel::High);
    assert_eq!(RelayMode::Open.level(), PinLevel::Low);
    assert_eq!(RelayMode::from_level(PinLevel::High), RelayMode::Closed);
    assert_eq!(RelayMode::from_level(PinLevel::Low), RelayMode::Open);
}

#[test]
fn relay_transition_notifies_on_change_only() {
    assert!(relay_transition(RelayMode::Open, RelayMode::Open).is_none());
    assert!(relay_transition(RelayMode::Closed, RelayMode::Closed).is_none());
    let s = relay_transition(RelayMode::Open, RelayMode::Closed).unwrap();
    assert_eq!(s.drive, PinLevel::High);
    assert_eq!(s.notify, MessagePayload::TurnOnNotify);
    let s2 = relay_transition(RelayMode::Closed, RelayMode::Open).unwrap();
    assert_eq!(s2.drive, PinLevel::Low);
    assert_eq!(s2.notify, MessagePayload::TurnOffNotify);
}

#[test]
fn button_debounces_and_reads_edges() {
    // the level settled back where it was: bounce, no event
    assert!(button_transition(PinLevel::High, PinLevel::High).is_none());
    assert!(button_transition(PinLevel::Low, PinLevel::Low).is_none());
    // pressed is active low
    assert_eq!(button_transition(PinLevel::High, PinLevel::Low), Some(ButtonEvent::Press));
    assert_eq!(button_transition(PinLevel::Low, PinLevel::High), Some(ButtonEvent::Release));
}

#[test]
fn leds_are_active_low_and_follow_relay() {
    assert_eq!(PlugLedMode::On.level(), PinLevel::Low);
    assert_eq!(PlugLedMode::Off.level(), PinLevel::High);
    assert_eq!(OnboardLedMode::On.level(), PinLevel::Low);
    assert_eq!(OnboardLedMode::Off.level(), PinLevel::High);
    assert_eq!(led_for_relay(RelayMode::Closed), PlugLedMode::On);
    assert_eq!(led_for_relay(RelayMode::Open), PlugLedMode::Off);
}

#[test]
fn blink_plans_follow_the_status() {
    assert_eq!(
        blink_plan(LedStatusCode::Disconnected),
        BlinkPlan { short_blinks: 3, long_blinks: 0, pause_millis: 1000, follow_relay: false }
    );
    assert_eq!(
        blink_plan(LedStatusCode::Connecting),
        BlinkPlan { short_blinks: 1, long_blinks: 0, pause_millis: 0, follow_relay: false }
    );
    assert_eq!(
        blink_plan(LedStatusCode::Idle),
        BlinkPlan { short_blinks: 0, long_blinks: 1, pause_millis: 0, follow_relay: false }
    );
    assert!(blink_plan(LedStatusCode::Working).follow_relay);
}

#[test]
fn led_status_defaults_to_idle() {
    assert_eq!(LedStatusCode::default(), LedStatusCode::Idle);
}
