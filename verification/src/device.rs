//! Plug-device decisions: the relay the plug drives, the push button that
//! toggles it, and the status LEDs. Pin access itself lives outside; these
//! types and functions decide what the pins should do.

use vstd::prelude::*;

use crate::msg::MessagePayload;

verus! {

/// The relay contact: `Closed` conducts (plug on), `Open` does not.
#[derive(Debug, Clone, Copy, PartialEq, Eq, Structural)]
pub enum RelayMode {
    Open,
    Closed,
}

impl RelayMode {
    /// The opposite contact position.
    pub fn toggle(&self) -> (r: Self)
        ensures
            r == (match self {
                RelayMode::Open => RelayMode::Closed,
                RelayMode::Closed => RelayMode::Open,
            }),
    {
        match self {
            RelayMode::Open => RelayMode::Closed,
            RelayMode::Closed => RelayMode::Open,
        }
    }
}

/// A logic level on a GPIO pin.
#[derive(Debug, Clone, Copy, PartialEq, Eq, Structural)]
pub enum PinLevel {
    Low,
    High,
}

impl RelayMode {
    /// The level that drives the relay coil for this mode: the coil is
    /// energised on high.
    pub fn level(&self) -> (r: PinLevel)
        ensures
            r == (match self {
                RelayMode::Closed => PinLevel::High,
                RelayMode::Open => PinLevel::Low,
            }),
    {
        match self {
            RelayMode::Closed => PinLevel::High,
            RelayMode::Open => PinLevel::Low,
        }
    }

    /// The mode a relay pin level stands for.
    pub fn from_level(level: PinLevel) -> (r: Self)
        ensures
            r == (match level {
                PinLevel::Low => RelayMode::Open,
                PinLevel::High => RelayMode::Closed,
            }),
    {
        match level {
            PinLevel::Low => RelayMode::Open,
            PinLevel::High => RelayMode::Closed,
        }
    }
}

/// What the relay loop does when a new mode is requested: drive the pin and
/// tell the broker, or nothing when the relay is already there.
pub struct RelayStep {
    /// The level to drive onto the relay pin.
    pub drive: PinLevel,
    /// The unsolicited notification to hand the session for sending.
    pub notify: MessagePayload,
}

/// Decides one iteration of the relay loop. A request equal to the current
/// mode is a no-op; a change drives the pin and notifies the broker.
pub fn relay_transition(current: RelayMode, requested: RelayMode) -> (r: Option<RelayStep>)
    ensures
        current == requested <==> r is None,
        requested == RelayMode::Open ==> (r matches Some(s) ==> s.drive == PinLevel::Low
            && s.notify == MessagePayload::TurnOffNotify),
        requested == RelayMode::Closed ==> (r matches Some(s) ==> s.drive == PinLevel::High
            && s.notify == MessagePayload::TurnOnNotify),
{
    if current == requested {
        None
    } else {
        match requested {
            RelayMode::Open => Some(RelayStep { drive: PinLevel::Low, notify: MessagePayload::TurnOffNotify }),
            RelayMode::Closed => Some(RelayStep { drive: PinLevel::High, notify: MessagePayload::TurnOnNotify }),
        }
    }
}

/// A debounced observation of the plug's push button.
#[derive(Debug, Clone, Copy, PartialEq, Eq, Structural)]
pub enum ButtonEvent {
    Press,
    Release,
}

/// Decides what a settled button level means after an edge: no change reads
/// as bounce and is dropped; the pressed level (low) is a press, the other a
/// release.
pub fn button_transition(prev: PinLevel, settled: PinLevel) -> (r: Option<ButtonEvent>)
    ensures
        prev == settled <==> r is None,
        prev != settled ==> r == Some(
            if settled == PinLevel::Low { ButtonEvent::Press } else { ButtonEvent::Release },
        ),
{
    if prev == settled {
        None
    } else if matches!(settled, PinLevel::Low) {
        Some(ButtonEvent::Press)
    } else {
        Some(ButtonEvent::Release)
    }
}

/// What the status LED blinker is showing.
#[derive(Debug, Clone, Copy, PartialEq, Eq, Structural)]
pub enum LedStatusCode {
    Disconnected,
    Connecting,
    Working,
    Idle,
}

impl Default for LedStatusCode {
    fn default() -> (r: Self)
        ensures
            r == LedStatusCode::Idle,
    {
        LedStatusCode::Idle
    }
}

/// The plug-face LED.
#[derive(Debug, Clone, Copy, PartialEq, Eq, Structural)]
pub enum PlugLedMode {
    On,
    Off,
}

/// The LED on the controller board.
#[derive(Debug, Clone, Copy, PartialEq, Eq, Structural)]
pub enum OnboardLedMode {
    On,
    Off,
}

impl PlugLedMode {
    /// The pin level that lights the plug LED for this mode: active low.
    pub fn level(&self) -> (r: PinLevel)
        ensures
            r == (match self {
                PlugLedMode::On => PinLevel::Low,
                PlugLedMode::Off => PinLevel::High,
            }),
    {
        match self {
            PlugLedMode::On => PinLevel::Low,
            PlugLedMode::Off => PinLevel::High,
        }
    }
}

impl OnboardLedMode {
    /// The pin level that lights the onboard LED for this mode: active low.
    pub fn level(&self) -> (r: PinLevel)
        ensures
            r == (match self {
                OnboardLedMode::On => PinLevel::Low,
                OnboardLedMode::Off => PinLevel::High,
            }),
    {
        match self {
            OnboardLedMode::On => PinLevel::Low,
            OnboardLedMode::Off => PinLevel::High,
        }
    }
}

/// One round of the status display: how many short and long blinks to play,
/// the pause after them, and whether the LEDs then just mirror the relay.
#[derive(Debug, Clone, Copy, PartialEq, Eq, Structural)]
pub struct BlinkPlan {
    pub short_blinks: u8,
    pub long_blinks: u8,
    pub pause_millis: u64,
    pub follow_relay: bool,
}

/// What the blinker plays for each status code: three short blinks and a
/// pause while disconnected, one short blink while connecting, one long
/// blink while idle, and the relay's own state while working.
pub fn blink_plan(code: LedStatusCode) -> (r: BlinkPlan)
    ensures
        r == (match code {
            LedStatusCode::Disconnected => BlinkPlan {
                short_blinks: 3,
                long_blinks: 0,
                pause_millis: 1000,
                follow_relay: false,
            },
            LedStatusCode::Connecting => BlinkPlan {
                short_blinks: 1,
                long_blinks: 0,
                pause_millis: 0,
                follow_relay: false,
            },
            LedStatusCode::Idle => BlinkPlan {
                short_blinks: 0,
                long_blinks: 1,
                pause_millis: 0,
                follow_relay: false,
            },
            LedStatusCode::Working => BlinkPlan {
                short_blinks: 0,
                long_blinks: 0,
                pause_millis: 0,
                follow_relay: true,
            },
        }),
{
    match code {
        LedStatusCode::Disconnected => BlinkPlan {
            short_blinks: 3,
            long_blinks: 0,
            pause_millis: 1000,
            follow_relay: false,
        },
        LedStatusCode::Connecting => BlinkPlan {
            short_blinks: 1,
            long_blinks: 0,
            pause_millis: 0,
            follow_relay: false,
        },
        LedStatusCode::Idle => BlinkPlan {
            short_blinks: 0,
            long_blinks: 1,
            pause_millis: 0,
            follow_relay: false,
        },
        LedStatusCode::Working => BlinkPlan {
            short_blinks: 0,
            long_blinks: 0,
            pause_millis: 0,
            follow_relay: true,
        },
    }
}

/// In the `Working` display the LEDs mirror the relay: lit while the relay
/// conducts.
pub fn led_for_relay(mode: RelayMode) -> (r: PlugLedMode)
    ensures
        r == (match mode {
            RelayMode::Closed => PlugLedMode::On,
            RelayMode::Open => PlugLedMode::Off,
        }),
{
    match mode {
        RelayMode::Closed => PlugLedMode::On,
        RelayMode::Open => PlugLedMode::Off,
    }
}

} // verus!
