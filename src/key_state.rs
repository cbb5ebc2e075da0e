//! The per-key state machine: strikes and releases from MIDI, and the
//! timeouts that move a key on by itself.

use crate::velocity::{KeyPwm, HOLDING_PWM, OFF_PWM};
use vstd::prelude::*;

verus! {

/// How long a struck key is driven at its strike intensity (microseconds).
pub const PRESS_TIMEOUT_US: u32 = 100_000;

/// How long a key is held at the reduced level before it is released anyway,
/// so that a lost note-off cannot overheat the actuator.
pub const HOLD_TIMEOUT_US: u32 = 30_000_000;

/// How long a released key settles before it counts as off.
pub const RELEASE_TIMEOUT_US: u32 = 100_000;

/// How long a re-struck key stays de-energized before its new strike.
pub const REPEAT_TIMEOUT_US: u32 = RELEASE_TIMEOUT_US;

/// State of one key. Every state but `Off` counts a timeout down.
#[derive(Debug, Clone, Copy, PartialEq, Eq, Structural)]
pub enum KeyState {
    /// De-energized and at rest.
    Off,
    /// Driven at `pwm` until the timeout expires, then held.
    Pressing { timeout: u32, pwm: KeyPwm },
    /// Driven at `HOLDING_PWM` until the timeout expires, then released.
    Holding { timeout: u32 },
    /// De-energized before a deferred strike at `pwm`.
    Repeating { timeout: u32, pwm: KeyPwm },
    /// De-energized and settling until the timeout expires.
    Releasing { timeout: u32 },
}

/// What a MIDI note event asks of a key.
#[derive(Debug, Clone, Copy, PartialEq, Eq, Structural)]
pub enum KeyEvent {
    /// Note-on at the given intensity.
    Strike(KeyPwm),
    /// Note-off.
    Release,
}

impl KeyState {
    /// The remaining timeout; zero for `Off`.
    pub open spec fn timeout(self) -> u32 {
        match self {
            KeyState::Off => 0,
            KeyState::Pressing { timeout, .. } => timeout,
            KeyState::Holding { timeout } => timeout,
            KeyState::Repeating { timeout, .. } => timeout,
            KeyState::Releasing { timeout } => timeout,
        }
    }

    /// The timeout a state starts with.
    pub open spec fn full_timeout(self) -> u32 {
        match self {
            KeyState::Off => 0,
            KeyState::Pressing { .. } => PRESS_TIMEOUT_US,
            KeyState::Holding { .. } => HOLD_TIMEOUT_US,
            KeyState::Repeating { .. } => REPEAT_TIMEOUT_US,
            KeyState::Releasing { .. } => RELEASE_TIMEOUT_US,
        }
    }

    /// A counting state has time left, and no more than it started with: an
    /// expired timeout has already moved the key on.
    pub open spec fn wf(self) -> bool {
        self is Off || 0 < self.timeout() <= self.full_timeout()
    }

    /// Both states are of the same variant, whatever their timeouts and
    /// intensities.
    pub open spec fn same_category(self, other: KeyState) -> bool {
        ||| self is Off && other is Off
        ||| self is Pressing && other is Pressing
        ||| self is Holding && other is Holding
        ||| self is Repeating && other is Repeating
        ||| self is Releasing && other is Releasing
    }

    /// The state an event leads to.
    pub open spec fn on_event(self, event: KeyEvent) -> KeyState {
        match event {
            KeyEvent::Strike(pwm) => match self {
                KeyState::Off => KeyState::Pressing { timeout: PRESS_TIMEOUT_US, pwm },
                KeyState::Holding { .. } | KeyState::Releasing { .. } => KeyState::Repeating {
                    timeout: REPEAT_TIMEOUT_US,
                    pwm,
                },
                KeyState::Pressing { .. } | KeyState::Repeating { .. } => self,
            },
            KeyEvent::Release => match self {
                KeyState::Pressing { .. } | KeyState::Holding { .. } | KeyState::Repeating {
                    ..
                } => KeyState::Releasing { timeout: RELEASE_TIMEOUT_US },
                KeyState::Off | KeyState::Releasing { .. } => self,
            },
        }
    }

    /// The state a timeout leads to when it expires.
    pub open spec fn successor(self) -> KeyState {
        match self {
            KeyState::Off => KeyState::Off,
            KeyState::Pressing { .. } => KeyState::Holding { timeout: HOLD_TIMEOUT_US },
            KeyState::Holding { .. } => KeyState::Releasing { timeout: RELEASE_TIMEOUT_US },
            KeyState::Repeating { pwm, .. } => KeyState::Pressing {
                timeout: PRESS_TIMEOUT_US,
                pwm,
            },
            KeyState::Releasing { .. } => KeyState::Off,
        }
    }

    /// The same state with its timeout replaced.
    pub open spec fn with_timeout(self, timeout: u32) -> KeyState {
        match self {
            KeyState::Off => KeyState::Off,
            KeyState::Pressing { pwm, .. } => KeyState::Pressing { timeout, pwm },
            KeyState::Holding { .. } => KeyState::Holding { timeout },
            KeyState::Repeating { pwm, .. } => KeyState::Repeating { timeout, pwm },
            KeyState::Releasing { .. } => KeyState::Releasing { timeout },
        }
    }

    /// The state after `elapsed` microseconds: the timeout counts down,
    /// saturating at zero, and a timeout that reaches zero moves the key to
    /// its successor. `Off` does not change.
    pub open spec fn after_elapsed(self, elapsed: u32) -> KeyState {
        if self is Off {
            KeyState::Off
        } else if self.timeout() > elapsed {
            self.with_timeout((self.timeout() - elapsed) as u32)
        } else {
            self.successor()
        }
    }

    /// The intensity the key is driven at: its strike intensity while
    /// pressing, `HOLDING_PWM` while holding, nothing otherwise.
    pub open spec fn drive_level(self) -> u8 {
        match self {
            KeyState::Pressing { pwm, .. } => pwm.0,
            KeyState::Holding { .. } => HOLDING_PWM,
            _ => OFF_PWM,
        }
    }
}

impl KeyState {
    /// Whether both states are of the same variant; a change of variant is
    /// what makes a group's output stale.
    pub fn same_state(&self, other: &KeyState) -> (r: bool)
        ensures
            r == self.same_category(*other),
    {
        match (self, other) {
            (KeyState::Off, KeyState::Off)
            | (KeyState::Pressing { .. }, KeyState::Pressing { .. })
            | (KeyState::Holding { .. }, KeyState::Holding { .. })
            | (KeyState::Repeating { .. }, KeyState::Repeating { .. })
            | (KeyState::Releasing { .. }, KeyState::Releasing { .. }) => true,
            _ => false,
        }
    }

    /// The state `event` leads to.
    pub fn apply(&self, event: KeyEvent) -> (r: KeyState)
        ensures
            r == self.on_event(event),
    {
        match event {
            KeyEvent::Strike(pwm) => match *self {
                KeyState::Off => KeyState::Pressing { timeout: PRESS_TIMEOUT_US, pwm },
                KeyState::Holding { .. } | KeyState::Releasing { .. } => KeyState::Repeating {
                    timeout: REPEAT_TIMEOUT_US,
                    pwm,
                },
                KeyState::Pressing { .. } | KeyState::Repeating { .. } => *self,
            },
            KeyEvent::Release => match *self {
                KeyState::Pressing { .. } | KeyState::Holding { .. } | KeyState::Repeating {
                    ..
                } => KeyState::Releasing { timeout: RELEASE_TIMEOUT_US },
                KeyState::Off | KeyState::Releasing { .. } => *self,
            },
        }
    }

    /// The state after `elapsed` microseconds.
    pub fn advance(&self, elapsed: u32) -> (r: KeyState)
        ensures
            r == self.after_elapsed(elapsed),
    {
        match *self {
            KeyState::Off => KeyState::Off,
            KeyState::Pressing { timeout, pwm } => match timeout.saturating_sub(elapsed) {
                0 => KeyState::Holding { timeout: HOLD_TIMEOUT_US },
                timeout => KeyState::Pressing { timeout, pwm },
            },
            KeyState::Holding { timeout } => match timeout.saturating_sub(elapsed) {
                0 => KeyState::Releasing { timeout: RELEASE_TIMEOUT_US },
                timeout => KeyState::Holding { timeout },
            },
            KeyState::Releasing { timeout } => match timeout.saturating_sub(elapsed) {
                0 => KeyState::Off,
                timeout => KeyState::Releasing { timeout },
            },
            KeyState::Repeating { timeout, pwm } => match timeout.saturating_sub(elapsed) {
                0 => KeyState::Pressing { timeout: PRESS_TIMEOUT_US, pwm },
                timeout => KeyState::Repeating { timeout, pwm },
            },
        }
    }

    /// The intensity the key is driven at.
    pub fn drive_pwm(&self) -> (r: u8)
        ensures
            r == self.drive_level(),
    {
        match *self {
            KeyState::Pressing { pwm, .. } => pwm.0,
            KeyState::Holding { .. } => HOLDING_PWM,
            _ => OFF_PWM,
        }
    }
}

/// The states form one cycle: a strike takes an off key to `Pressing`; from
/// a well-formed counting state, time either only shortens the timeout of
/// the same variant, or, once the timeout is used up, leads to the successor
/// (`Pressing` to `Holding` to `Releasing` to `Off`, and `Repeating` to
/// `Pressing`), which is well-formed again.
pub proof fn lemma_transition_cycle(s: KeyState, pwm: KeyPwm, elapsed: u32)
    requires
        s.wf(),
    ensures
        KeyState::Off.on_event(KeyEvent::Strike(pwm)) == (KeyState::Pressing {
            timeout: PRESS_TIMEOUT_US,
            pwm,
        }),
        s.after_elapsed(elapsed).wf(),
        !(s is Off) && elapsed >= s.timeout() ==> s.after_elapsed(elapsed) == s.successor(),
        !(s is Off) && elapsed < s.timeout() ==> {
            &&& s.after_elapsed(elapsed).same_category(s)
            &&& s.after_elapsed(elapsed).timeout() == s.timeout() - elapsed
        },
        s is Pressing ==> s.successor() is Holding,
        s is Holding ==> s.successor() is Releasing,
        s is Releasing ==> s.successor() is Off,
        s is Repeating ==> s.successor() is Pressing,
{
}

/// No key stays energized or counting for ever without events: four steps,
/// each longer than the longest timeout, bring any well-formed state to
/// `Off`.
pub proof fn lemma_reaches_off(s: KeyState, elapsed: u32)
    requires
        s.wf(),
        elapsed >= HOLD_TIMEOUT_US,
    ensures
        s.after_elapsed(elapsed).after_elapsed(elapsed).after_elapsed(elapsed).after_elapsed(
            elapsed,
        ) == KeyState::Off,
{
}

/// A strike while pressing or repeating changes nothing, so a strike
/// repeated after any first strike changes nothing either.
pub proof fn lemma_strike_idempotent(s: KeyState, first: KeyPwm, again: KeyPwm)
    ensures
        s is Pressing || s is Repeating ==> s.on_event(KeyEvent::Strike(again)) == s,
        s.on_event(KeyEvent::Strike(first)).on_event(KeyEvent::Strike(again)) == s.on_event(
            KeyEvent::Strike(first),
        ),
{
}

/// No time elapsed, no change, in every well-formed state.
pub proof fn lemma_no_elapsed_no_change(s: KeyState)
    requires
        s.wf(),
    ensures
        s.after_elapsed(0) == s,
{
}

impl Default for KeyState {
    /// Every key starts off.
    fn default() -> (r: KeyState)
        ensures
            r == KeyState::Off,
    {
        KeyState::Off
    }
}

} // verus!
