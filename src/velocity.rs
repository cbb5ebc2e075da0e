//! Mapping from MIDI velocity to drive intensity.

use vstd::arithmetic::div_mod::lemma_div_is_ordered;
use vstd::prelude::*;

verus! {

/// Highest drive level a strike can command.
pub const MAX_PWM: u8 = 64;

/// Lowest drive level a strike with a non-zero velocity commands.
pub const MIN_PWM: u8 = 16;

/// Largest MIDI velocity.
pub const MAX_VELOCITY: u8 = 127;

/// Commanded drive intensity of one key: the number of duty-cycle phases,
/// out of each cycle, during which the key is energized.
#[derive(Debug, Clone, Copy, PartialEq, Eq, Structural)]
pub struct KeyPwm(pub u8);

/// The de-energized level.
pub const OFF_PWM: u8 = 0;

/// The reduced level a key is held at once its strike is over.
pub const HOLDING_PWM: u8 = 16;

/// The velocity is not a MIDI velocity (it exceeds 127).
#[derive(Debug, Clone, Copy, PartialEq, Eq, Structural)]
pub struct InvalidKeyPwm;

/// The affine velocity curve: `MIN_PWM + v * (MAX_PWM - MIN_PWM) / 127`,
/// rounded down.
pub open spec fn velocity_curve(v: int) -> int {
    MIN_PWM + v * (MAX_PWM - MIN_PWM) / (MAX_VELOCITY as int)
}

/// The intensity a velocity commands: `OFF_PWM` for zero, the curve otherwise.
pub open spec fn pwm_of_velocity(v: int) -> KeyPwm {
    if v == 0 {
        KeyPwm(OFF_PWM)
    } else {
        KeyPwm(velocity_curve(v) as u8)
    }
}

/// Velocity zero commands `OFF_PWM`; from velocity 1 to 127 the intensity
/// stays within `[MIN_PWM, MAX_PWM]` and never decreases as the velocity
/// grows.
pub proof fn lemma_velocity_monotonic(v: int, w: int)
    requires
        1 <= v <= w <= MAX_VELOCITY,
    ensures
        pwm_of_velocity(0) == KeyPwm(OFF_PWM),
        MIN_PWM <= pwm_of_velocity(v).0 <= pwm_of_velocity(w).0 <= MAX_PWM,
{
    assert(v * 48 <= w * 48 <= 127 * 48) by (nonlinear_arith)
        requires v <= w <= 127;
    lemma_div_is_ordered(v * 48, w * 48, 127);
    lemma_div_is_ordered(w * 48, 6096, 127);
    lemma_div_is_ordered(0, v * 48, 127);
}

impl KeyPwm {
    /// Evaluates the velocity curve.
    pub fn map_velocity_to_pwm(velocity: u8) -> (r: u8)
        ensures
            r == velocity_curve(velocity as int),
    {
        assert(velocity as u16 * 48 <= 255 * 48) by (nonlinear_arith);
        assert((velocity as int * 48) / 127 <= 96) by (nonlinear_arith)
            requires velocity as int * 48 <= 255 * 48;
        (((velocity as u16) * ((MAX_PWM - MIN_PWM) as u16) / (MAX_VELOCITY as u16)) as u8)
            + MIN_PWM
    }

    /// The intensity of a MIDI velocity, which is at most 127.
    pub fn from_velocity(velocity: u8) -> (r: KeyPwm)
        requires
            velocity <= MAX_VELOCITY,
        ensures
            r == pwm_of_velocity(velocity as int),
    {
        if velocity == 0 {
            KeyPwm(OFF_PWM)
        } else {
            KeyPwm(Self::map_velocity_to_pwm(velocity))
        }
    }

    /// The intensity of a raw byte taken as a velocity; bytes above 127 are
    /// refused.
    pub fn try_from_u8(value: u8) -> (r: Result<KeyPwm, InvalidKeyPwm>)
        ensures
            value > MAX_VELOCITY ==> r == Err::<KeyPwm, InvalidKeyPwm>(InvalidKeyPwm),
            value <= MAX_VELOCITY ==> r == Ok::<KeyPwm, InvalidKeyPwm>(
                pwm_of_velocity(value as int),
            ),
    {
        if value > MAX_VELOCITY {
            Err(InvalidKeyPwm)
        } else {
            Ok(Self::from_velocity(value))
        }
    }
}

} // verus!
