use bothoven::key_state::{
    KeyEvent, KeyState, HOLD_TIMEOUT_US, PRESS_TIMEOUT_US, RELEASE_TIMEOUT_US, REPEAT_TIMEOUT_US,
};
use bothoven::velocity::{KeyPwm, HOLDING_PWM};

fn pressing(timeout: u32, pwm: u8) -> KeyState {
    KeyState::Pressing { timeout, pwm: KeyPwm(pwm) }
}

#[test]
fn strike_from_each_state() {
    let strike = KeyEvent::Strike(KeyPwm(40));
    assert_eq!(KeyState::Off.apply(strike), pressing(PRESS_TIMEOUT_US, 40));
    assert_eq!(
        KeyState::Holding { timeout: 5 }.apply(strike),
        KeyState::Repeating { timeout: REPEAT_TIMEOUT_US, pwm: KeyPwm(40) }
    );
    assert_eq!(
        KeyState::Releasing { timeout: 5 }.apply(strike),
        KeyState::Repeating { timeout: REPEAT_TIMEOUT_US, pwm: KeyPwm(40) }
    );
}

#[test]
fn repeated_strikes_change_nothing() {
    let first = pressing(1234, 20);
    assert_eq!(first.apply(KeyEvent::Strike(KeyPwm(60))), first);
    let repeating = KeyState::Repeating { timeout: 77, pwm: KeyPwm(30) };
    assert_eq!(repeating.apply(KeyEvent::Strike(KeyPwm(60))), repeating);
    let once = KeyState::Off.apply(KeyEvent::Strike(KeyPwm(50)));
    assert_eq!(once.apply(KeyEvent::Strike(KeyPwm(25))), once);
}

#[test]
fn release_from_each_state() {
    let released = KeyState::Releasing { timeout: RELEASE_TIMEOUT_US };
    assert_eq!(pressing(9, 30).apply(KeyEvent::Release), released);
    assert_eq!(KeyState::Holding { timeout: 9 }.apply(KeyEvent::Release), released);
    assert_eq!(
        KeyState::Repeating { timeout: 9, pwm: KeyPwm(30) }.apply(KeyEvent::Release),
        released
    );
    assert_eq!(KeyState::Off.apply(KeyEvent::Release), KeyState::Off);
    let settling = KeyState::Releasing { timeout: 9 };
    assert_eq!(settling.apply(KeyEvent::Release), settling);
}

#[test]
fn timeouts_count_down_and_saturate() {
    assert_eq!(pressing(1000, 30).advance(400), pressing(600, 30));
    assert_eq!(pressing(1000, 30).advance(1000), KeyState::Holding { timeout: HOLD_TIMEOUT_US });
    assert_eq!(
        pressing(1000, 30).advance(u32::MAX),
        KeyState::Holding { timeout: HOLD_TIMEOUT_US }
    );
    assert_eq!(KeyState::Holding { timeout: 10 }.advance(3), KeyState::Holding { timeout: 7 });
    assert_eq!(
        KeyState::Holding { timeout: 10 }.advance(10),
        KeyState::Releasing { timeout: RELEASE_TIMEOUT_US }
    );
    assert_eq!(KeyState::Releasing { timeout: 10 }.advance(11), KeyState::Off);
    assert_eq!(
        KeyState::Repeating { timeout: 10, pwm: KeyPwm(44) }.advance(10),
        pressing(PRESS_TIMEOUT_US, 44)
    );
    assert_eq!(
        KeyState::Repeating { timeout: 10, pwm: KeyPwm(44) }.advance(2),
        KeyState::Repeating { timeout: 8, pwm: KeyPwm(44) }
    );
    assert_eq!(KeyState::Off.advance(12345), KeyState::Off);
}

#[test]
fn zero_elapsed_changes_no_state() {
    let states = [
        KeyState::Off,
        pressing(PRESS_TIMEOUT_US, 53),
        KeyState::Holding { timeout: 1 },
        KeyState::Repeating { timeout: REPEAT_TIMEOUT_US, pwm: KeyPwm(16) },
        KeyState::Releasing { timeout: 99 },
    ];
    for s in states {
        assert_eq!(s.advance(0), s);
    }
}

#[test]
fn timeout_cycle_returns_to_off() {
    let mut s = KeyState::Off.apply(KeyEvent::Strike(KeyPwm(53)));
    assert!(matches!(s, KeyState::Pressing { .. }));
    s = s.advance(PRESS_TIMEOUT_US);
    assert!(matches!(s, KeyState::Holding { .. }));
    s = s.advance(HOLD_TIMEOUT_US);
    assert!(matches!(s, KeyState::Releasing { .. }));
    s = s.advance(RELEASE_TIMEOUT_US);
    assert_eq!(s, KeyState::Off);
}

#[test]
fn same_state_compares_variants_only() {
    assert!(pressing(1, 2).same_state(&pressing(3, 4)));
    assert!(KeyState::Off.same_state(&KeyState::Off));
    assert!(!KeyState::Holding { timeout: 1 }.same_state(&KeyState::Releasing { timeout: 1 }));
    assert!(!KeyState::Off.same_state(&pressing(1, 2)));
}

#[test]
fn drive_levels() {
    assert_eq!(pressing(1, 53).drive_pwm(), 53);
    assert_eq!(KeyState::Holding { timeout: 1 }.drive_pwm(), HOLDING_PWM);
    assert_eq!(KeyState::Repeating { timeout: 1, pwm: KeyPwm(53) }.drive_pwm(), 0);
    assert_eq!(KeyState::Releasing { timeout: 1 }.drive_pwm(), 0);
    assert_eq!(KeyState::Off.drive_pwm(), 0);
}
