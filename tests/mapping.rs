use bothoven::key_index::{InvalidKeyIndex, KeyIndex, NUM_KEYS};
use bothoven::key_state::{KeyEvent, KeyState};
use bothoven::midi::map_note_event;
use bothoven::velocity::{InvalidKeyPwm, KeyPwm, MAX_PWM, MIN_PWM, OFF_PWM};

#[test]
fn velocity_curve_values() {
    assert_eq!(KeyPwm::map_velocity_to_pwm(100), 53);
    assert_eq!(KeyPwm::map_velocity_to_pwm(127), MAX_PWM);
    assert_eq!(KeyPwm::map_velocity_to_pwm(1), MIN_PWM);
    assert_eq!(KeyPwm::map_velocity_to_pwm(64), 40);
}

#[test]
fn velocity_zero_is_off() {
    assert_eq!(KeyPwm::from_velocity(0), KeyPwm(OFF_PWM));
    assert_eq!(KeyPwm::try_from_u8(0), Ok(KeyPwm(OFF_PWM)));
}

#[test]
fn velocity_above_midi_range_is_refused() {
    assert_eq!(KeyPwm::try_from_u8(128), Err(InvalidKeyPwm));
    assert_eq!(KeyPwm::try_from_u8(255), Err(InvalidKeyPwm));
    assert_eq!(KeyPwm::try_from_u8(127), Ok(KeyPwm(64)));
}

#[test]
fn velocity_curve_is_monotonic_within_bounds() {
    let mut previous = 0u8;
    for v in 1u8..=127 {
        let pwm = KeyPwm::from_velocity(v).0;
        assert!(pwm >= previous);
        assert!(pwm >= MIN_PWM && pwm <= MAX_PWM);
        previous = pwm;
    }
    // Not strictly increasing: the two lowest velocities share a level.
    assert_eq!(KeyPwm::from_velocity(1), KeyPwm::from_velocity(2));
}

#[test]
fn note_range_maps_to_key_indices() {
    assert!(KeyIndex::try_from_note(20).is_err());
    assert_eq!(KeyIndex::try_from_note(21).unwrap().value(), 0);
    assert_eq!(KeyIndex::try_from_note(60).unwrap().value(), 39);
    assert_eq!(KeyIndex::try_from_note(108).unwrap().value(), 87);
    assert!(KeyIndex::try_from_note(109).is_err());
    assert!(KeyIndex::try_from_note(0).is_err());
}

#[test]
fn key_index_bounds() {
    assert_eq!(KeyIndex::try_from_u8(87).unwrap().value(), 87);
    assert!(KeyIndex::try_from_u8(NUM_KEYS).is_err());
    assert!(KeyIndex::try_from_usize(300).is_err());
    assert!(KeyIndex::try_from_usize(88).is_err());
    assert_eq!(KeyIndex::try_from_usize(5).unwrap().value(), 5);
}

#[test]
fn key_index_to_group_and_slot() {
    assert_eq!(KeyIndex::try_from_u8(39).unwrap().get_subcontroller_idxs(), (3, 6));
    assert_eq!(KeyIndex::try_from_u8(0).unwrap().get_subcontroller_idxs(), (0, 0));
    assert_eq!(KeyIndex::try_from_u8(87).unwrap().get_subcontroller_idxs(), (7, 10));
    assert_eq!(KeyIndex::try_from_u8(11).unwrap().get_subcontroller_idxs(), (1, 0));
}

#[test]
fn map_note_on_and_off() {
    let (idx, event) = map_note_event(60, 100, true).unwrap();
    assert_eq!(idx.value(), 39);
    assert_eq!(event, KeyEvent::Strike(KeyPwm(53)));
    let (idx, event) = map_note_event(60, 100, false).unwrap();
    assert_eq!(idx.value(), 39);
    assert_eq!(event, KeyEvent::Release);
    assert_eq!(map_note_event(60, 0, true).unwrap().1, KeyEvent::Strike(KeyPwm(0)));
}

#[test]
fn map_note_rejects_out_of_range() {
    assert!(matches!(map_note_event(10, 100, true), Err(InvalidKeyIndex)));
    assert!(matches!(map_note_event(120, 100, false), Err(InvalidKeyIndex)));
}

#[test]
fn default_key_state_is_off() {
    assert_eq!(KeyState::default(), KeyState::Off);
}
