//! Note events from MIDI: which key they address and what they ask of it.

use crate::key_index::{key_of_note, InvalidKeyIndex, KeyIndex};
use crate::key_state::KeyEvent;
use crate::velocity::{pwm_of_velocity, KeyPwm, MAX_VELOCITY};
use vstd::prelude::*;

verus! {

/// The MIDI channel the instrument listens on (channel 1, zero on the wire).
pub const MIDI_CHANNEL: u8 = 0;

/// The event a note-on (`is_on`) or note-off asks for.
pub open spec fn note_event(velocity: u8, is_on: bool) -> KeyEvent {
    if is_on {
        KeyEvent::Strike(pwm_of_velocity(velocity as int))
    } else {
        KeyEvent::Release
    }
}

/// Maps a note event to its key and event; notes outside the instrument's
/// range are refused. A note-off ignores the velocity.
pub fn map_note_event(note: u8, velocity: u8, is_on: bool) -> (r: Result<
    (KeyIndex, KeyEvent),
    InvalidKeyIndex,
>)
    requires
        velocity <= MAX_VELOCITY,
    ensures
        r is Ok <==> key_of_note(note as int) is Some,
        r matches Ok((idx, event)) ==> {
            &&& key_of_note(note as int) == Some(idx@)
            &&& event == note_event(velocity, is_on)
        },
{
    let idx = KeyIndex::try_from_note(note)?;
    let event = if is_on {
        KeyEvent::Strike(KeyPwm::from_velocity(velocity))
    } else {
        KeyEvent::Release
    };
    Ok((idx, event))
}

} // verus!
