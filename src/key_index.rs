//! Addressing of the physical keys: MIDI note to key index, key index to
//! output group and slot.

use vstd::prelude::*;

verus! {

/// MIDI note number of the lowest key.
pub const MIN_MIDI_PITCH: u8 = 21;

/// Number of keys of the instrument.
pub const NUM_KEYS: u8 = 88;

/// Number of keys wired to one output group.
pub const KEYS_PER_GROUP: usize = 11;

/// Number of output groups; `NUM_GROUPS * KEYS_PER_GROUP == NUM_KEYS`.
pub const NUM_GROUPS: usize = 8;

/// The index of one physical key, below `NUM_KEYS` by construction.
#[derive(Debug, Clone, Copy)]
pub struct KeyIndex(u8);

/// The value is not the index of a key, or the note is outside the
/// instrument's range.
#[derive(Debug, Clone, Copy, PartialEq, Eq, Structural)]
pub struct InvalidKeyIndex;

impl View for KeyIndex {
    type V = nat;

    closed spec fn view(&self) -> nat {
        self.0 as nat
    }
}

/// The key a MIDI note plays, if the instrument has one.
pub open spec fn key_of_note(note: int) -> Option<nat> {
    if MIN_MIDI_PITCH <= note < MIN_MIDI_PITCH + NUM_KEYS {
        Some((note - MIN_MIDI_PITCH) as nat)
    } else {
        None
    }
}

impl KeyIndex {
    #[verifier::type_invariant]
    spec fn inv(self) -> bool {
        self.0 < NUM_KEYS
    }

    /// The index as an integer.
    pub fn value(&self) -> (r: u8)
        ensures
            r == self@,
            r < NUM_KEYS,
    {
        proof {
            use_type_invariant(self);
        }
        self.0
    }

    /// The output group of the key and its slot within the group.
    pub fn get_subcontroller_idxs(&self) -> (r: (usize, usize))
        ensures
            r.0 == self@ / (KEYS_PER_GROUP as nat),
            r.1 == self@ % (KEYS_PER_GROUP as nat),
            r.0 < NUM_GROUPS,
            r.1 < KEYS_PER_GROUP,
    {
        proof {
            use_type_invariant(self);
        }
        (self.0 as usize / KEYS_PER_GROUP, self.0 as usize % KEYS_PER_GROUP)
    }

    /// The key of index `value`, refused from `NUM_KEYS` on.
    pub fn try_from_u8(value: u8) -> (r: Result<KeyIndex, InvalidKeyIndex>)
        ensures
            value < NUM_KEYS <==> r is Ok,
            r matches Ok(k) ==> k@ == value,
    {
        if value < NUM_KEYS {
            Ok(KeyIndex(value))
        } else {
            Err(InvalidKeyIndex)
        }
    }

    /// The key of index `value`, refused from `NUM_KEYS` on.
    pub fn try_from_usize(value: usize) -> (r: Result<KeyIndex, InvalidKeyIndex>)
        ensures
            value < NUM_KEYS <==> r is Ok,
            r matches Ok(k) ==> k@ == value,
    {
        if value > u8::MAX as usize {
            return Err(InvalidKeyIndex);
        }
        Self::try_from_u8(value as u8)
    }

    /// The key a MIDI note plays; notes outside the instrument's range are
    /// refused.
    pub fn try_from_note(note: u8) -> (r: Result<KeyIndex, InvalidKeyIndex>)
        ensures
            key_of_note(note as int) is Some <==> r is Ok,
            r matches Ok(k) ==> key_of_note(note as int) == Some(k@),
    {
        if note < MIN_MIDI_PITCH {
            return Err(InvalidKeyIndex);
        }
        Self::try_from_u8(note - MIN_MIDI_PITCH)
    }
}

} // verus!
