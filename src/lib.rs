//! Control core of a MIDI-driven solenoid key array: velocity mapping, key
//! addressing, the per-key state machine, the wraparound-safe elapsed-time
//! engine and the duty-frame encoder for the addressable output groups.

pub mod clock;
pub mod frame;
pub mod key_index;
pub mod key_state;
pub mod manager;
pub mod midi;
pub mod velocity;
