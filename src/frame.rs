//! The duty frame of one output group: software PWM as bit planes.
//!
//! A cycle has `PWM_PHASES` phases. Byte `p` of the frame (for `p` below
//! `PWM_PHASES`) carries slots 0 to 5 of the group at bits 0 to 5 for phase
//! `p`; byte `PWM_PHASES + p` carries slots 6 to 10 at bits 0 to 4 for the
//! same phase. A slot's bit is set in a phase iff the slot's drive level is
//! above the phase number, so a slot at level `k` is energized during the
//! first `k` phases of each cycle.

use crate::key_index::KEYS_PER_GROUP;
use crate::key_state::KeyState;
use vstd::prelude::*;
use vstd::set_lib::{lemma_int_range, set_int_range};

verus! {

/// Phases per duty cycle.
pub const PWM_PHASES: usize = 128;

/// Bytes per frame: two planes of `PWM_PHASES` bytes.
pub const FRAME_BYTES: usize = 256;

/// Slots carried by the first plane; the others go to the second.
pub const LOW_PLANE_SLOTS: usize = 6;

/// Bit `b` of `x` is one.
pub open spec fn bit_set(x: u8, b: u8) -> bool {
    x & (1u8 << b) != 0
}

/// Number of slots a frame byte carries.
pub open spec fn plane_width(byte: int) -> int {
    if byte < PWM_PHASES {
        LOW_PLANE_SLOTS as int
    } else {
        KEYS_PER_GROUP - LOW_PLANE_SLOTS
    }
}

/// The slot that bit `bit` of frame byte `byte` stands for.
pub open spec fn slot_of_bit(byte: int, bit: int) -> int {
    if byte < PWM_PHASES {
        bit
    } else {
        LOW_PLANE_SLOTS + bit
    }
}

/// What bit `bit` of frame byte `byte` must be for the group `keys`.
pub open spec fn frame_bit(keys: Seq<KeyState>, byte: int, bit: int) -> bool {
    &&& bit < plane_width(byte)
    &&& keys[slot_of_bit(byte, bit)].drive_level() > byte % (PWM_PHASES as int)
}

/// `frame` is the duty frame of the group `keys`: every bit of it is as
/// `frame_bit` says.
pub open spec fn is_frame_of(keys: Seq<KeyState>, frame: Seq<u8>) -> bool {
    &&& frame.len() == FRAME_BYTES
    &&& forall|i: int, b: u8|
        0 <= i < FRAME_BYTES && b < 8 ==> #[trigger] bit_set(frame[i], b) == frame_bit(
            keys,
            i,
            b as int,
        )
}

/// Whether the frame energizes `slot` during `phase`.
pub open spec fn slot_energized(frame: Seq<u8>, slot: int, phase: int) -> bool {
    if slot < LOW_PLANE_SLOTS {
        bit_set(frame[phase], slot as u8)
    } else {
        bit_set(frame[PWM_PHASES + phase], (slot - LOW_PLANE_SLOTS) as u8)
    }
}

proof fn lemma_set_bit(x: u8, s: u8, b: u8)
    requires
        s < 8,
        b < 8,
    ensures
        ((x | (1u8 << s)) & (1u8 << b) != 0) == ((x & (1u8 << b) != 0) || b == s),
{
    assert(((x | (1u8 << s)) & (1u8 << b) != 0) == ((x & (1u8 << b) != 0) || b == s))
        by (bit_vector)
        requires
            s < 8,
            b < 8,
    ;
}

proof fn lemma_no_bit(b: u8)
    requires
        b < 8,
    ensures
        0u8 & (1u8 << b) == 0,
{
    assert(0u8 & (1u8 << b) == 0) by (bit_vector);
}

/// The number of phases of a cycle during which a slot at `level` is on.
pub open spec fn duty_phases(level: u8) -> int {
    if level < PWM_PHASES {
        level as int
    } else {
        PWM_PHASES as int
    }
}

/// In the duty frame of a group, a slot is energized exactly in the phases
/// below its drive level: phases `0` to `k - 1` for level `k`, none for
/// level zero, which is `duty_phases(k)` phases of the cycle.
pub proof fn lemma_energized_phases(keys: Seq<KeyState>, frame: Seq<u8>, slot: int)
    requires
        keys.len() == KEYS_PER_GROUP,
        is_frame_of(keys, frame),
        0 <= slot < KEYS_PER_GROUP,
    ensures
        forall|p: int|
            0 <= p < PWM_PHASES ==> #[trigger] slot_energized(frame, slot, p) == (p
                < keys[slot].drive_level()),
        Set::new(|p: int| 0 <= p < PWM_PHASES && slot_energized(frame, slot, p)) == set_int_range(
            0,
            duty_phases(keys[slot].drive_level()),
        ),
        Set::new(|p: int| 0 <= p < PWM_PHASES && slot_energized(frame, slot, p)).len()
            == duty_phases(keys[slot].drive_level()),
{
    assert forall|p: int| 0 <= p < PWM_PHASES implies #[trigger] slot_energized(frame, slot, p) == (
    p < keys[slot].drive_level()) by {
        if slot < LOW_PLANE_SLOTS {
            assert(bit_set(frame[p], slot as u8) == frame_bit(keys, p, slot));
        } else {
            let b = (slot - LOW_PLANE_SLOTS) as u8;
            assert(bit_set(frame[PWM_PHASES + p], b) == frame_bit(keys, PWM_PHASES + p, b as int));
            assert((PWM_PHASES + p) % (PWM_PHASES as int) == p);
        }
    }
    let level = duty_phases(keys[slot].drive_level());
    assert(Set::new(|p: int| 0 <= p < PWM_PHASES && slot_energized(frame, slot, p))
        =~= set_int_range(0, level));
    lemma_int_range(0, level);
}

/// Encodes the duty frame of one group from scratch.
pub fn encode_frame(keys: &[KeyState; KEYS_PER_GROUP]) -> (frame: [u8; FRAME_BYTES])
    ensures
        is_frame_of(keys@, frame@),
{
    let mut frame = [0u8; FRAME_BYTES];
    let mut phase: usize = 0;
    while phase < PWM_PHASES
        invariant
            phase <= PWM_PHASES,
            frame@.len() == FRAME_BYTES,
            forall|p: int, b: u8|
                0 <= p < phase && b < 8 ==> #[trigger] bit_set(frame@[p], b) == frame_bit(
                    keys@,
                    p,
                    b as int,
                ),
            forall|p: int, b: u8|
                0 <= p < phase && b < 8 ==> #[trigger] bit_set(frame@[PWM_PHASES + p], b)
                    == frame_bit(keys@, PWM_PHASES + p, b as int),
        decreases PWM_PHASES - phase,
    {
        let mut low: u8 = 0;
        let mut high: u8 = 0;
        proof {
            assert forall|b: u8| b < 8 implies !bit_set(0u8, b) by {
                lemma_no_bit(b);
            }
        }
        let mut slot: usize = 0;
        while slot < KEYS_PER_GROUP
            invariant
                phase < PWM_PHASES,
                slot <= KEYS_PER_GROUP,
                forall|b: u8|
                    b < 8 ==> #[trigger] bit_set(low, b) == (b < LOW_PLANE_SLOTS && b < slot
                        && keys@[b as int].drive_level() > phase),
                forall|b: u8|
                    b < 8 ==> #[trigger] bit_set(high, b) == (b < KEYS_PER_GROUP - LOW_PLANE_SLOTS
                        && LOW_PLANE_SLOTS + b < slot && keys@[LOW_PLANE_SLOTS + b].drive_level()
                        > phase),
            decreases KEYS_PER_GROUP - slot,
        {
            if keys[slot].drive_pwm() as usize > phase {
                if slot < LOW_PLANE_SLOTS {
                    let s = slot as u8;
                    proof {
                        assert forall|b: u8| b < 8 implies #[trigger] bit_set(low | (1u8 << s), b)
                            == (bit_set(low, b) || b == s) by {
                            lemma_set_bit(low, s, b);
                        }
                    }
                    low = low | (1u8 << s);
                } else {
                    let s = (slot - LOW_PLANE_SLOTS) as u8;
                    proof {
                        assert forall|b: u8| b < 8 implies #[trigger] bit_set(high | (1u8 << s), b)
                            == (bit_set(high, b) || b == s) by {
                            lemma_set_bit(high, s, b);
                        }
                    }
                    high = high | (1u8 << s);
                }
            }
            slot += 1;
        }
        frame[phase] = low;
        frame[PWM_PHASES + phase] = high;
        proof {
            assert forall|b: u8| b < 8 implies #[trigger] bit_set(frame@[PWM_PHASES + phase], b)
                == frame_bit(keys@, PWM_PHASES + phase, b as int) by {
                assert((PWM_PHASES + phase) % (PWM_PHASES as int) == phase);
            }
        }
        phase += 1;
    }
    proof {
        assert forall|i: int, b: u8| 0 <= i < FRAME_BYTES && b < 8 implies #[trigger] bit_set(
            frame@[i],
            b,
        ) == frame_bit(keys@, i, b as int) by {
            if i >= PWM_PHASES {
                let p = i - PWM_PHASES;
                assert(bit_set(frame@[PWM_PHASES + p], b) == frame_bit(
                    keys@,
                    PWM_PHASES + p,
                    b as int,
                ));
            }
        }
    }
    frame
}

} // verus!
