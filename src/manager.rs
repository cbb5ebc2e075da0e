//! The array of keys, split into output groups, each with a flag that says
//! its last transmitted frame is stale.

use crate::clock::{elapsed_between, elapsed_ticks};
use crate::frame::{encode_frame, is_frame_of, FRAME_BYTES};
use crate::key_index::{key_of_note, KeyIndex, KEYS_PER_GROUP, NUM_GROUPS, NUM_KEYS};
use crate::key_state::{lemma_no_elapsed_no_change, KeyEvent, KeyState};
use crate::midi::{map_note_event, note_event, MIDI_CHANNEL};
use crate::velocity::MAX_VELOCITY;
use vstd::prelude::*;

verus! {

/// One output group: the keys behind one select line.
#[derive(Debug, Clone, Copy)]
pub struct Subcontroller {
    /// A key of the group changed variant since the group's last frame.
    pub needs_update: bool,
    /// The keys of the group, by slot.
    pub keys: [KeyState; KEYS_PER_GROUP],
}

impl Default for Subcontroller {
    /// A group of keys that are all off, with nothing to send.
    fn default() -> (r: Subcontroller)
        ensures
            !r.needs_update,
            forall|s: int| 0 <= s < KEYS_PER_GROUP ==> #[trigger] r.keys@[s] == KeyState::Off,
    {
        Subcontroller { needs_update: false, keys: [KeyState::Off; KEYS_PER_GROUP] }
    }
}

impl Subcontroller {
    /// The state of the key in `slot`.
    pub fn index(&self, slot: usize) -> (r: KeyState)
        requires
            slot < KEYS_PER_GROUP,
        ensures
            r == self.keys@[slot as int],
    {
        self.keys[slot]
    }
}

/// The state of every key and the time of the last sample of the
/// free-running counter.
#[derive(Debug, Clone, Copy)]
pub struct PwmManager {
    /// Counter value at the last sample.
    pub last_tick: u32,
    /// The output groups; key `i` is slot `i % KEYS_PER_GROUP` of group
    /// `i / KEYS_PER_GROUP`.
    pub subcontrollers: [Subcontroller; NUM_GROUPS],
}

/// Some key of group `g` is of another variant in `b` than in `a`.
pub open spec fn group_changed(a: PwmManager, b: PwmManager, g: int) -> bool {
    exists|s: int|
        0 <= s < KEYS_PER_GROUP && !(#[trigger] a.slot(g, s)).same_category(b.slot(g, s))
}

/// Going from `a` to `b` marked exactly the groups that were marked already
/// and those with a key that changed variant.
pub open spec fn dirty_rule(a: PwmManager, b: PwmManager) -> bool {
    forall|g: int|
        0 <= g < NUM_GROUPS ==> #[trigger] b.dirty(g) == (a.dirty(g) || group_changed(a, b, g))
}

/// `b` is `a` with every key advanced by `elapsed` and the groups marked
/// whose keys changed variant.
pub open spec fn ticked(a: PwmManager, b: PwmManager, elapsed: u32) -> bool {
    &&& b.last_tick == a.last_tick
    &&& forall|i: int|
        0 <= i < NUM_KEYS ==> #[trigger] b.key(i) == a.key(i).after_elapsed(elapsed)
    &&& dirty_rule(a, b)
}

/// A tick by zero elapsed time changes no key and marks no group.
pub proof fn lemma_tick_zero_no_op(a: PwmManager, b: PwmManager)
    requires
        a.wf(),
        ticked(a, b, 0),
    ensures
        forall|i: int| 0 <= i < NUM_KEYS ==> #[trigger] b.key(i) == a.key(i),
        forall|g: int| 0 <= g < NUM_GROUPS ==> #[trigger] b.dirty(g) == a.dirty(g),
{
    assert forall|i: int| 0 <= i < NUM_KEYS implies #[trigger] b.key(i) == a.key(i) by {
        lemma_no_elapsed_no_change(a.key(i));
    }
    assert forall|g: int| 0 <= g < NUM_GROUPS implies #[trigger] b.dirty(g) == a.dirty(g) by {
        assert forall|s: int| 0 <= s < KEYS_PER_GROUP implies (#[trigger] a.slot(
            g,
            s,
        )).same_category(b.slot(g, s)) by {
            let i = g * KEYS_PER_GROUP + s;
            assert(i / KEYS_PER_GROUP as int == g && i % KEYS_PER_GROUP as int == s);
            assert(b.key(i) == a.key(i));
        }
    }
}

/// Two steps in a row, in which no key changed in both, mark the groups that
/// one step from the first state to the last would mark.
proof fn lemma_dirty_rule_compose(a: PwmManager, b: PwmManager, c: PwmManager)
    requires
        dirty_rule(a, b),
        dirty_rule(b, c),
        forall|i: int|
            0 <= i < NUM_KEYS ==> a.key(i) == b.key(i) || #[trigger] b.key(i) == c.key(i),
    ensures
        dirty_rule(a, c),
{
    assert forall|g: int, s: int| 0 <= g < NUM_GROUPS && 0 <= s < KEYS_PER_GROUP implies a.slot(
        g,
        s,
    ) == b.slot(g, s) || #[trigger] b.slot(g, s) == c.slot(g, s) by {
        let i = g * KEYS_PER_GROUP + s;
        assert(i / KEYS_PER_GROUP as int == g && i % KEYS_PER_GROUP as int == s);
        assert(b.key(i) == c.key(i) || a.key(i) == b.key(i));
    }
    assert forall|g: int| 0 <= g < NUM_GROUPS implies #[trigger] c.dirty(g) == (a.dirty(g)
        || group_changed(a, c, g)) by {
        if group_changed(a, b, g) {
            let s = choose|s: int|
                0 <= s < KEYS_PER_GROUP && !(#[trigger] a.slot(g, s)).same_category(b.slot(g, s));
            assert(!a.slot(g, s).same_category(c.slot(g, s)));
        }
        if group_changed(b, c, g) {
            let s = choose|s: int|
                0 <= s < KEYS_PER_GROUP && !(#[trigger] b.slot(g, s)).same_category(c.slot(g, s));
            assert(!a.slot(g, s).same_category(c.slot(g, s)));
        }
        if group_changed(a, c, g) {
            let s = choose|s: int|
                0 <= s < KEYS_PER_GROUP && !(#[trigger] a.slot(g, s)).same_category(c.slot(g, s));
            if a.slot(g, s) == b.slot(g, s) {
                assert(!b.slot(g, s).same_category(c.slot(g, s)));
            } else {
                assert(!a.slot(g, s).same_category(b.slot(g, s)));
            }
        }
    }
}

impl PwmManager {
    /// The state of the key in slot `s` of group `g`.
    pub open spec fn slot(self, g: int, s: int) -> KeyState {
        self.subcontrollers@[g].keys@[s]
    }

    /// The state of key `i`.
    pub open spec fn key(self, i: int) -> KeyState {
        self.slot(i / KEYS_PER_GROUP as int, i % KEYS_PER_GROUP as int)
    }

    /// Whether group `g` has a stale frame.
    pub open spec fn dirty(self, g: int) -> bool {
        self.subcontrollers@[g].needs_update
    }

    /// Every key is in a well-formed state.
    pub open spec fn wf(self) -> bool {
        forall|i: int| 0 <= i < NUM_KEYS ==> (#[trigger] self.key(i)).wf()
    }

    /// All keys off, no frame to send, counter sampled at zero.
    pub fn new() -> (r: PwmManager)
        ensures
            r.wf(),
            r.last_tick == 0,
            forall|i: int| 0 <= i < NUM_KEYS ==> #[trigger] r.key(i) == KeyState::Off,
            forall|g: int| 0 <= g < NUM_GROUPS ==> !#[trigger] r.dirty(g),
    {
        let group = Subcontroller::default();
        let r = PwmManager { last_tick: 0, subcontrollers: [group; NUM_GROUPS] };
        assert forall|i: int| 0 <= i < NUM_KEYS implies #[trigger] r.key(i) == KeyState::Off by {
            assert(r.subcontrollers@[i / KEYS_PER_GROUP as int] == group);
        }
        r
    }

    /// The state of key `idx`.
    pub fn get_key_state(&self, idx: KeyIndex) -> (r: KeyState)
        ensures
            r == self.key(idx@ as int),
            idx@ < NUM_KEYS,
    {
        let (g, s) = idx.get_subcontroller_idxs();
        self.subcontrollers[g].keys[s]
    }

    /// Puts key `idx` in `state`, and marks its group when the variant
    /// changes.
    pub fn set_key_state(&mut self, idx: KeyIndex, state: KeyState)
        requires
            old(self).wf(),
            state.wf(),
        ensures
            final(self).wf(),
            final(self).last_tick == old(self).last_tick,
            final(self).key(idx@ as int) == state,
            forall|i: int|
                0 <= i < NUM_KEYS && i != idx@ ==> #[trigger] final(self).key(i) == old(
                    self,
                ).key(i),
            dirty_rule(*old(self), *final(self)),
    {
        let (g, s) = idx.get_subcontroller_idxs();
        let mut group = self.subcontrollers[g];
        if !group.keys[s].same_state(&state) {
            group.needs_update = true;
        }
        group.keys[s] = state;
        self.subcontrollers[g] = group;
        proof {
            let ghost before = *old(self);
            assert(self.key(idx@ as int) == state);
            assert forall|i: int| 0 <= i < NUM_KEYS implies (#[trigger] self.key(i)).wf() by {
                if i != idx@ {
                    assert(self.key(i) == before.key(i));
                }
            }
            assert forall|h: int| 0 <= h < NUM_GROUPS implies #[trigger] self.dirty(h) == (
            before.dirty(h) || group_changed(before, *self, h)) by {
                if h == g {
                    if !before.slot(h, s as int).same_category(state) {
                        assert(!before.slot(h, s as int).same_category(self.slot(h, s as int)));
                    }
                } else {
                    assert forall|t: int| 0 <= t < KEYS_PER_GROUP implies (#[trigger] before.slot(
                        h,
                        t,
                    )).same_category(self.slot(h, t)) by {
                        assert(self.slot(h, t) == before.slot(h, t));
                    }
                }
            }
        }
    }

    /// Applies a note event to key `idx`.
    pub fn apply(&mut self, idx: KeyIndex, event: KeyEvent)
        requires
            old(self).wf(),
        ensures
            final(self).wf(),
            final(self).last_tick == old(self).last_tick,
            final(self).key(idx@ as int) == old(self).key(idx@ as int).on_event(event),
            forall|i: int|
                0 <= i < NUM_KEYS && i != idx@ ==> #[trigger] final(self).key(i) == old(
                    self,
                ).key(i),
            dirty_rule(*old(self), *final(self)),
    {
        let current = self.get_key_state(idx);
        proof {
            assert(self.key(idx@ as int).wf());
        }
        let next = current.apply(event);
        self.set_key_state(idx, next);
    }

    /// Advances every key by `elapsed` microseconds, marking the groups in
    /// which a key changed variant.
    pub fn tick(&mut self, elapsed: u32)
        requires
            old(self).wf(),
        ensures
            final(self).wf(),
            ticked(*old(self), *final(self), elapsed),
    {
        let ghost start = *self;
        let mut i: u8 = 0;
        while i < NUM_KEYS
            invariant
                i <= NUM_KEYS,
                self.wf(),
                self.last_tick == start.last_tick,
                forall|j: int|
                    0 <= j < i ==> #[trigger] self.key(j) == start.key(j).after_elapsed(elapsed),
                forall|j: int| i <= j < NUM_KEYS ==> #[trigger] self.key(j) == start.key(j),
                dirty_rule(start, *self),
            decreases NUM_KEYS - i,
        {
            if let Ok(key_idx) = KeyIndex::try_from_u8(i) {
                let current = self.get_key_state(key_idx);
                proof {
                    assert(self.key(i as int).wf());
                }
                let ghost before = *self;
                self.set_key_state(key_idx, current.advance(elapsed));
                proof {
                    assert forall|j: int| 0 <= j < NUM_KEYS implies start.key(j) == before.key(j)
                        || #[trigger] before.key(j) == self.key(j) by {
                        if j != i {
                            assert(before.key(j) == self.key(j));
                        }
                    }
                    lemma_dirty_rule_compose(start, before, *self);
                }
            }
            i += 1;
        }
    }

    /// Takes a new reading of the free-running counter and returns the ticks
    /// elapsed since the last one. `rollover` says the counter passed its
    /// maximum since then; the caller then clears that indication and
    /// restarts the counter.
    pub fn sample(&mut self, current: u32, rollover: bool) -> (elapsed: u32)
        ensures
            elapsed == elapsed_between(old(self).last_tick, current, rollover),
            final(self).last_tick == current,
            final(self).subcontrollers == old(self).subcontrollers,
    {
        let elapsed = elapsed_ticks(self.last_tick, current, rollover);
        self.last_tick = current;
        elapsed
    }

    /// Handles a note-on (`is_on`) or note-off received on `channel`. Events
    /// on other channels and notes outside the instrument's range change
    /// nothing; the result says whether the event was applied.
    pub fn handle_note(&mut self, channel: u8, note: u8, velocity: u8, is_on: bool) -> (r: bool)
        requires
            old(self).wf(),
            velocity <= MAX_VELOCITY,
        ensures
            r == (channel == MIDI_CHANNEL && key_of_note(note as int) is Some),
            !r ==> *final(self) == *old(self),
            r ==> {
                let k = key_of_note(note as int)->0 as int;
                &&& final(self).key(k) == old(self).key(k).on_event(note_event(velocity, is_on))
                &&& forall|i: int|
                    0 <= i < NUM_KEYS && i != k ==> #[trigger] final(self).key(i) == old(
                        self,
                    ).key(i)
                &&& dirty_rule(*old(self), *final(self))
            },
            final(self).wf(),
            final(self).last_tick == old(self).last_tick,
    {
        if channel != MIDI_CHANNEL {
            return false;
        }
        match map_note_event(note, velocity, is_on) {
            Ok((idx, event)) => {
                self.apply(idx, event);
                true
            },
            Err(_) => false,
        }
    }

    /// The duty frame of group `g` if it is stale; the flag stays set until
    /// `mark_sent`, so a frame that failed to go out is offered again.
    pub fn pending_frame(&self, g: usize) -> (r: Option<[u8; FRAME_BYTES]>)
        requires
            g < NUM_GROUPS,
        ensures
            r is Some <==> self.dirty(g as int),
            r matches Some(frame) ==> is_frame_of(self.subcontrollers@[g as int].keys@, frame@),
    {
        if self.subcontrollers[g].needs_update {
            Some(encode_frame(&self.subcontrollers[g].keys))
        } else {
            None
        }
    }

    /// Records that the current frame of group `g` went out.
    pub fn mark_sent(&mut self, g: usize)
        requires
            g < NUM_GROUPS,
        ensures
            !final(self).dirty(g as int),
            forall|h: int|
                0 <= h < NUM_GROUPS && h != g ==> #[trigger] final(self).dirty(h) == old(
                    self,
                ).dirty(h),
            forall|i: int|
                0 <= i < NUM_KEYS ==> #[trigger] final(self).key(i) == old(self).key(i),
            old(self).wf() ==> final(self).wf(),
            final(self).last_tick == old(self).last_tick,
    {
        self.subcontrollers[g].needs_update = false;
        assert forall|i: int| 0 <= i < NUM_KEYS implies #[trigger] self.key(i) == old(self).key(
            i,
        ) by {
            let g = i / KEYS_PER_GROUP as int;
            assert(self.subcontrollers@[g].keys == old(self).subcontrollers@[g].keys);
        }
    }
}

} // verus!
