//! Shared editor ↔ audio state: the computer-keyboard event queue, the
//! live pattern bank, transport requests and editor selections.
//!
//! The editor pushes note events and pattern edits; the audio side
//! drains the events, follows the active pattern, takes rewind and
//! bank-switch requests, and publishes the playhead back.

use vstd::prelude::*;

use crate::pattern::{Pattern, PatternBank};

verus! {

/// Most events the queue holds; further pushes are dropped.
pub const KBD_QUEUE_CAP: usize = 128;

/// Encoding of "no step selected" in `selected_step`.
pub const NO_SELECTION: u32 = 0xFFFF_FFFF;

/// A note event from the computer keyboard. `accent` marks a
/// high-velocity press.
#[derive(Clone, Copy, Debug, PartialEq, Eq)]
pub struct KbdEvent {
    pub on: bool,
    pub note: u8,
    pub accent: bool,
}

/// `o` clamped into the keyboard's octave range `0..=8`.
pub open spec fn clamp_octave(o: int) -> i8 {
    if o < 0 {
        0
    } else if o > 8 {
        8
    } else {
        o as i8
    }
}

/// `o` clamped into the pitch window's octave range `0..=2`.
pub open spec fn clamp_view_oct(o: int) -> u8 {
    if o < 0 {
        0
    } else if o > 2 {
        2
    } else {
        o as u8
    }
}

/// State shared between the editor and the audio thread.
pub struct KbdQueue {
    /// Pending keyboard events, oldest first.
    pub events: Vec<KbdEvent>,
    /// Keyboard octave (0..=8).
    pub octave: i8,
    /// Name of the last key pressed, for diagnostics.
    pub last_key: String,
    /// Live four-slot pattern bank.
    pub bank: PatternBank,
    /// Bumped on every pattern edit so the audio side can tell when to
    /// re-snapshot.
    pub pattern_rev: u64,
    /// Bank slot the audio side is playing, as last published.
    pub active_bank_pub: u8,
    /// Pending bank switch: -1 for none, else the slot (0..=3) to switch
    /// to at the next pattern-loop boundary.
    pub pending_bank: i8,
    pub events_seen: usize,
    pub keys_down: usize,
    pub focused: bool,
    /// Sequencer run toggle.
    pub seq_run: bool,
    /// Rewind request, cleared when taken.
    pub seq_rewind: bool,
    /// Absolute playhead step published by the audio side.
    pub seq_current_step: u64,
    /// Phase within the current step published by the audio side: an
    /// `f32` in `0.0..=1.0` kept as its IEEE-754 bit pattern.
    pub seq_step_phase_bits: u32,
    /// Selected step in the editor, or `NO_SELECTION`.
    pub selected_step: u32,
    /// Pitch-window octave (0..=2).
    pub view_oct: u8,
}

impl KbdQueue {
    /// The queue's bounds hold: at most 128 pending events, octaves and
    /// bank slots in range, and well-formed patterns.
    pub open spec fn wf(&self) -> bool {
        &&& self.events@.len() <= KBD_QUEUE_CAP
        &&& 0 <= self.octave <= 8
        &&& self.view_oct <= 2
        &&& -1 <= self.pending_bank <= 3
        &&& self.bank.wf()
    }

    /// The selection as an optional step index.
    pub open spec fn selection(&self) -> Option<usize> {
        if self.selected_step == NO_SELECTION {
            None
        } else {
            Some(self.selected_step as usize)
        }
    }

    /// A fresh queue: octave 3, the default bank, no pending switch, step
    /// 0 selected, pitch window at octave 2, transport stopped.
    pub fn new() -> (q: Self)
        ensures
            q.wf(),
            q.events@.len() == 0,
            q.octave == 3,
            q.last_key@.len() == 0,
            q.bank.active == 0,
            q.bank.patterns@[0].steps@ == crate::pattern::classic_riff_steps(),
            q.pattern_rev == 0,
            q.active_bank_pub == 0,
            q.pending_bank == -1,
            q.events_seen == 0,
            q.keys_down == 0,
            !q.focused,
            !q.seq_run,
            !q.seq_rewind,
            q.seq_current_step == 0,
            q.seq_step_phase_bits == 0,
            q.selected_step == 0,
            q.view_oct == 2,
    {
        let bank = PatternBank::default();
        proof {
            assert(bank.wf());
        }
        KbdQueue {
            events: Vec::new(),
            octave: 3,
            last_key: String::new(),
            bank,
            pattern_rev: 0,
            active_bank_pub: 0,
            pending_bank: -1,
            events_seen: 0,
            keys_down: 0,
            focused: false,
            seq_run: false,
            seq_rewind: false,
            seq_current_step: 0,
            seq_step_phase_bits: 0,
            selected_step: 0,
            view_oct: 2,
        }
    }

    /// Every field but the event queue is the same in `self` and `other`.
    pub open spec fn same_but_events(&self, other: &Self) -> bool {
        &&& self.octave == other.octave
        &&& self.last_key == other.last_key
        &&& self.bank == other.bank
        &&& self.pattern_rev == other.pattern_rev
        &&& self.active_bank_pub == other.active_bank_pub
        &&& self.pending_bank == other.pending_bank
        &&& self.events_seen == other.events_seen
        &&& self.keys_down == other.keys_down
        &&& self.focused == other.focused
        &&& self.seq_run == other.seq_run
        &&& self.seq_rewind == other.seq_rewind
        &&& self.seq_current_step == other.seq_current_step
        &&& self.seq_step_phase_bits == other.seq_step_phase_bits
        &&& self.selected_step == other.selected_step
        &&& self.view_oct == other.view_oct
    }

    /// Every field but the event queue, the bank and its revision is
    /// the same in `self` and `other`.
    pub open spec fn same_but_events_and_bank(&self, other: &Self) -> bool {
        &&& self.octave == other.octave
        &&& self.last_key == other.last_key
        &&& self.active_bank_pub == other.active_bank_pub
        &&& self.pending_bank == other.pending_bank
        &&& self.events_seen == other.events_seen
        &&& self.keys_down == other.keys_down
        &&& self.focused == other.focused
        &&& self.seq_run == other.seq_run
        &&& self.seq_rewind == other.seq_rewind
        &&& self.seq_current_step == other.seq_current_step
        &&& self.seq_step_phase_bits == other.seq_step_phase_bits
        &&& self.selected_step == other.selected_step
        &&& self.view_oct == other.view_oct
    }

    /// Every field but the event queue, the selection and the published
    /// playhead step is the same in `self` and `other`.
    pub open spec fn same_but_nav(&self, other: &Self) -> bool {
        &&& self.octave == other.octave
        &&& self.last_key == other.last_key
        &&& self.bank == other.bank
        &&& self.pattern_rev == other.pattern_rev
        &&& self.active_bank_pub == other.active_bank_pub
        &&& self.pending_bank == other.pending_bank
        &&& self.events_seen == other.events_seen
        &&& self.keys_down == other.keys_down
        &&& self.focused == other.focused
        &&& self.seq_run == other.seq_run
        &&& self.seq_rewind == other.seq_rewind
        &&& self.seq_step_phase_bits == other.seq_step_phase_bits
        &&& self.view_oct == other.view_oct
    }

    /// Every field but the last key's name is the same in `self` and
    /// `other`.
    pub open spec fn same_but_last_key(&self, other: &Self) -> bool {
        &&& self.events == other.events
        &&& self.octave == other.octave
        &&& self.bank == other.bank
        &&& self.pattern_rev == other.pattern_rev
        &&& self.active_bank_pub == other.active_bank_pub
        &&& self.pending_bank == other.pending_bank
        &&& self.events_seen == other.events_seen
        &&& self.keys_down == other.keys_down
        &&& self.focused == other.focused
        &&& self.seq_run == other.seq_run
        &&& self.seq_rewind == other.seq_rewind
        &&& self.seq_current_step == other.seq_current_step
        &&& self.seq_step_phase_bits == other.seq_step_phase_bits
        &&& self.selected_step == other.selected_step
        &&& self.view_oct == other.view_oct
    }

    /// Every field but the bank and its revision is the same in `self`
    /// and `other`.
    pub open spec fn same_but_bank(&self, other: &Self) -> bool {
        &&& self.events == other.events
        &&& self.octave == other.octave
        &&& self.last_key == other.last_key
        &&& self.active_bank_pub == other.active_bank_pub
        &&& self.pending_bank == other.pending_bank
        &&& self.events_seen == other.events_seen
        &&& self.keys_down == other.keys_down
        &&& self.focused == other.focused
        &&& self.seq_run == other.seq_run
        &&& self.seq_rewind == other.seq_rewind
        &&& self.seq_current_step == other.seq_current_step
        &&& self.seq_step_phase_bits == other.seq_step_phase_bits
        &&& self.selected_step == other.selected_step
        &&& self.view_oct == other.view_oct
    }

    /// Queue a keyboard event; it is dropped when 128 are pending.
    pub fn push(&mut self, ev: KbdEvent)
        ensures
            final(self).same_but_events(old(self)),
            final(self).events@ == (if old(self).events@.len() < KBD_QUEUE_CAP {
                old(self).events@.push(ev)
            } else {
                old(self).events@
            }),
            old(self).wf() ==> final(self).wf(),
    {
        if self.events.len() < KBD_QUEUE_CAP {
            self.events.push(ev);
        }
    }

    /// Move every pending event, oldest first, onto the end of `out`.
    pub fn drain_into(&mut self, out: &mut Vec<KbdEvent>)
        ensures
            final(out)@ == old(out)@ + old(self).events@,
            final(self).events@.len() == 0,
            final(self).same_but_events(old(self)),
            old(self).wf() ==> final(self).wf(),
    {
        let n = self.events.len();
        let ghost start = out@;
        for i in 0..n
            invariant
                n == self.events@.len(),
                self.events@ == old(self).events@,
                out@ == start + old(self).events@.take(i as int),
        {
            out.push(self.events[i]);
            assert(old(self).events@.take(i + 1) =~= old(self).events@.take(i as int).push(
                old(self).events@[i as int],
            ));
        }
        assert(old(self).events@.take(n as int) =~= old(self).events@);
        self.events.clear();
    }

    pub fn octave(&self) -> (o: i8)
        ensures
            o == self.octave,
    {
        self.octave
    }

    /// Set the keyboard octave, clamped into `0..=8`.
    pub fn set_octave(&mut self, o: i8)
        ensures
            *final(self) == (KbdQueue { octave: clamp_octave(o as int), ..*old(self) }),
            old(self).wf() ==> final(self).wf(),
    {
        self.octave = if o < 0 {
            0
        } else if o > 8 {
            8
        } else {
            o
        };
    }

    /// Record the name of the last key pressed.
    pub fn mark_key(&mut self, s: &str)
        ensures
            final(self).last_key@ == s@,
            final(self).same_but_last_key(old(self)),
            old(self).wf() ==> final(self).wf(),
    {
        self.last_key = s.to_owned();
    }

    pub fn last_key(&self) -> (s: String)
        ensures
            s@ == self.last_key@,
    {
        self.last_key.clone()
    }

    /// Publish the editor's input diagnostics.
    pub fn set_diag(&mut self, events: usize, keys_down: usize, focused: bool)
        ensures
            *final(self) == (KbdQueue { events_seen: events, keys_down, focused, ..*old(self) }),
            old(self).wf() ==> final(self).wf(),
    {
        self.events_seen = events;
        self.keys_down = keys_down;
        self.focused = focused;
    }

    pub fn diag(&self) -> (d: (usize, usize, bool))
        ensures
            d == (self.events_seen, self.keys_down, self.focused),
    {
        (self.events_seen, self.keys_down, self.focused)
    }

    /// Flip the sequencer's run state and return the new one. Starting
    /// requests a rewind and clears the selection; stopping selects
    /// step 0, the rewind target.
    pub fn toggle_seq_run(&mut self) -> (running: bool)
        ensures
            running == !old(self).seq_run,
            *final(self) == (KbdQueue {
                seq_run: running,
                seq_rewind: if running {
                    true
                } else {
                    old(self).seq_rewind
                },
                selected_step: if running {
                    NO_SELECTION
                } else {
                    0
                },
                ..*old(self)
            }),
            old(self).wf() ==> final(self).wf(),
    {
        let next = !self.seq_run;
        self.seq_run = next;
        if next {
            self.seq_rewind = true;
            self.selected_step = NO_SELECTION;
        } else {
            self.selected_step = 0;
        }
        next
    }

    pub fn request_rewind(&mut self)
        ensures
            *final(self) == (KbdQueue { seq_rewind: true, ..*old(self) }),
            old(self).wf() ==> final(self).wf(),
    {
        self.seq_rewind = true;
    }

    /// Take the pending rewind request, clearing it.
    pub fn take_rewind(&mut self) -> (r: bool)
        ensures
            r == old(self).seq_rewind,
            *final(self) == (KbdQueue { seq_rewind: false, ..*old(self) }),
            old(self).wf() ==> final(self).wf(),
    {
        let r = self.seq_rewind;
        self.seq_rewind = false;
        r
    }

    pub fn is_seq_running(&self) -> (r: bool)
        ensures
            r == self.seq_run,
    {
        self.seq_run
    }

    pub fn set_current_step(&mut self, step: u64)
        ensures
            *final(self) == (KbdQueue { seq_current_step: step, ..*old(self) }),
            old(self).wf() ==> final(self).wf(),
    {
        self.seq_current_step = step;
    }

    pub fn current_step(&self) -> (s: u64)
        ensures
            s == self.seq_current_step,
    {
        self.seq_current_step
    }

    /// Publish the step phase, given as the bit pattern of an `f32`.
    pub fn set_step_phase_bits(&mut self, bits: u32)
        ensures
            *final(self) == (KbdQueue { seq_step_phase_bits: bits, ..*old(self) }),
            old(self).wf() ==> final(self).wf(),
    {
        self.seq_step_phase_bits = bits;
    }

    pub fn step_phase_bits(&self) -> (b: u32)
        ensures
            b == self.seq_step_phase_bits,
    {
        self.seq_step_phase_bits
    }

    /// A copy of the active pattern.
    pub fn pattern_snapshot(&self) -> (p: Pattern)
        ensures
            p == self.bank.patterns@[self.bank.active_index()],
    {
        *self.bank.active()
    }

    /// A copy of the whole bank.
    pub fn bank_snapshot(&self) -> (b: PatternBank)
        ensures
            b == self.bank,
    {
        self.bank
    }

    /// Open the active pattern for an edit and bump the revision.
    pub fn edit_pattern(&mut self) -> (p: &mut Pattern)
        ensures
            *p == old(self).bank.patterns@[old(self).bank.active_index()],
            final(self).bank.patterns@ == old(self).bank.patterns@.update(
                old(self).bank.active_index(),
                *final(p),
            ),
            final(self).bank.active == old(self).bank.active,
            final(self).pattern_rev == old(self).pattern_rev.wrapping_add(1),
            final(self).same_but_bank(old(self)),
    {
        self.pattern_rev = self.pattern_rev.wrapping_add(1);
        self.bank.active_mut()
    }

    /// Replace the whole bank (restoring persisted state), publish its
    /// active slot and bump the revision.
    pub fn replace_bank(&mut self, b: PatternBank)
        requires
            b.wf(),
        ensures
            *final(self) == (KbdQueue {
                bank: b,
                active_bank_pub: b.active,
                pattern_rev: old(self).pattern_rev.wrapping_add(1),
                ..*old(self)
            }),
            old(self).wf() ==> final(self).wf(),
    {
        self.bank = b;
        self.active_bank_pub = b.active;
        self.pattern_rev = self.pattern_rev.wrapping_add(1);
    }

    /// Queue a switch to bank slot `slot` (modulo 4) for the next
    /// pattern-loop boundary.
    pub fn queue_bank(&mut self, slot: u8)
        ensures
            *final(self) == (KbdQueue { pending_bank: queued_slot(slot), ..*old(self) }),
            old(self).wf() ==> final(self).wf(),
    {
        self.pending_bank = (slot % 4) as i8;
    }

    /// Take the queued bank switch, if any, clearing it.
    pub fn take_pending_bank(&mut self) -> (r: Option<u8>)
        ensures
            r == pending_slot(old(self).pending_bank),
            *final(self) == (KbdQueue { pending_bank: -1i8, ..*old(self) }),
            old(self).wf() ==> final(self).wf(),
    {
        let v = self.pending_bank;
        self.pending_bank = -1;
        if v >= 0 {
            Some(v as u8)
        } else {
            None
        }
    }

    /// Switch the bank to slot `slot` (modulo 4), publish it, and return
    /// a copy of the newly active pattern for the audio side.
    pub fn swap_active_bank(&mut self, slot: u8) -> (p: Pattern)
        ensures
            *final(self) == (KbdQueue {
                bank: PatternBank { active: slot % 4, ..old(self).bank },
                active_bank_pub: slot % 4,
                ..*old(self)
            }),
            p == old(self).bank.patterns@[(slot % 4) as int],
            old(self).wf() ==> final(self).wf(),
    {
        self.bank.set_active(slot);
        self.active_bank_pub = self.bank.active;
        *self.bank.active()
    }

    /// The bank slot last published as playing.
    pub fn current_bank(&self) -> (b: u8)
        ensures
            b == self.active_bank_pub,
    {
        self.active_bank_pub
    }

    /// The queued bank switch, if any, left in place.
    pub fn queued_bank(&self) -> (r: Option<u8>)
        ensures
            r == pending_slot(self.pending_bank),
    {
        let v = self.pending_bank;
        if v >= 0 {
            Some(v as u8)
        } else {
            None
        }
    }

    pub fn pattern_rev(&self) -> (r: u64)
        ensures
            r == self.pattern_rev,
    {
        self.pattern_rev
    }

    /// The selected step, if any.
    pub fn selected_step(&self) -> (s: Option<usize>)
        ensures
            s == self.selection(),
    {
        let v = self.selected_step;
        if v == NO_SELECTION {
            None
        } else {
            Some(v as usize)
        }
    }

    /// Select step `i`, stored as a `u32`.
    pub fn set_selected_step(&mut self, i: usize)
        ensures
            *final(self) == (KbdQueue { selected_step: i as u32, ..*old(self) }),
            old(self).wf() ==> final(self).wf(),
    {
        self.selected_step = i as u32;
    }

    pub fn clear_selected_step(&mut self)
        ensures
            *final(self) == (KbdQueue { selected_step: NO_SELECTION, ..*old(self) }),
            final(self).selection() is None,
            old(self).wf() ==> final(self).wf(),
    {
        self.selected_step = NO_SELECTION;
    }

    pub fn view_oct(&self) -> (o: u8)
        ensures
            o == self.view_oct,
    {
        self.view_oct
    }

    /// Set the pitch-window octave, capped at 2.
    pub fn set_view_oct(&mut self, o: u8)
        ensures
            *final(self) == (KbdQueue { view_oct: clamp_view_oct(o as int), ..*old(self) }),
            old(self).wf() ==> final(self).wf(),
    {
        self.view_oct = if o > 2 {
            2
        } else {
            o
        };
    }

    /// Move the pitch window by `delta` octaves, clamped into `0..=2`.
    pub fn nudge_view_oct(&mut self, delta: i8)
        requires
            old(self).view_oct <= 2,
        ensures
            *final(self) == (KbdQueue { view_oct: clamp_view_oct(old(self).view_oct + delta), ..*old(self) }),
            old(self).wf() ==> final(self).wf(),
    {
        let next: i16 = self.view_oct as i16 + delta as i16;
        self.view_oct = if next < 0 {
            0
        } else if next > 2 {
            2
        } else {
            next as u8
        };
    }
}

/// The value `queue_bank(slot)` stores: the slot modulo 4.
pub open spec fn queued_slot(slot: u8) -> i8 {
    (slot % 4) as i8
}

/// The slot a stored pending value denotes: none when negative.
pub open spec fn pending_slot(v: i8) -> Option<u8> {
    if v >= 0 {
        Some(v as u8)
    } else {
        None
    }
}

/// A queued bank switch is taken exactly once: after `queue_bank(slot)`
/// the next `take_pending_bank` yields `slot % 4`, and the one after it
/// yields nothing.
pub proof fn lemma_bank_switch_taken_once(slot: u8)
    ensures
        pending_slot(queued_slot(slot)) == Some(slot % 4),
        pending_slot(-1i8) is None,
{
}

} // verus!
