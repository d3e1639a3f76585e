//! The sequencer's decision core: turns clock ticks into voice actions.
//!
//! The sample clock itself lives with the audio engine. Each sample the
//! engine asks `tick_begin` whether the sequencer can answer without
//! the clock (it is stopped, or it is the first sample of a running
//! phase and step 0 must be emitted); otherwise it advances the clock
//! and hands the resulting `ClockTick` to `tick_end`.

use vstd::prelude::*;

use crate::pattern::{Pattern, StepEvent};

verus! {

/// Per-sample clock result.
#[derive(Clone, Copy, Debug, PartialEq, Eq)]
pub struct ClockTick {
    /// `Some(step_index)` when the playhead has just crossed into a new
    /// step. Monotonically increasing; never wraps.
    pub step: Option<u64>,
    /// Whether the current step's gate closes on this tick.
    pub gate_off: bool,
}

impl Default for ClockTick {
    fn default() -> (t: Self)
        ensures
            t.step is None,
            !t.gate_off,
    {
        ClockTick { step: None, gate_off: false }
    }
}

/// How the voice should be (re)started.
#[derive(Clone, Copy, Debug, PartialEq, Eq)]
pub enum SeqTrigger {
    /// Hard retrigger (new note).
    Hard { semitone: u8, accent: bool },
    /// Slide-legato into the new note.
    Slide { semitone: u8, accent: bool },
}

/// What the caller should do to the voice on this sample.
#[derive(Clone, Copy, Debug, PartialEq, Eq)]
pub struct SeqTick {
    /// Release the amp envelope.
    pub gate_off: bool,
    /// Retrigger or glide the voice. `None` leaves it alone.
    pub trigger: Option<SeqTrigger>,
    /// `Some(absolute_step)` on the sample where the playhead just
    /// crossed into a new step.
    pub boundary: Option<u64>,
}

impl Default for SeqTick {
    fn default() -> (t: Self)
        ensures
            t == quiet_tick(),
    {
        SeqTick { gate_off: false, trigger: None, boundary: None }
    }
}

/// The tick on which nothing happens.
pub open spec fn quiet_tick() -> SeqTick {
    SeqTick { gate_off: false, trigger: None, boundary: None }
}

/// Pattern slot that absolute step `abs` lands on.
pub open spec fn slot_of(p: Pattern, abs: int) -> int {
    abs % p.active_len()
}

/// The trigger for landing on absolute step `abs`, given whether a note
/// has already been triggered in this running phase: the pattern's
/// event, with a slide demoted to a hard trigger when nothing has
/// played yet.
pub open spec fn trigger_for(p: Pattern, abs: int, has_triggered: bool) -> Option<SeqTrigger> {
    match p.event_spec(slot_of(p, abs)) {
        StepEvent::Nothing => None,
        StepEvent::Trigger { semitone, accent } => Some(SeqTrigger::Hard { semitone, accent }),
        StepEvent::Slide { semitone, accent } => if has_triggered {
            Some(SeqTrigger::Slide { semitone, accent })
        } else {
            Some(SeqTrigger::Hard { semitone, accent })
        },
    }
}

/// Whether a note has been triggered once absolute step `abs` was
/// emitted: it had been already, or this step is not a rest.
pub open spec fn triggered_after(p: Pattern, abs: int, has_triggered: bool) -> bool {
    has_triggered || !(p.event_spec(slot_of(p, abs)) is Nothing)
}

/// Whether the step at absolute index `abs` bridges into the next one
/// (a non-rest with its slide flag set), so that its gate stays open.
pub open spec fn bridges(p: Pattern, abs: int) -> bool {
    let s = p.steps@[slot_of(p, abs)];
    s.slide && !s.rest
}

/// The sequencer's state besides the clock: the pattern it plays, and
/// two flags of the current running phase.
pub struct Sequencer {
    pub pattern: Pattern,
    /// Step 0 of the current running phase has been emitted.
    pub bootstrapped: bool,
    /// A non-rest step has been triggered during the current running
    /// phase, so a slide has a ringing note to glide from.
    pub has_triggered: bool,
}

impl Sequencer {
    /// Step 0 of the current running phase has been emitted.
    pub open spec fn is_bootstrapped(&self) -> bool {
        self.bootstrapped
    }

    /// A note has been triggered during the current running phase.
    pub open spec fn has_triggered(&self) -> bool {
        self.has_triggered
    }

    /// A sequencer playing the factory riff, with a clean running phase.
    pub fn new() -> (s: Self)
        ensures
            s.pattern.steps@ == crate::pattern::classic_riff_steps(),
            s.pattern.length == 16,
            s.pattern.swing_bits == 0,
            !s.is_bootstrapped(),
            !s.has_triggered(),
    {
        Sequencer { pattern: Pattern::default_classic_riff(), bootstrapped: false, has_triggered: false }
    }

    /// Forget the running phase, so that the next running sample starts
    /// over by emitting step 0 with nothing to slide from.
    pub fn reset(&mut self)
        ensures
            final(self).pattern == old(self).pattern,
            !final(self).is_bootstrapped(),
            !final(self).has_triggered(),
    {
        self.bootstrapped = false;
        self.has_triggered = false;
    }

    /// The tick for landing on `absolute_step`: the pattern's event for
    /// that slot, with a slide demoted to a hard trigger when no note has
    /// been triggered yet in this running phase.
    pub fn emit_for_step(&mut self, absolute_step: u64) -> (t: SeqTick)
        requires
            old(self).pattern.wf(),
        ensures
            t == (SeqTick {
                gate_off: false,
                trigger: trigger_for(old(self).pattern, absolute_step as int, old(self).has_triggered()),
                boundary: Some(absolute_step),
            }),
            final(self).pattern == old(self).pattern,
            final(self).is_bootstrapped() == old(self).is_bootstrapped(),
            final(self).has_triggered() == triggered_after(
                old(self).pattern,
                absolute_step as int,
                old(self).has_triggered(),
            ),
    {
        let pat_len: u64 = if self.pattern.length == 0 {
            1
        } else {
            self.pattern.length as u64
        };
        let pat_idx = (absolute_step % pat_len) as usize;
        let raw = self.pattern.event_at(pat_idx);
        proof {
            vstd::arithmetic::div_mod::lemma_small_mod(pat_idx as nat, pat_len as nat);
        }
        let trigger = match raw {
            StepEvent::Nothing => None,
            StepEvent::Trigger { semitone, accent } => {
                self.has_triggered = true;
                Some(SeqTrigger::Hard { semitone, accent })
            },
            StepEvent::Slide { semitone, accent } => {
                if self.has_triggered {
                    Some(SeqTrigger::Slide { semitone, accent })
                } else {
                    self.has_triggered = true;
                    Some(SeqTrigger::Hard { semitone, accent })
                }
            },
        };
        SeqTick { gate_off: false, trigger, boundary: Some(absolute_step) }
    }

    /// First half of a sample. While the clock is stopped the sequencer
    /// answers a quiet tick and forgets the running phase, so the next
    /// start emits step 0 again with nothing to slide from. On the first running sample it emits the step
    /// under the playhead (`current_step`) without advancing the clock.
    /// Otherwise it answers `None`: the caller advances the clock and
    /// passes its tick to `tick_end`.
    pub fn tick_begin(&mut self, clock_running: bool, current_step: u64) -> (t: Option<SeqTick>)
        requires
            old(self).pattern.wf(),
        ensures
            final(self).pattern == old(self).pattern,
            !clock_running ==> t == Some(quiet_tick()) && !final(self).is_bootstrapped()
                && !final(self).has_triggered(),
            clock_running && !old(self).is_bootstrapped() ==> t == Some(
                SeqTick {
                    gate_off: false,
                    trigger: trigger_for(old(self).pattern, current_step as int, old(self).has_triggered()),
                    boundary: Some(current_step),
                },
            ) && final(self).is_bootstrapped() && final(self).has_triggered() == triggered_after(
                old(self).pattern,
                current_step as int,
                old(self).has_triggered(),
            ),
            clock_running && old(self).is_bootstrapped() ==> t is None && final(self).is_bootstrapped()
                && final(self).has_triggered() == old(self).has_triggered(),
    {
        if !clock_running {
            self.bootstrapped = false;
            self.has_triggered = false;
            return Some(SeqTick { gate_off: false, trigger: None, boundary: None });
        }
        if !self.bootstrapped {
            self.bootstrapped = true;
            return Some(self.emit_for_step(current_step));
        }
        None
    }

    /// Second half of a sample, after the clock advanced and reported
    /// `t`; `current_step` is the clock's step after the advance.
    ///
    /// A gate-off closes the step that is ending: the one just left when
    /// this sample also crossed a boundary, else the current one. It is
    /// passed on unless that step bridges into the next (a non-rest with
    /// its slide flag set). A boundary emits the new step's trigger.
    pub fn tick_end(&mut self, t: ClockTick, current_step: u64) -> (out: SeqTick)
        requires
            old(self).pattern.wf(),
        ensures
            final(self).pattern == old(self).pattern,
            final(self).is_bootstrapped() == old(self).is_bootstrapped(),
            out.gate_off == (t.gate_off && !bridges(
                old(self).pattern,
                if t.step is Some && current_step > 0 {
                    current_step - 1
                } else {
                    current_step as int
                },
            )),
            out.boundary == t.step,
            match t.step {
                Some(s) => out.trigger == trigger_for(old(self).pattern, s as int, old(self).has_triggered())
                    && final(self).has_triggered() == triggered_after(
                    old(self).pattern,
                    s as int,
                    old(self).has_triggered(),
                ),
                None => out.trigger is None && final(self).has_triggered() == old(self).has_triggered(),
            },
    {
        let mut out = SeqTick { gate_off: false, trigger: None, boundary: None };
        if t.gate_off {
            let closing_abs = if t.step.is_some() {
                current_step.saturating_sub(1)
            } else {
                current_step
            };
            let pat_len: u64 = if self.pattern.length == 0 {
                1
            } else {
                self.pattern.length as u64
            };
            let pat_idx = (closing_abs % pat_len) as usize;
            let ending = self.pattern.steps[pat_idx];
            let bridge = ending.slide && !ending.rest;
            if !bridge {
                out.gate_off = true;
            }
        }
        if let Some(new_step) = t.step {
            let step_tick = self.emit_for_step(new_step);
            out.trigger = step_tick.trigger;
            out.boundary = Some(new_step);
        }
        out
    }
}

/// The first note of a running phase is never a slide: with nothing
/// triggered yet, a slide flag yields a hard trigger.
pub proof fn lemma_first_note_is_hard(p: Pattern, abs: int)
    ensures
        !(trigger_for(p, abs, false) matches Some(SeqTrigger::Slide { .. })),
{
}

/// Landing on a step triggers the voice exactly when that step is not a
/// rest, whatever happened before in the running phase.
pub proof fn lemma_triggers_iff_audible(p: Pattern, abs: int, has_triggered: bool)
    ensures
        (trigger_for(p, abs, has_triggered) is Some) == !p.steps@[slot_of(p, abs)].rest,
{
    let len = p.active_len();
    vstd::arithmetic::div_mod::lemma_mod_bound(abs, len);
    vstd::arithmetic::div_mod::lemma_small_mod((abs % len) as nat, len as nat);
}


/// Any audible step leaves a note ringing: after landing on a step that
/// is not a rest, whatever its event (a hard trigger, a slide, or a
/// slide demoted to a hard trigger), the running phase counts a note as
/// triggered; landing on a rest changes nothing.
pub proof fn lemma_audible_step_rings(p: Pattern, abs: int, has_triggered: bool)
    ensures
        triggered_after(p, abs, has_triggered) == (has_triggered || !p.steps@[slot_of(p, abs)].rest),
{
    let len = p.active_len();
    vstd::arithmetic::div_mod::lemma_mod_bound(abs, len);
    vstd::arithmetic::div_mod::lemma_small_mod((abs % len) as nat, len as nat);
}

/// A legato line glides from its first note on: when a non-rest step
/// with its slide flag set is followed by a non-rest step, landing on
/// the second after the first yields a slide to it, in any running
/// phase, also when the first note was itself a demoted slide.
pub proof fn lemma_legato_glides(p: Pattern, abs: int, has_triggered: bool)
    requires
        abs >= 0,
        !p.steps@[slot_of(p, abs)].rest,
        p.steps@[slot_of(p, abs)].slide,
        !p.steps@[slot_of(p, abs + 1)].rest,
    ensures
        trigger_for(p, abs + 1, triggered_after(p, abs, has_triggered)) == Some(
            SeqTrigger::Slide {
                semitone: p.steps@[slot_of(p, abs + 1)].semitone,
                accent: p.steps@[slot_of(p, abs + 1)].accent,
            },
        ),
{
    let len = p.active_len();
    lemma_audible_step_rings(p, abs, has_triggered);
    let s0 = slot_of(p, abs);
    let s1 = slot_of(p, abs + 1);
    vstd::arithmetic::div_mod::lemma_mod_bound(abs, len);
    vstd::arithmetic::div_mod::lemma_mod_bound(abs + 1, len);
    vstd::arithmetic::div_mod::lemma_small_mod(s1 as nat, len as nat);
    vstd::arithmetic::div_mod::lemma_add_mod_noop(abs, 1, len);
    // The step before slot `s1` is slot `s0`.
    vstd::arithmetic::div_mod::lemma_add_mod_noop(s1, len - 1, len);
    vstd::arithmetic::div_mod::lemma_add_mod_noop(abs + 1, len - 1, len);
    vstd::arithmetic::div_mod::lemma_mod_multiples_vanish(1, abs, len);
    assert(abs + 1 + (len - 1) == abs + len);
    assert(p.prev_index(s1) == s0);
}

} // verus!
