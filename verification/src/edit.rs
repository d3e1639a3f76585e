//! Pattern edits made from the editor, and step navigation.
//!
//! Every edit keeps the pattern's length and swing and touches only the
//! slot it names (pitch clamps use the editor's range `24..=60`).

use vstd::prelude::*;

use crate::kbd::{KbdEvent, KbdQueue, KBD_QUEUE_CAP};
use crate::keys::{action_of, entry_note, live_note, step_entry_note, keyboard_note, KeyAction};
use crate::pattern::{clamp_edit_semi, rotated_left, rotated_right, walk_len, Pattern, Step, MAX_PATTERN_LEN};

verus! {

/// The pitch a step gets when un-rested with an out-of-range note.
pub const INSERT_SEMI: u8 = 36;

/// The pitch a step gets when un-rested: kept when inside `24..=60`,
/// else 36.
pub open spec fn inserted_semi(semi: u8) -> u8 {
    if semi > 60 || semi < 24 {
        36
    } else {
        semi
    }
}

impl Pattern {
    /// Turn every slot into a rest.
    pub fn clear_all(&mut self)
        ensures
            final(self).length == old(self).length,
            final(self).swing_bits == old(self).swing_bits,
            forall|i: int|
                0 <= i < 16 ==> #[trigger] final(self).steps@[i] == (Step {
                    rest: true,
                    ..old(self).steps@[i]
                }),
    {
        for i in 0..MAX_PATTERN_LEN
            invariant
                self.length == old(self).length,
                self.swing_bits == old(self).swing_bits,
                forall|j: int|
                    0 <= j < i ==> #[trigger] self.steps@[j] == (Step {
                        rest: true,
                        ..old(self).steps@[j]
                    }),
                forall|j: int| i <= j < 16 ==> #[trigger] self.steps@[j] == old(self).steps@[j],
        {
            let mut s = self.steps[i];
            s.rest = true;
            self.steps[i] = s;
        }
    }

    /// Un-rest slot `i` and flip its accent flag.
    pub fn toggle_accent(&mut self, i: usize)
        requires
            i < 16,
        ensures
            final(self).length == old(self).length,
            final(self).swing_bits == old(self).swing_bits,
            final(self).steps@ == old(self).steps@.update(
                i as int,
                Step { rest: false, accent: !old(self).steps@[i as int].accent, ..old(self).steps@[i as int] },
            ),
    {
        let mut s = self.steps[i];
        s.rest = false;
        s.accent = !s.accent;
        self.steps[i] = s;
    }

    /// Un-rest slot `i` and flip its slide flag.
    pub fn toggle_slide(&mut self, i: usize)
        requires
            i < 16,
        ensures
            final(self).length == old(self).length,
            final(self).swing_bits == old(self).swing_bits,
            final(self).steps@ == old(self).steps@.update(
                i as int,
                Step { rest: false, slide: !old(self).steps@[i as int].slide, ..old(self).steps@[i as int] },
            ),
    {
        let mut s = self.steps[i];
        s.rest = false;
        s.slide = !s.slide;
        self.steps[i] = s;
    }

    /// Flip slot `i`'s rest flag.
    pub fn toggle_rest(&mut self, i: usize)
        requires
            i < 16,
        ensures
            final(self).length == old(self).length,
            final(self).swing_bits == old(self).swing_bits,
            final(self).steps@ == old(self).steps@.update(
                i as int,
                Step { rest: !old(self).steps@[i as int].rest, ..old(self).steps@[i as int] },
            ),
    {
        let mut s = self.steps[i];
        s.rest = !s.rest;
        self.steps[i] = s;
    }

    /// Turn slot `i` into a rest (DEL).
    pub fn delete_step(&mut self, i: usize)
        requires
            i < 16,
        ensures
            final(self).length == old(self).length,
            final(self).swing_bits == old(self).swing_bits,
            final(self).steps@ == old(self).steps@.update(
                i as int,
                Step { rest: true, ..old(self).steps@[i as int] },
            ),
    {
        let mut s = self.steps[i];
        s.rest = true;
        self.steps[i] = s;
    }

    /// Make slot `i` audible (INS); a pitch outside `24..=60` becomes 36.
    pub fn insert_step(&mut self, i: usize)
        requires
            i < 16,
        ensures
            final(self).length == old(self).length,
            final(self).swing_bits == old(self).swing_bits,
            final(self).steps@ == old(self).steps@.update(
                i as int,
                Step {
                    rest: false,
                    semitone: inserted_semi(old(self).steps@[i as int].semitone),
                    ..old(self).steps@[i as int]
                },
            ),
    {
        let mut s = self.steps[i];
        s.rest = false;
        if s.semitone > 60 || s.semitone < 24 {
            s.semitone = INSERT_SEMI;
        }
        self.steps[i] = s;
    }

    /// Set slot `i` to pitch `semi` clamped into `24..=60`, and make it
    /// audible.
    pub fn set_step_pitch(&mut self, i: usize, semi: i32)
        requires
            i < 16,
        ensures
            final(self).length == old(self).length,
            final(self).swing_bits == old(self).swing_bits,
            final(self).steps@ == old(self).steps@.update(
                i as int,
                Step { rest: false, semitone: clamp_edit_semi(semi as int), ..old(self).steps@[i as int] },
            ),
    {
        let mut s = self.steps[i];
        s.semitone = if semi < 24 {
            24
        } else if semi > 60 {
            60
        } else {
            semi as u8
        };
        s.rest = false;
        self.steps[i] = s;
    }

    /// Move slot `i`'s pitch by `dp` semitones (a rest counts as 36),
    /// clamped into `24..=60`, make it audible, and return the new pitch.
    pub fn nudge_step_pitch(&mut self, i: usize, dp: i32) -> (n: u8)
        requires
            i < 16,
        ensures
            n == clamp_edit_semi(
                (if old(self).steps@[i as int].rest {
                    36
                } else {
                    old(self).steps@[i as int].semitone as int
                }) + dp,
            ),
            final(self).length == old(self).length,
            final(self).swing_bits == old(self).swing_bits,
            final(self).steps@ == old(self).steps@.update(
                i as int,
                Step { rest: false, semitone: n, ..old(self).steps@[i as int] },
            ),
    {
        let mut s = self.steps[i];
        let cur: i64 = if s.rest {
            36
        } else {
            s.semitone as i64
        };
        let next: i64 = cur + dp as i64;
        let n: u8 = if next < 24 {
            24
        } else if next > 60 {
            60
        } else {
            next as u8
        };
        s.semitone = n;
        s.rest = false;
        self.steps[i] = s;
        n
    }

    /// Move slot `i`'s pitch by `delta` semitones, clamped into
    /// `24..=60`; its rest flag is kept (the OCT buttons).
    pub fn shift_step_pitch(&mut self, i: usize, delta: i32)
        requires
            i < 16,
        ensures
            final(self).length == old(self).length,
            final(self).swing_bits == old(self).swing_bits,
            final(self).steps@ == old(self).steps@.update(
                i as int,
                Step {
                    semitone: clamp_edit_semi(old(self).steps@[i as int].semitone + delta),
                    ..old(self).steps@[i as int]
                },
            ),
    {
        let mut s = self.steps[i];
        let next: i64 = s.semitone as i64 + delta as i64;
        s.semitone = if next < 24 {
            24
        } else if next > 60 {
            60
        } else {
            next as u8
        };
        self.steps[i] = s;
    }

    /// Shorten the pattern by one step, down to 1 (LEN −). Nothing
    /// happens when the length, read in `1..=16`, is already 1.
    pub fn shorten(&mut self)
        ensures
            final(self).steps == old(self).steps,
            final(self).swing_bits == old(self).swing_bits,
            final(self).length == (if old(self).length > 1 {
                old(self).length - 1
            } else {
                old(self).length as int
            }),
    {
        if self.length > 1 {
            self.length = self.length - 1;
        }
    }

    /// Lengthen the pattern by one step, up to 16 (LEN +). Nothing
    /// happens when the length, read in `1..=16`, is already 16.
    pub fn lengthen(&mut self)
        ensures
            final(self).steps == old(self).steps,
            final(self).swing_bits == old(self).swing_bits,
            final(self).length == (if old(self).length < 16 {
                if old(self).length == 0 {
                    1
                } else {
                    old(self).length + 1
                }
            } else {
                old(self).length as int
            }),
    {
        if self.length < 16 {
            self.length = if self.length == 0 {
                1
            } else {
                self.length + 1
            };
        }
    }

    /// Take all 16 slots from `from`, keeping this pattern's length and
    /// swing.
    pub fn adopt_steps(&mut self, from: &Pattern)
        ensures
            final(self).steps == from.steps,
            final(self).length == old(self).length,
            final(self).swing_bits == old(self).swing_bits,
    {
        self.steps = from.steps;
    }
}

/// Index of the step under the playhead in a pattern of stored length
/// `length`.
pub open spec fn playhead_index(current_step: u64, length: u8) -> int {
    current_step as int % walk_len(length)
}

/// The step the BACK/STEP/NEXT buttons start from: the selection, or
/// the step under the playhead.
pub open spec fn nav_origin(selected: Option<usize>, current_step: u64, length: u8) -> int {
    match selected {
        Some(s) => s as int,
        None => playhead_index(current_step, length),
    }
}

/// The step the STEP button selects and auditions.
pub fn audition_index(selected: Option<usize>, current_step: u64, length: u8) -> (i: usize)
    ensures
        i == nav_origin(selected, current_step, length),
{
    match selected {
        Some(s) => s,
        None => {
            let len: u64 = if length == 0 {
                1
            } else {
                length as u64
            };
            (current_step % len) as usize
        },
    }
}

/// The step before the origin, wrapping from 0 to the last active
/// step (BACK).
pub fn step_back(selected: Option<usize>, current_step: u64, length: u8) -> (i: usize)
    ensures
        i == (if nav_origin(selected, current_step, length) == 0 {
            walk_len(length) - 1
        } else {
            nav_origin(selected, current_step, length) - 1
        }),
{
    let cur = audition_index(selected, current_step, length);
    if cur == 0 {
        if length == 0 {
            0
        } else {
            (length - 1) as usize
        }
    } else {
        cur - 1
    }
}

/// The step after the origin, wrapping on the active length
/// (WRITE/NEXT).
pub fn step_forward(selected: Option<usize>, current_step: u64, length: u8) -> (i: usize)
    requires
        nav_origin(selected, current_step, length) < usize::MAX,
    ensures
        i == (nav_origin(selected, current_step, length) + 1) % walk_len(length),
        i < walk_len(length),
{
    let cur = audition_index(selected, current_step, length);
    let len: usize = if length == 0 {
        1
    } else {
        length as usize
    };
    (cur + 1) % len
}

/// Move selection `sel` by `nav` steps, wrapping on the active length
/// (Euclidean remainder, so moving left from 0 lands on the last step).
pub fn nav_wrap(sel: usize, nav: i32, length: u8) -> (i: usize)
    requires
        sel <= i32::MAX,
    ensures
        i == (sel + nav) % walk_len(length),
        i < walk_len(length),
{
    let len: i64 = if length == 0 {
        1
    } else {
        length as i64
    };
    let v: i64 = sel as i64 + nav as i64;
    if v >= 0 {
        (v % len) as usize
    } else {
        let m: i64 = (-v - 1) % len;
        proof {
            let vi = v as int;
            let l = len as int;
            vstd::arithmetic::div_mod::lemma_fundamental_div_mod(-vi - 1, l);
            vstd::arithmetic::div_mod::lemma_mod_bound(-vi - 1, l);
            let q = (-vi - 1) / l;
            assert(vi == l * (-q - 1) + (l - 1 - m)) by (nonlinear_arith)
                requires
                    -vi - 1 == l * q + m,
            ;
            vstd::arithmetic::div_mod::lemma_fundamental_div_mod_converse(
                vi,
                l,
                -q - 1,
                l - 1 - m,
            );
        }
        (len - 1 - m) as usize
    }
}

/// The note event that auditions step `s`: none for a rest, else a
/// note-on accented as the step is.
pub open spec fn audition_of(s: Step) -> Option<KbdEvent> {
    if s.rest {
        None
    } else {
        Some(KbdEvent { on: true, note: s.semitone, accent: s.accent })
    }
}

pub fn audition_event(s: Step) -> (e: Option<KbdEvent>)
    ensures
        e == audition_of(s),
{
    if s.rest {
        None
    } else {
        Some(KbdEvent { on: true, note: s.semitone, accent: s.accent })
    }
}

/// Fraction of 2^24 below which a randomized step sounds: the `f32`
/// 0.65 scaled by 2^24 (exactly 10905190).
pub const RANDOM_DENSITY_Q24: u32 = 10905190;

/// Fraction of 2^24 below which a randomized note is accented: the
/// `f32` 0.35 scaled by 2^24 (5872025.5), rounded up.
pub const RANDOM_ACCENT_Q24: u32 = 5872026;

/// Fraction of 2^24 below which a randomized note slides: 0.25 of 2^24.
pub const RANDOM_SLIDE_Q24: u32 = 4194304;

/// Root note of the randomizer: C2.
pub const RANDOM_ROOT: u8 = 36;

/// Key presses the step grid reads while a step is selected.
#[derive(Clone, Copy, Debug, PartialEq, Eq)]
pub struct GridKeys {
    /// Pitch change in semitones (Up/Down, ±12 with Shift).
    pub dp: i32,
    /// Selection move in steps (Left/Right).
    pub nav: i32,
    pub toggle_accent: bool,
    pub toggle_slide: bool,
    /// R, Delete or Backspace.
    pub toggle_rest: bool,
    pub escape: bool,
}

/// What becomes of the selection after the step grid's keys.
#[derive(Clone, Copy, Debug, PartialEq, Eq)]
pub enum SelectionChange {
    Keep,
    Select(usize),
    Clear,
}

/// The step grid's reaction to a frame's key presses.
#[derive(Clone, Copy, Debug, PartialEq, Eq)]
pub struct GridOutcome {
    /// The pattern was changed and must be stored.
    pub dirty: bool,
    pub selection: SelectionChange,
    /// Note to audition after a pitch change while T is held.
    pub audition: Option<KbdEvent>,
}

/// Apply the step grid's key presses to selected step `sel` of `p`: a
/// pitch change (a rest counts as 36, clamped into `24..=60`, the step
/// made audible, auditioned when `t_held`), a selection move wrapping
/// on the active length, the accent/slide toggles (which un-rest the
/// step), the rest toggle, and Escape, which clears the selection.
pub fn grid_key_edit(p: &mut Pattern, sel: usize, keys: GridKeys, t_held: bool) -> (out: GridOutcome)
    requires
        sel < 16,
    ensures
        final(p).length == old(p).length,
        final(p).swing_bits == old(p).swing_bits,
        out.dirty == (keys.dp != 0 || keys.toggle_accent || keys.toggle_slide || keys.toggle_rest),
        ({
            let s0 = old(p).steps@[sel as int];
            let n = clamp_edit_semi((if s0.rest { 36 } else { s0.semitone as int }) + keys.dp);
            let s1 = if keys.dp != 0 { Step { rest: false, semitone: n, ..s0 } } else { s0 };
            let s2 = if keys.toggle_accent { Step { rest: false, accent: !s1.accent, ..s1 } } else { s1 };
            let s3 = if keys.toggle_slide { Step { rest: false, slide: !s2.slide, ..s2 } } else { s2 };
            let s4 = if keys.toggle_rest { Step { rest: !s3.rest, ..s3 } } else { s3 };
            &&& final(p).steps@ == old(p).steps@.update(sel as int, s4)
            &&& out.audition == (if keys.dp != 0 && t_held {
                Some(KbdEvent { on: true, note: n, accent: s0.accent })
            } else {
                None
            })
        }),
        out.selection == (if keys.escape {
            SelectionChange::Clear
        } else if keys.nav != 0 {
            SelectionChange::Select(((sel + keys.nav) % walk_len(old(p).length)) as usize)
        } else {
            SelectionChange::Keep
        }),
{
    let mut dirty = false;
    let mut audition: Option<KbdEvent> = None;
    let mut selection = SelectionChange::Keep;
    if keys.dp != 0 {
        let n = p.nudge_step_pitch(sel, keys.dp);
        dirty = true;
        if t_held {
            audition = Some(KbdEvent { on: true, note: n, accent: p.steps[sel].accent });
        }
    }
    if keys.nav != 0 {
        selection = SelectionChange::Select(nav_wrap(sel, keys.nav, p.length));
    }
    if keys.toggle_accent {
        p.toggle_accent(sel);
        dirty = true;
    }
    if keys.toggle_slide {
        p.toggle_slide(sel);
        dirty = true;
    }
    if keys.toggle_rest {
        p.toggle_rest(sel);
        dirty = true;
    }
    if keys.escape {
        selection = SelectionChange::Clear;
    }
    GridOutcome { dirty, selection, audition }
}

impl KbdQueue {
    /// Store `p` as the active pattern and bump the revision.
    pub fn store_pattern(&mut self, p: Pattern)
        ensures
            final(self).bank.patterns@ == old(self).bank.patterns@.update(
                old(self).bank.active_index(),
                p,
            ),
            final(self).bank.active == old(self).bank.active,
            final(self).pattern_rev == old(self).pattern_rev.wrapping_add(1),
            final(self).same_but_bank(old(self)),
    {
        let slot = self.edit_pattern();
        *slot = p;
    }

    /// Replace the active pattern's steps by a fresh random riff from
    /// `seed` (density 0.65, accent 0.35, slide 0.25, rooted on C2),
    /// keeping its length and swing.
    pub fn randomize_pattern(&mut self, seed: u64)
        ensures
            final(self).bank.active == old(self).bank.active,
            forall|i: int|
                0 <= i < 4 && i != old(self).bank.active_index() ==> #[trigger] final(self).bank.patterns@[i]
                    == old(self).bank.patterns@[i],
            final(self).bank.patterns@[old(self).bank.active_index()].steps@
                == crate::pattern::random_pattern_steps(
                seed,
                RANDOM_DENSITY_Q24,
                RANDOM_ACCENT_Q24,
                RANDOM_SLIDE_Q24,
                RANDOM_ROOT,
            ),
            final(self).bank.patterns@[old(self).bank.active_index()].length == old(
                self,
            ).bank.patterns@[old(self).bank.active_index()].length,
            final(self).bank.patterns@[old(self).bank.active_index()].swing_bits == old(
                self,
            ).bank.patterns@[old(self).bank.active_index()].swing_bits,
            final(self).pattern_rev == old(self).pattern_rev.wrapping_add(1),
            final(self).same_but_bank(old(self)),
    {
        let pat = Pattern::random(seed, RANDOM_DENSITY_Q24, RANDOM_ACCENT_Q24, RANDOM_SLIDE_Q24, RANDOM_ROOT);
        let slot = self.edit_pattern();
        slot.adopt_steps(&pat);
    }
}

/// `events` after pushing `ev` onto a queue that drops events once 128
/// are pending.
pub open spec fn queued(events: Seq<KbdEvent>, ev: KbdEvent) -> Seq<KbdEvent> {
    if events.len() < KBD_QUEUE_CAP {
        events.push(ev)
    } else {
        events
    }
}

/// `events` after pushing the optional event `ev`.
pub open spec fn queued_opt(events: Seq<KbdEvent>, ev: Option<KbdEvent>) -> Seq<KbdEvent> {
    match ev {
        Some(e) => queued(events, e),
        None => events,
    }
}

impl KbdQueue {
    /// The active pattern.
    pub open spec fn active_pattern(&self) -> Pattern {
        self.bank.patterns@[self.bank.active_index()]
    }

    /// The selection, when any, names one of the 16 slots.
    pub open spec fn selection_in_range(&self) -> bool {
        self.selection() matches Some(s) ==> s < 16
    }

    /// Select step `i`, move the published playhead there, and audition
    /// it.
    fn select_and_audition(&mut self, i: usize)
        requires
            i < 16,
            old(self).wf(),
        ensures
            final(self).selected_step == i as u32,
            final(self).seq_current_step == i as u64,
            final(self).events@ == queued_opt(old(self).events@, audition_of(old(self).active_pattern().steps@[i as int])),
            final(self).same_but_nav(old(self)),
            final(self).wf(),
    {
        let s = self.bank.active().steps[i];
        self.set_selected_step(i);
        self.set_current_step(i as u64);
        if let Some(ev) = audition_event(s) {
            self.push(ev);
        }
    }

    /// STEP: select the step under the selection (or the playhead) and
    /// audition it without advancing.
    pub fn single_step_audition(&mut self)
        requires
            old(self).wf(),
            old(self).selection_in_range(),
        ensures
            ({
                let i = nav_origin(old(self).selection(), old(self).seq_current_step, old(self).active_pattern().length);
                &&& final(self).selected_step == i as u32
                &&& final(self).seq_current_step == i as u64
                &&& final(self).events@ == queued_opt(old(self).events@, audition_of(old(self).active_pattern().steps@[i]))
            }),
            final(self).same_but_nav(old(self)),
            final(self).wf(),
    {
        let len = self.bank.active().length;
        assert(self.active_pattern().wf());
        let i = audition_index(self.selected_step(), self.seq_current_step, len);
        self.select_and_audition(i);
    }

    /// BACK: select the step before the selection (or the playhead),
    /// wrapping to the last active step, and audition it.
    pub fn back_step(&mut self)
        requires
            old(self).wf(),
            old(self).selection_in_range(),
        ensures
            ({
                let o = nav_origin(old(self).selection(), old(self).seq_current_step, old(self).active_pattern().length);
                let i = if o == 0 { walk_len(old(self).active_pattern().length) - 1 } else { o - 1 };
                &&& final(self).selected_step == i as u32
                &&& final(self).seq_current_step == i as u64
                &&& final(self).events@ == queued_opt(old(self).events@, audition_of(old(self).active_pattern().steps@[i]))
            }),
            final(self).same_but_nav(old(self)),
            final(self).wf(),
    {
        let len = self.bank.active().length;
        assert(self.active_pattern().wf());
        let i = step_back(self.selected_step(), self.seq_current_step, len);
        self.select_and_audition(i);
    }

    /// WRITE/NEXT: select the step after the selection (or the
    /// playhead), wrapping on the active length, and audition it.
    pub fn next_step(&mut self)
        requires
            old(self).wf(),
            old(self).selection_in_range(),
        ensures
            ({
                let o = nav_origin(old(self).selection(), old(self).seq_current_step, old(self).active_pattern().length);
                let i = (o + 1) % walk_len(old(self).active_pattern().length);
                &&& final(self).selected_step == i as u32
                &&& final(self).seq_current_step == i as u64
                &&& final(self).events@ == queued_opt(old(self).events@, audition_of(old(self).active_pattern().steps@[i]))
            }),
            final(self).same_but_nav(old(self)),
            final(self).wf(),
    {
        let len = self.bank.active().length;
        assert(self.active_pattern().wf());
        let i = step_forward(self.selected_step(), self.seq_current_step, len);
        self.select_and_audition(i);
    }
}

impl KbdQueue {
    /// `self` is `old` with the active pattern's slots replaced by
    /// `steps` (length and swing kept, other slots untouched), the
    /// revision bumped, and every other field unchanged.
    pub open spec fn active_steps_edited(&self, old: &Self, steps: Seq<Step>) -> bool {
        &&& self.bank.active == old.bank.active
        &&& forall|i: int|
            0 <= i < 4 && i != old.bank.active_index() ==> #[trigger] self.bank.patterns@[i]
                == old.bank.patterns@[i]
        &&& self.active_pattern().steps@ == steps
        &&& self.active_pattern().length == old.active_pattern().length
        &&& self.active_pattern().swing_bits == old.active_pattern().swing_bits
        &&& self.pattern_rev == old.pattern_rev.wrapping_add(1)
        &&& self.same_but_bank(old)
    }

    /// Carry out a pressed key's action (see `keys::action_of`) and
    /// return whether the key now sounds a note, so that its release
    /// can end the note. `shift` accents the notes a key writes or
    /// plays; `seed` drives the randomizer.
    pub fn apply_key_action(&mut self, action: KeyAction, shift: bool, seed: u64) -> (sounding: bool)
        requires
            old(self).wf(),
            old(self).selection_in_range(),
        ensures
            final(self).wf(),
            match action {
                KeyAction::AuditionSelected => match old(self).selection() {
                    Some(s) => {
                        let st = old(self).active_pattern().steps@[s as int];
                        &&& sounding == !st.rest
                        &&& final(self).events@ == queued_opt(old(self).events@, audition_of(st))
                        &&& final(self).same_but_events(old(self))
                    },
                    None => !sounding && *final(self) == *old(self),
                },
                KeyAction::WriteSelected { semi } => match old(self).selection() {
                    Some(s) => {
                        let note = entry_note(old(self).octave, semi);
                        let st = old(self).active_pattern().steps@[s as int];
                        &&& sounding
                        &&& final(self).events@ == queued(
                            old(self).events@,
                            KbdEvent { on: true, note, accent: shift },
                        )
                        &&& final(self).bank.active == old(self).bank.active
                        &&& forall|i: int|
                            0 <= i < 4 && i != old(self).bank.active_index()
                                ==> #[trigger] final(self).bank.patterns@[i] == old(self).bank.patterns@[i]
                        &&& final(self).active_pattern().steps@ == old(self).active_pattern().steps@.update(
                            s as int,
                            Step { semitone: note, rest: false, ..st },
                        )
                        &&& final(self).active_pattern().length == old(self).active_pattern().length
                        &&& final(self).active_pattern().swing_bits == old(self).active_pattern().swing_bits
                        &&& final(self).pattern_rev == old(self).pattern_rev.wrapping_add(1)
                        &&& final(self).same_but_events_and_bank(old(self))
                    },
                    None => !sounding && *final(self) == *old(self),
                },
                KeyAction::OctaveDown => !sounding && *final(self) == (KbdQueue {
                    octave: crate::kbd::clamp_octave(old(self).octave - 1),
                    ..*old(self)
                }),
                KeyAction::OctaveUp => !sounding && *final(self) == (KbdQueue {
                    octave: crate::kbd::clamp_octave(old(self).octave + 1),
                    ..*old(self)
                }),
                KeyAction::ToggleRun => !sounding && *final(self) == (KbdQueue {
                    seq_run: !old(self).seq_run,
                    seq_rewind: if !old(self).seq_run {
                        true
                    } else {
                        old(self).seq_rewind
                    },
                    selected_step: if !old(self).seq_run {
                        crate::kbd::NO_SELECTION
                    } else {
                        0
                    },
                    ..*old(self)
                }),
                KeyAction::Rewind => !sounding && *final(self) == (KbdQueue {
                    seq_rewind: true,
                    ..*old(self)
                }),
                KeyAction::RotateLeft => !sounding && final(self).active_steps_edited(
                    old(self),
                    rotated_left(old(self).active_pattern().steps@, old(self).active_pattern().active_len(), 1),
                ),
                KeyAction::RotateRight => !sounding && final(self).active_steps_edited(
                    old(self),
                    rotated_right(old(self).active_pattern().steps@, old(self).active_pattern().active_len(), 1),
                ),
                KeyAction::Randomize => !sounding && final(self).active_steps_edited(
                    old(self),
                    crate::pattern::random_pattern_steps(
                        seed,
                        RANDOM_DENSITY_Q24,
                        RANDOM_ACCENT_Q24,
                        RANDOM_SLIDE_Q24,
                        RANDOM_ROOT,
                    ),
                ),
                KeyAction::Play { semi } => {
                    &&& sounding
                    &&& final(self).events@ == queued(
                        old(self).events@,
                        KbdEvent { on: true, note: live_note(old(self).octave, semi), accent: shift },
                    )
                    &&& final(self).same_but_events(old(self))
                },
                KeyAction::LeaveToStepGrid | KeyAction::Ignore => !sounding && *final(self) == *old(self),
            },
    {
        let ghost ai = self.bank.active_index();
        proof {
            assert(self.bank.patterns@[ai].wf());
        }
        match action {
            KeyAction::AuditionSelected => {
                if let Some(sel) = self.selected_step() {
                    let st = self.bank.active().steps[sel];
                    if let Some(ev) = audition_event(st) {
                        self.push(ev);
                        return true;
                    }
                }
                false
            },
            KeyAction::WriteSelected { semi } => {
                if let Some(sel) = self.selected_step() {
                    let note = step_entry_note(self.octave, semi);
                    let p = self.edit_pattern();
                    p.set_step_pitch(sel, note as i32);
                    self.push(KbdEvent { on: true, note, accent: shift });
                    true
                } else {
                    false
                }
            },
            KeyAction::OctaveDown => {
                let o = self.octave;
                self.set_octave(o - 1);
                false
            },
            KeyAction::OctaveUp => {
                let o = self.octave;
                self.set_octave(o + 1);
                false
            },
            KeyAction::ToggleRun => {
                self.toggle_seq_run();
                false
            },
            KeyAction::Rewind => {
                self.request_rewind();
                false
            },
            KeyAction::RotateLeft => {
                let p = self.edit_pattern();
                p.rotate_left(1);
                false
            },
            KeyAction::RotateRight => {
                let p = self.edit_pattern();
                p.rotate_right(1);
                false
            },
            KeyAction::Randomize => {
                self.randomize_pattern(seed);
                false
            },
            KeyAction::Play { semi } => {
                let note = keyboard_note(self.octave, semi);
                self.push(KbdEvent { on: true, note, accent: shift });
                true
            },
            KeyAction::LeaveToStepGrid | KeyAction::Ignore => false,
        }
    }
}


/// The UI scale the scale button moves to, in whole steps: 1x to 2x to
/// 3x and back to 1x; any other scale restarts at 1x.
pub fn next_ui_scale(cur: u32) -> (n: u32)
    ensures
        n == (if cur == 1 {
            2u32
        } else if cur == 2 {
            3u32
        } else {
            1u32
        }),
{
    match cur {
        1 => 2,
        2 => 3,
        _ => 1,
    }
}

} // verus!
