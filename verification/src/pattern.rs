//! 16-step pattern model.
//!
//! A `Pattern` is a fixed array of 16 `Step`s plus an active length
//! and a per-pattern swing amount. Each `Step` carries a pitch and the
//! three classic per-step toggles: accent, slide and rest.
//!
//! * **Rest**: the step is silent; no event is emitted for it.
//! * **Slide**: the step glides *out of* itself into the next one, so
//!   the following step is slid into rather than retriggered.

use vstd::prelude::*;

verus! {

/// Maximum steps in a pattern.
pub const MAX_PATTERN_LEN: usize = 16;

/// Per-step data. `semitone` is the MIDI note; `accent`, `slide` and
/// `rest` are the three toggles.
#[derive(Clone, Copy, Debug, PartialEq, Eq, Structural)]
pub struct Step {
    /// MIDI note number. Default 60 = C4.
    pub semitone: u8,
    /// Accent flag: the voice is triggered with high velocity.
    pub accent: bool,
    /// Slide flag: this step glides into the next one.
    pub slide: bool,
    /// Rest flag: the step is silent.
    pub rest: bool,
}

/// The step a blank slot holds: C4 with no flag set.
pub open spec fn default_step() -> Step {
    Step { semitone: 60, accent: false, slide: false, rest: false }
}

impl Default for Step {
    fn default() -> (s: Self)
        ensures
            s == default_step(),
    {
        Step { semitone: 60, accent: false, slide: false, rest: false }
    }
}


/// What the pattern wants the voice to do when the playhead lands on a
/// step.
#[derive(Clone, Copy, Debug, PartialEq, Eq, Structural)]
pub enum StepEvent {
    /// Start this note fresh (hard retrigger).
    Trigger { semitone: u8, accent: bool },
    /// Glide the currently-ringing voice to this note.
    Slide { semitone: u8, accent: bool },
    /// Nothing to do: the step is a rest.
    Nothing,
}

/// A full pattern: 16 step slots, the active length and the swing.
///
/// `length` is the number of steps the playhead walks before wrapping;
/// a length of 0 is treated as 1. Slots beyond `length` are ignored but
/// preserved, so shortening and re-lengthening a pattern is lossless.
///
/// `swing_bits` holds the swing amount (an `f32` in `0.0..=0.75`) as its
/// IEEE-754 bit pattern. The pattern logic never reads it; it is
/// carried along so that a pattern round-trips through storage intact.
#[derive(Clone, Copy, Debug)]
pub struct Pattern {
    pub steps: [Step; MAX_PATTERN_LEN],
    pub length: u8,
    pub swing_bits: u32,
}

/// Number of steps the playhead walks for a stored `length`: `length`
/// itself, or 1 when it is 0.
pub open spec fn walk_len(length: u8) -> int {
    if length == 0 {
        1
    } else {
        length as int
    }
}

/// The active steps `0..len` rotated left by `n`; slots from `len` on
/// keep their place.
pub open spec fn rotated_left(steps: Seq<Step>, len: int, n: int) -> Seq<Step> {
    Seq::new(steps.len(), |k: int| if k < len { steps[(k + n) % len] } else { steps[k] })
}

/// The active steps `0..len` rotated right by `n`; slots from `len` on
/// keep their place.
pub open spec fn rotated_right(steps: Seq<Step>, len: int, n: int) -> Seq<Step> {
    Seq::new(steps.len(), |k: int| if k < len { steps[(k - n) % len] } else { steps[k] })
}

impl Pattern {
    /// The stored length addresses only existing slots.
    pub open spec fn wf(&self) -> bool {
        self.length as int <= MAX_PATTERN_LEN as int
    }

    /// Number of steps the playhead walks before wrapping.
    pub open spec fn active_len(&self) -> int {
        walk_len(self.length)
    }

    /// Step `i`, wrapped on the active length.
    pub open spec fn step_spec(&self, i: int) -> Step {
        self.steps@[i % self.active_len()]
    }

    /// Index of the step before `i`, wrapped on the active length.
    pub open spec fn prev_index(&self, i: int) -> int {
        (i + self.active_len() - 1) % self.active_len()
    }

    /// The event emitted when the playhead lands on step `i`: nothing on
    /// a rest; a slide when the previous step is a non-rest with its
    /// slide flag set; a hard trigger otherwise.
    pub open spec fn event_spec(&self, i: int) -> StepEvent {
        let s = self.step_spec(i);
        let prev = self.steps@[self.prev_index(i)];
        if s.rest {
            StepEvent::Nothing
        } else if prev.slide && !prev.rest {
            StepEvent::Slide { semitone: s.semitone, accent: s.accent }
        } else {
            StepEvent::Trigger { semitone: s.semitone, accent: s.accent }
        }
    }

    /// Construct a pattern where every slot is a rest.
    pub fn empty() -> (p: Self)
        ensures
            p.length == 16,
            p.swing_bits == 0,
            forall|i: int|
                0 <= i < 16 ==> #[trigger] p.steps@[i] == (Step { rest: true, ..default_step() }),
    {
        let mut p = Self::default();
        for i in 0..MAX_PATTERN_LEN
            invariant
                p.length == 16,
                p.swing_bits == 0,
                forall|j: int|
                    0 <= j < i ==> #[trigger] p.steps@[j] == (Step { rest: true, ..default_step() }),
                forall|j: int| i <= j < 16 ==> #[trigger] p.steps@[j] == default_step(),
        {
            let mut s = p.steps[i];
            s.rest = true;
            p.steps[i] = s;
        }
        p
    }

    /// Clamp `length` into `1..=16` and the swing into `0.0..=0.75`.
    pub fn sanitize(&mut self)
        ensures
            final(self).length == (if old(self).length == 0 {
                1
            } else if old(self).length > 16 {
                16
            } else {
                old(self).length
            }),
            final(self).steps == old(self).steps,
            final(self).swing_bits == swing_clamp_bits(old(self).swing_bits),
            final(self).wf(),
    {
        if self.length < 1 {
            self.length = 1;
        } else if self.length > 16 {
            self.length = 16;
        }
        self.swing_bits = clamp_swing_bits(self.swing_bits);
    }

    /// Look up step `i` modulo the active pattern length.
    pub fn step(&self, i: usize) -> (s: Step)
        requires
            self.wf(),
        ensures
            s == self.step_spec(i as int),
    {
        let len: usize = if self.length == 0 {
            1
        } else {
            self.length as usize
        };
        self.steps[i % len]
    }

    /// Decide what event to emit when the playhead lands on step `i`.
    ///
    /// 1. A rest emits `Nothing`.
    /// 2. If the previous step (wrapping) is a non-rest with its slide
    ///    flag set, the step is slid into.
    /// 3. Otherwise it is a hard trigger.
    pub fn event_at(&self, i: usize) -> (e: StepEvent)
        requires
            self.wf(),
        ensures
            e == self.event_spec(i as int),
    {
        let s = self.step(i);
        if s.rest {
            return StepEvent::Nothing;
        }
        let len: usize = if self.length == 0 {
            1
        } else {
            self.length as usize
        };
        let prev_idx = (i % len + len - 1) % len;
        proof {
            vstd::arithmetic::div_mod::lemma_add_mod_noop(i as int, len - 1, len as int);
            vstd::arithmetic::div_mod::lemma_small_mod((len - 1) as nat, len as nat);
        }
        let prev = self.steps[prev_idx];
        if prev.slide && !prev.rest {
            StepEvent::Slide { semitone: s.semitone, accent: s.accent }
        } else {
            StepEvent::Trigger { semitone: s.semitone, accent: s.accent }
        }
    }
}

impl Pattern {
    /// Rotate the active steps left by `n` (wrapping). Slots beyond the
    /// active length are left untouched.
    pub fn rotate_left(&mut self, n: usize)
        requires
            old(self).wf(),
        ensures
            final(self).steps@ == rotated_left(old(self).steps@, old(self).active_len(), n as int),
            final(self).length == old(self).length,
            final(self).swing_bits == old(self).swing_bits,
    {
        let len: usize = if self.length == 0 {
            1
        } else {
            self.length as usize
        };
        let ghost before = self.steps@;
        let k_shift = n % len;
        let src = self.steps;
        for k in 0..len
            invariant
                len == old(self).active_len(),
                len <= 16,
                k_shift == n % len,
                src@ == before,
                before == old(self).steps@,
                self.length == old(self).length,
                self.swing_bits == old(self).swing_bits,
                forall|j: int| 0 <= j < k ==> #[trigger] self.steps@[j] == before[(j + n) % (len as int)],
                forall|j: int| k <= j < 16 ==> #[trigger] self.steps@[j] == before[j],
        {
            let from = (k + k_shift) % len;
            proof {
                vstd::arithmetic::div_mod::lemma_add_mod_noop(k as int, n as int, len as int);
                vstd::arithmetic::div_mod::lemma_small_mod(k as nat, len as nat);
            }
            self.steps[k] = src[from];
        }
        assert(self.steps@ =~= rotated_left(before, len as int, n as int));
    }

    /// Rotate the active steps right by `n` (wrapping). Slots beyond the
    /// active length are left untouched.
    pub fn rotate_right(&mut self, n: usize)
        requires
            old(self).wf(),
        ensures
            final(self).steps@ == rotated_right(old(self).steps@, old(self).active_len(), n as int),
            final(self).length == old(self).length,
            final(self).swing_bits == old(self).swing_bits,
    {
        let len: usize = if self.length == 0 {
            1
        } else {
            self.length as usize
        };
        let ghost before = self.steps@;
        let k_shift = n % len;
        let src = self.steps;
        for k in 0..len
            invariant
                len == old(self).active_len(),
                len <= 16,
                k_shift == n % len,
                src@ == before,
                before == old(self).steps@,
                self.length == old(self).length,
                self.swing_bits == old(self).swing_bits,
                forall|j: int| 0 <= j < k ==> #[trigger] self.steps@[j] == before[(j - n) % (len as int)],
                forall|j: int| k <= j < 16 ==> #[trigger] self.steps@[j] == before[j],
        {
            let from = (k + len - k_shift) % len;
            proof {
                vstd::arithmetic::div_mod::lemma_sub_mod_noop(k as int, n as int, len as int);
                vstd::arithmetic::div_mod::lemma_small_mod(k as nat, len as nat);
                vstd::arithmetic::div_mod::lemma_mod_add_multiples_vanish(k - k_shift, len as int);
            }
            self.steps[k] = src[from];
        }
        assert(self.steps@ =~= rotated_right(before, len as int, n as int));
    }
}

/// Bit pattern of the `f32` 0.75, the largest swing.
pub const MAX_SWING_BITS: u32 = 0x3F40_0000;

/// The bit pattern of `f32::from_bits(b).clamp(0.0, 0.75)`, computed on
/// the bits: a NaN stays as it is; a value below zero (sign bit set and
/// a nonzero magnitude, `-0.0` excluded) becomes `0.0`; a positive value
/// whose bits exceed those of 0.75 (positive floats order as their bit
/// patterns, up to +infinity) becomes 0.75; any other value is kept.
pub open spec fn swing_clamp_bits(b: u32) -> u32 {
    let mag = b % 0x8000_0000;
    let negative = b >= 0x8000_0000;
    if mag > 0x7F80_0000 {
        b
    } else if negative && mag > 0 {
        0
    } else if !negative && b > 0x3F40_0000 {
        0x3F40_0000
    } else {
        b
    }
}

/// Clamp the swing amount whose `f32` bit pattern is `b` into
/// `0.0..=0.75`, as `f32::clamp` does.
pub fn clamp_swing_bits(b: u32) -> (r: u32)
    ensures
        r == swing_clamp_bits(b),
{
    let mag = b % 0x8000_0000;
    let negative = b >= 0x8000_0000;
    if mag > 0x7F80_0000 {
        b
    } else if negative && mag > 0 {
        0
    } else if !negative && b > MAX_SWING_BITS {
        MAX_SWING_BITS
    } else {
        b
    }
}

/// Rotating the active steps left by `n` and then right by `n` gives
/// back the steps it started from.
pub proof fn lemma_rotate_left_then_right(steps: Seq<Step>, len: int, n: int)
    requires
        1 <= len <= steps.len(),
    ensures
        rotated_right(rotated_left(steps, len, n), len, n) == steps,
{
    let l = rotated_left(steps, len, n);
    let r = rotated_right(l, len, n);
    assert forall|k: int| 0 <= k < steps.len() implies #[trigger] r[k] == steps[k] by {
        if k < len {
            let m = (k - n) % len;
            vstd::arithmetic::div_mod::lemma_mod_bound(k - n, len);
            vstd::arithmetic::div_mod::lemma_add_mod_noop(k - n, n, len);
            vstd::arithmetic::div_mod::lemma_add_mod_noop_right(m, n, len);
            vstd::arithmetic::div_mod::lemma_add_mod_noop_right(k - n, n, len);
            vstd::arithmetic::div_mod::lemma_small_mod(k as nat, len as nat);
        }
    }
    assert(r =~= steps);
}

/// Rotating the active steps right by `n` and then left by `n` gives
/// back the steps it started from.
pub proof fn lemma_rotate_right_then_left(steps: Seq<Step>, len: int, n: int)
    requires
        1 <= len <= steps.len(),
    ensures
        rotated_left(rotated_right(steps, len, n), len, n) == steps,
{
    let r = rotated_right(steps, len, n);
    let l = rotated_left(r, len, n);
    assert forall|k: int| 0 <= k < steps.len() implies #[trigger] l[k] == steps[k] by {
        if k < len {
            let m = (k + n) % len;
            vstd::arithmetic::div_mod::lemma_mod_bound(k + n, len);
            vstd::arithmetic::div_mod::lemma_sub_mod_noop_right(m, n, len);
            vstd::arithmetic::div_mod::lemma_sub_mod_noop_right(k + n, n, len);
            vstd::arithmetic::div_mod::lemma_sub_mod_noop(k + n, n, len);
            vstd::arithmetic::div_mod::lemma_add_mod_noop(k, n, len);
            vstd::arithmetic::div_mod::lemma_small_mod(k as nat, len as nat);
        }
    }
    assert(l =~= steps);
}

/// Pitch range the step editor works in: C1 (24) to C4 (60).
pub const EDIT_SEMI_LO: u8 = 24;

/// Upper end of the step editor's pitch range.
pub const EDIT_SEMI_HI: u8 = 60;

/// `v` clamped into the editor's pitch range `24..=60`.
pub open spec fn clamp_edit_semi(v: int) -> u8 {
    if v < 24 {
        24
    } else if v > 60 {
        60
    } else {
        v as u8
    }
}

/// The steps of the factory riff: a C minor acid line rooted on C2,
/// with accent pulses and two slide-legato pairs.
pub open spec fn classic_riff_steps() -> Seq<Step> {
    let n = |semitone: u8, accent: bool, slide: bool| Step { semitone, accent, slide, rest: false };
    let r = Step { semitone: 36, accent: false, slide: false, rest: true };
    seq![
        n(36, true, false), r, n(36, false, false), n(48, false, false),
        n(36, false, false), r, n(36, false, true), n(39, false, false),
        n(36, true, false), r, n(36, false, false), n(34, false, false),
        n(36, false, false), r, n(36, false, true), n(43, false, false),
    ]
}

/// Transpose every non-rest step by `delta` semitones, clamping into
/// the editor's pitch range `24..=60`. Rest steps are left as they are.
pub fn transpose_pattern(p: &mut Pattern, delta: i32)
    ensures
        final(p).length == old(p).length,
        final(p).swing_bits == old(p).swing_bits,
        forall|i: int|
            0 <= i < 16 ==> #[trigger] final(p).steps@[i] == (if old(p).steps@[i].rest {
                old(p).steps@[i]
            } else {
                Step {
                    semitone: clamp_edit_semi(old(p).steps@[i].semitone + delta),
                    ..old(p).steps@[i]
                }
            }),
{
    for i in 0..MAX_PATTERN_LEN
        invariant
            p.length == old(p).length,
            p.swing_bits == old(p).swing_bits,
            forall|j: int|
                0 <= j < i ==> #[trigger] p.steps@[j] == (if old(p).steps@[j].rest {
                    old(p).steps@[j]
                } else {
                    Step {
                        semitone: clamp_edit_semi(old(p).steps@[j].semitone + delta),
                        ..old(p).steps@[j]
                    }
                }),
            forall|j: int| i <= j < 16 ==> #[trigger] p.steps@[j] == old(p).steps@[j],
    {
        let mut s = p.steps[i];
        if !s.rest {
            let next: i64 = s.semitone as i64 + delta as i64;
            s.semitone = if next < 24 {
                24
            } else if next > 60 {
                60
            } else {
                next as u8
            };
            p.steps[i] = s;
        }
    }
}

impl Pattern {
    /// A recognisable-from-the-first-bar default bassline: C minor acid
    /// riff at 16 steps, C2 root, with accent pulses and a slide-legato
    /// pair.
    pub fn default_classic_riff() -> (p: Self)
        ensures
            p.steps@ == classic_riff_steps(),
            p.length == 16,
            p.swing_bits == 0,
    {
        let rest = Step { semitone: 36, accent: false, slide: false, rest: true };
        let steps = [
            Step { semitone: 36, accent: true, slide: false, rest: false },
            rest,
            Step { semitone: 36, accent: false, slide: false, rest: false },
            Step { semitone: 48, accent: false, slide: false, rest: false },
            Step { semitone: 36, accent: false, slide: false, rest: false },
            rest,
            Step { semitone: 36, accent: false, slide: true, rest: false },
            Step { semitone: 39, accent: false, slide: false, rest: false },
            Step { semitone: 36, accent: true, slide: false, rest: false },
            rest,
            Step { semitone: 36, accent: false, slide: false, rest: false },
            Step { semitone: 34, accent: false, slide: false, rest: false },
            Step { semitone: 36, accent: false, slide: false, rest: false },
            rest,
            Step { semitone: 36, accent: false, slide: true, rest: false },
            Step { semitone: 43, accent: false, slide: false, rest: false },
        ];
        let p = Pattern { steps, length: 16, swing_bits: 0 };
        assert(p.steps@ =~= classic_riff_steps());
        p
    }
}

/// Four-slot pattern bank. Only the `active` slot (taken modulo 4)
/// drives the audio thread.
#[derive(Clone, Copy, Debug)]
pub struct PatternBank {
    pub patterns: [Pattern; 4],
    pub active: u8,
}

impl PatternBank {
    /// Slot index the bank plays: `active` modulo 4.
    pub open spec fn active_index(&self) -> int {
        self.active as int % 4
    }

    /// Every slot holds a well-formed pattern.
    pub open spec fn wf(&self) -> bool {
        forall|i: int| 0 <= i < 4 ==> #[trigger] self.patterns@[i].wf()
    }

    /// The pattern in the active slot.
    pub fn active(&self) -> (p: &Pattern)
        ensures
            *p == self.patterns@[self.active_index()],
    {
        &self.patterns[(self.active % 4) as usize]
    }

    /// Mutable access to the pattern in the active slot.
    pub fn active_mut(&mut self) -> (p: &mut Pattern)
        ensures
            *p == old(self).patterns@[old(self).active_index()],
            final(self).patterns@ == old(self).patterns@.update(
                old(self).active_index(),
                *final(p),
            ),
            final(self).active == old(self).active,
    {
        let i = (self.active % 4) as usize;
        &mut self.patterns[i]
    }

    /// Select slot `i` modulo 4.
    pub fn set_active(&mut self, i: u8)
        ensures
            final(self).active == i % 4,
            final(self).patterns == old(self).patterns,
    {
        self.active = i % 4;
    }
}

impl Default for PatternBank {
    /// Slot I holds the classic riff; slots II to IV start as the
    /// default C4 row.
    fn default() -> (b: Self)
        ensures
            b.active == 0,
            b.patterns@[0].steps@ == classic_riff_steps(),
            forall|i: int| 0 <= i < 4 ==> #[trigger] b.patterns@[i].length == 16,
            forall|i: int| 0 <= i < 4 ==> #[trigger] b.patterns@[i].swing_bits == 0,
            forall|i: int, j: int|
                1 <= i < 4 && 0 <= j < 16 ==> #[trigger] b.patterns@[i].steps@[j] == default_step(),
    {
        let d = Pattern::default();
        let mut patterns = [d; 4];
        patterns[0] = Pattern::default_classic_riff();
        PatternBank { patterns, active: 0 }
    }
}

/// Tiny linear congruential generator driving the pattern randomizer:
/// deterministic from its seed, with reasonably uncorrelated high bits.
pub struct LcgRng {
    pub state: u64,
}

/// The LCG's state transition: `state * 6364136223846793005 +
/// 1442695040888963407`, modulo 2^64.
pub open spec fn lcg_next(s: u64) -> u64 {
    vstd::wrapping::u64_specs::wrapping_add(
        vstd::wrapping::u64_specs::wrapping_mul(s, 6364136223846793005u64),
        1442695040888963407u64,
    )
}

/// The 32-bit draw a state yields: its high half.
pub open spec fn lcg_output(s: u64) -> u32 {
    (s >> 32u64) as u32
}

/// The initial state for a seed: `seed + 0x9E3779B97F4A7C15`, modulo 2^64.
pub open spec fn lcg_seed(seed: u64) -> u64 {
    vstd::wrapping::u64_specs::wrapping_add(seed, 0x9E3779B97F4A7C15u64)
}

impl LcgRng {
    pub fn new(seed: u64) -> (r: Self)
        ensures
            r.state == lcg_seed(seed),
    {
        LcgRng { state: seed.wrapping_add(0x9E3779B97F4A7C15u64) }
    }

    /// Advance the state and return its high 32 bits.
    pub fn next_u32(&mut self) -> (x: u32)
        ensures
            final(self).state == lcg_next(old(self).state),
            x == lcg_output(final(self).state),
    {
        self.state = self.state.wrapping_mul(6364136223846793005u64).wrapping_add(
            1442695040888963407u64,
        );
        (self.state >> 32u64) as u32
    }

    /// A uniform draw in `0..2^24`: the top 24 bits of `next_u32`. Read
    /// as a fraction of 2^24 it is the generator's unit-interval sample.
    pub fn next_unit_q24(&mut self) -> (x: u32)
        ensures
            final(self).state == lcg_next(old(self).state),
            x == lcg_output(final(self).state) >> 8u32,
            x < 0x100_0000,
    {
        let v = self.next_u32();
        assert(v >> 8u32 < 0x100_0000u32) by (bit_vector);
        v >> 8u32
    }
}

/// Interval `i` (0..10) of the randomizer's palette: a minor pentatonic
/// scale over two octaves.
pub open spec fn palette(i: int) -> int {
    if i == 0 {
        0
    } else if i == 1 {
        3
    } else if i == 2 {
        5
    } else if i == 3 {
        7
    } else if i == 4 {
        10
    } else if i == 5 {
        12
    } else if i == 6 {
        15
    } else if i == 7 {
        17
    } else if i == 8 {
        19
    } else {
        22
    }
}

fn palette_at(i: u32) -> (v: u32)
    requires
        i < 10,
    ensures
        v == palette(i as int),
{
    if i == 0 {
        0
    } else if i == 1 {
        3
    } else if i == 2 {
        5
    } else if i == 3 {
        7
    } else if i == 4 {
        10
    } else if i == 5 {
        12
    } else if i == 6 {
        15
    } else if i == 7 {
        17
    } else if i == 8 {
        19
    } else {
        22
    }
}

/// The note a palette draw `draw` picks above `root`, clamped to 127.
pub open spec fn palette_note(root: u8, draw: u32) -> u8 {
    let v = root + palette(draw as int % 10);
    if v > 127 {
        127
    } else {
        v as u8
    }
}

/// One randomized step drawn from state `s`, and the state after it.
/// A draw at or above `density` makes a rest (one draw); otherwise the
/// pitch, the accent and the slide flag take one draw each.
pub open spec fn random_step(s: u64, density: u32, accent_p: u32, slide_p: u32, root: u8) -> (
    Step,
    u64,
) {
    let s1 = lcg_next(s);
    if lcg_output(s1) >> 8u32 >= density {
        (Step { semitone: root, accent: false, slide: false, rest: true }, s1)
    } else {
        let s2 = lcg_next(s1);
        let s3 = lcg_next(s2);
        let s4 = lcg_next(s3);
        (
            Step {
                semitone: palette_note(root, lcg_output(s2)),
                accent: (lcg_output(s3) >> 8u32) < accent_p,
                slide: (lcg_output(s4) >> 8u32) < slide_p,
                rest: false,
            },
            s4,
        )
    }
}

/// The first `n` randomized steps drawn from state `s`, and the state
/// after them.
pub open spec fn random_steps(s: u64, n: nat, density: u32, accent_p: u32, slide_p: u32, root: u8) -> (
    Seq<Step>,
    u64,
)
    decreases n,
{
    if n == 0 {
        (Seq::empty(), s)
    } else {
        let (prev, s1) = random_steps(s, (n - 1) as nat, density, accent_p, slide_p, root);
        let (st, s2) = random_step(s1, density, accent_p, slide_p, root);
        (prev.push(st), s2)
    }
}

/// The steps of `Pattern::random`: sixteen randomized steps, and if the
/// first came out a rest, one more draw replaces it by an accented note.
pub open spec fn random_pattern_steps(
    seed: u64,
    density: u32,
    accent_p: u32,
    slide_p: u32,
    root: u8,
) -> Seq<Step> {
    let (steps, s) = random_steps(lcg_seed(seed), 16, density, accent_p, slide_p, root);
    if steps[0].rest {
        steps.update(
            0,
            Step {
                semitone: palette_note(root, lcg_output(lcg_next(s))),
                accent: true,
                slide: false,
                rest: false,
            },
        )
    } else {
        steps
    }
}

impl Pattern {
    /// Generate an acid-flavoured random pattern quantized to a minor
    /// pentatonic rooted at `root_semi` over two octaves.
    ///
    /// The three probabilities are fractions of 2^24: a step is a rest
    /// when its draw is at least `density`; a non-rest step is accented
    /// when its draw is below `accent_p` and slides when its draw is
    /// below `slide_p`. `seed` makes the pattern reproducible. Step 0
    /// is always audible.
    pub fn random(seed: u64, density: u32, accent_p: u32, slide_p: u32, root_semi: u8) -> (p: Self)
        ensures
            p.steps@ == random_pattern_steps(seed, density, accent_p, slide_p, root_semi),
            p.length == 16,
            p.swing_bits == 0,
            !p.steps@[0].rest,
    {
        let mut rng = LcgRng::new(seed);
        let mut p = Pattern::default();
        let ghost s0 = rng.state;
        for i in 0..MAX_PATTERN_LEN
            invariant
                s0 == lcg_seed(seed),
                p.length == 16,
                p.swing_bits == 0,
                rng.state == random_steps(s0, i as nat, density, accent_p, slide_p, root_semi).1,
                random_steps(s0, i as nat, density, accent_p, slide_p, root_semi).0.len() == i,
                forall|j: int|
                    0 <= j < i ==> #[trigger] p.steps@[j] == random_steps(
                        s0,
                        i as nat,
                        density,
                        accent_p,
                        slide_p,
                        root_semi,
                    ).0[j],
        {
            let ghost prev = random_steps(s0, i as nat, density, accent_p, slide_p, root_semi);
            let u = rng.next_unit_q24();
            let st = if u >= density {
                Step { semitone: root_semi, accent: false, slide: false, rest: true }
            } else {
                let pick = palette_at(rng.next_u32() % 10);
                let v: u32 = root_semi as u32 + pick;
                let semi: u8 = if v > 127 {
                    127
                } else {
                    v as u8
                };
                let accent = rng.next_unit_q24() < accent_p;
                let slide = rng.next_unit_q24() < slide_p;
                Step { semitone: semi, accent, slide, rest: false }
            };
            p.steps[i] = st;
            proof {
                let next = random_steps(s0, (i + 1) as nat, density, accent_p, slide_p, root_semi);
                assert(next.0 == prev.0.push(st));
            }
        }
        let ghost gen = random_steps(s0, 16, density, accent_p, slide_p, root_semi);
        assert(p.steps@ =~= gen.0);
        if p.steps[0].rest {
            let pick = palette_at(rng.next_u32() % 10);
            let v: u32 = root_semi as u32 + pick;
            let semi: u8 = if v > 127 {
                127
            } else {
                v as u8
            };
            p.steps[0] = Step { semitone: semi, accent: true, slide: false, rest: false };
        }
        assert(p.steps@ =~= random_pattern_steps(seed, density, accent_p, slide_p, root_semi));
        p
    }
}

/// The randomizer's pitch palette: `root` plus one of the ten minor
/// pentatonic intervals, clamped to 127.
pub open spec fn in_palette(root: u8, semitone: u8) -> bool {
    exists|k: int| 0 <= k < 10 && semitone as int == #[trigger] clamp_note(root + palette(k))
}

/// `v` clamped to the top MIDI note 127.
pub open spec fn clamp_note(v: int) -> int {
    if v > 127 {
        127
    } else {
        v
    }
}

/// The minor pentatonic scale over two octaves, in semitones above the
/// root: 0, 3, 5, 7, 10 and the same an octave up.
pub open spec fn two_octave_minor_pentatonic() -> Seq<int> {
    seq![0int, 3, 5, 7, 10, 12, 15, 17, 19, 22]
}

/// The randomizer draws from the minor pentatonic over two octaves:
/// its first five intervals are the scale (0, 3, 5, 7, 10), the next
/// five repeat them an octave higher, and every interval of the scale
/// can come out of a draw, from any root.
pub proof fn lemma_palette_two_octaves(root: u8)
    ensures
        forall|k: int| 0 <= k < 5 ==> #[trigger] palette(k + 5) == palette(k) + 12,
        forall|k: int| 0 <= k < 10 ==> #[trigger] palette(k) == two_octave_minor_pentatonic()[k],
        forall|k: int|
            #![trigger two_octave_minor_pentatonic()[k]]
            0 <= k < 10 ==> exists|d: u32| #[trigger] palette_note(root, d) as int == clamp_note(
                root + two_octave_minor_pentatonic()[k],
            ),
{
    let scale = two_octave_minor_pentatonic();
    assert(scale[0] == 0 && scale[1] == 3 && scale[2] == 5 && scale[3] == 7 && scale[4] == 10);
    assert(scale[5] == 12 && scale[6] == 15 && scale[7] == 17 && scale[8] == 19 && scale[9] == 22);
    assert forall|k: int| 0 <= k < 10 implies #[trigger] palette(k) == scale[k] by {
        assert(k == 0 || k == 1 || k == 2 || k == 3 || k == 4 || k == 5 || k == 6 || k == 7 || k == 8
            || k == 9);
    }
    assert forall|k: int|
        #![trigger two_octave_minor_pentatonic()[k]]
        0 <= k < 10 implies exists|d: u32| #[trigger] palette_note(root, d) as int
        == clamp_note(root + two_octave_minor_pentatonic()[k]) by {
        let d = k as u32;
        assert(d as int % 10 == k);
        assert(palette_note(root, d) as int == clamp_note(root + two_octave_minor_pentatonic()[k]));
    }
}

/// The rest a randomized step becomes: the root, no flag but rest.
pub open spec fn random_rest(root: u8) -> Step {
    Step { semitone: root, accent: false, slide: false, rest: true }
}

/// What holds of every randomized step: a rest is the plain root rest,
/// a note comes from the palette; with density 0 every step is a rest,
/// and with density 2^24 or more none is.
pub open spec fn random_step_ok(st: Step, density: u32, root: u8) -> bool {
    &&& st.rest ==> st == random_rest(root)
    &&& !st.rest ==> in_palette(root, st.semitone)
    &&& density == 0 ==> st.rest
    &&& density >= 0x100_0000 ==> !st.rest
}

proof fn lemma_palette_note(root: u8, draw: u32)
    ensures
        in_palette(root, palette_note(root, draw)),
{
    let k = draw as int % 10;
    assert(palette_note(root, draw) as int == clamp_note(root + palette(k)));
}

proof fn lemma_random_steps_ok(s: u64, n: nat, density: u32, accent_p: u32, slide_p: u32, root: u8)
    ensures
        random_steps(s, n, density, accent_p, slide_p, root).0.len() == n,
        forall|j: int|
            0 <= j < n ==> random_step_ok(
                #[trigger] random_steps(s, n, density, accent_p, slide_p, root).0[j],
                density,
                root,
            ),
    decreases n,
{
    if n > 0 {
        lemma_random_steps_ok(s, (n - 1) as nat, density, accent_p, slide_p, root);
        let (prev, s1) = random_steps(s, (n - 1) as nat, density, accent_p, slide_p, root);
        let (st, s2) = random_step(s1, density, accent_p, slide_p, root);
        let x = lcg_output(lcg_next(s1));
        assert(x >> 8u32 < 0x100_0000u32) by (bit_vector);
        lemma_palette_note(root, lcg_output(lcg_next(lcg_next(s1))));
        assert(random_step_ok(st, density, root));
        assert forall|j: int| 0 <= j < n implies random_step_ok(
            #[trigger] random_steps(s, n, density, accent_p, slide_p, root).0[j],
            density,
            root,
        ) by {
            if j < n - 1 {
                assert(random_steps(s, n, density, accent_p, slide_p, root).0[j] == prev[j]);
            }
        }
    }
}

/// What a random pattern is made of: step 0 is an audible palette note;
/// every later rest is the plain root rest and every later note comes
/// from the palette. With density 0, steps 1 to 15 are rests and step 0
/// is an accented note without slide; with density 2^24 or more (every
/// draw is below it), no step is a rest.
pub proof fn lemma_random_pattern_shape(seed: u64, density: u32, accent_p: u32, slide_p: u32, root: u8)
    ensures
        ({
            let steps = random_pattern_steps(seed, density, accent_p, slide_p, root);
            &&& steps.len() == 16
            &&& !steps[0].rest
            &&& in_palette(root, steps[0].semitone)
            &&& forall|j: int| 1 <= j < 16 ==> random_step_ok(#[trigger] steps[j], density, root)
            &&& density == 0 ==> steps[0].accent && !steps[0].slide
            &&& density >= 0x100_0000 ==> forall|j: int| 0 <= j < 16 ==> !(#[trigger] steps[j]).rest
        }),
{
    lemma_random_steps_ok(lcg_seed(seed), 16, density, accent_p, slide_p, root);
    let (raw, s) = random_steps(lcg_seed(seed), 16, density, accent_p, slide_p, root);
    assert(random_step_ok(raw[0], density, root));
    lemma_palette_note(root, lcg_output(lcg_next(s)));
    let steps = random_pattern_steps(seed, density, accent_p, slide_p, root);
    assert forall|j: int| 1 <= j < 16 implies random_step_ok(#[trigger] steps[j], density, root) by {
        assert(steps[j] == raw[j]);
    }
    if density >= 0x100_0000 {
        assert forall|j: int| 0 <= j < 16 implies !(#[trigger] steps[j]).rest by {
            assert(random_step_ok(raw[j], density, root));
        }
    }
}

impl Default for Pattern {
    fn default() -> (p: Self)
        ensures
            p.length == 16,
            p.swing_bits == 0,
            forall|i: int| 0 <= i < 16 ==> #[trigger] p.steps@[i] == default_step(),
    {
        let s = Step::default();
        Pattern { steps: [s; MAX_PATTERN_LEN], length: 16, swing_bits: 0 }
    }
}

} // verus!
