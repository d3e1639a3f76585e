//! Voice and effect selectors: delay sync subdivisions, delay mode,
//! oversampling quality and oscillator waveform.

use vstd::prelude::*;

verus! {

/// Delay time as a fraction of one beat.
#[derive(Clone, Copy, Debug, PartialEq, Eq)]
pub enum SyncDiv {
    Quarter,
    Eighth,
    DottedEighth,
    Sixteenth,
    TripletEighth,
}

impl SyncDiv {
    /// The subdivision as a fraction `(numerator, denominator)` of a
    /// beat: 1, 1/2, 3/4, 1/4 and 1/3.
    pub open spec fn ratio(self) -> (u32, u32) {
        match self {
            SyncDiv::Quarter => (1, 1),
            SyncDiv::Eighth => (1, 2),
            SyncDiv::DottedEighth => (3, 4),
            SyncDiv::Sixteenth => (1, 4),
            SyncDiv::TripletEighth => (1, 3),
        }
    }

    /// The beat fraction of this subdivision, as `(numerator,
    /// denominator)`.
    pub fn factor_ratio(self) -> (r: (u32, u32))
        ensures
            r == self.ratio(),
    {
        match self {
            SyncDiv::Quarter => (1, 1),
            SyncDiv::Eighth => (1, 2),
            SyncDiv::DottedEighth => (3, 4),
            SyncDiv::Sixteenth => (1, 4),
            SyncDiv::TripletEighth => (1, 3),
        }
    }

    /// The subdivision the SYNC button moves to:
    /// 1/4 → 1/8 → 1/8d → 1/16 → 1/8t → 1/4.
    pub open spec fn successor(self) -> SyncDiv {
        match self {
            SyncDiv::Quarter => SyncDiv::Eighth,
            SyncDiv::Eighth => SyncDiv::DottedEighth,
            SyncDiv::DottedEighth => SyncDiv::Sixteenth,
            SyncDiv::Sixteenth => SyncDiv::TripletEighth,
            SyncDiv::TripletEighth => SyncDiv::Quarter,
        }
    }

    pub fn next(self) -> (n: SyncDiv)
        ensures
            n == self.successor(),
    {
        match self {
            SyncDiv::Quarter => SyncDiv::Eighth,
            SyncDiv::Eighth => SyncDiv::DottedEighth,
            SyncDiv::DottedEighth => SyncDiv::Sixteenth,
            SyncDiv::Sixteenth => SyncDiv::TripletEighth,
            SyncDiv::TripletEighth => SyncDiv::Quarter,
        }
    }

    /// The text the SYNC button shows.
    pub open spec fn label_text(self) -> Seq<char> {
        match self {
            SyncDiv::Quarter => "1/4"@,
            SyncDiv::Eighth => "1/8"@,
            SyncDiv::DottedEighth => "1/8d"@,
            SyncDiv::Sixteenth => "1/16"@,
            SyncDiv::TripletEighth => "1/8t"@,
        }
    }

    pub fn label(self) -> (s: &'static str)
        ensures
            s@ == self.label_text(),
    {
        match self {
            SyncDiv::Quarter => "1/4",
            SyncDiv::Eighth => "1/8",
            SyncDiv::DottedEighth => "1/8d",
            SyncDiv::Sixteenth => "1/16",
            SyncDiv::TripletEighth => "1/8t",
        }
    }
}

/// Five presses of the SYNC button come back to where they started,
/// passing every subdivision once.
pub proof fn lemma_sync_cycle(d: SyncDiv)
    ensures
        d.successor().successor().successor().successor().successor() == d,
        d.successor() != d,
{
}

/// Delay feedback voicing.
#[derive(Clone, Copy, Debug, PartialEq, Eq)]
pub enum DelayMode {
    /// Pristine repeats.
    Clean,
    /// Each repeat passes a low-pass in the feedback path.
    Analog,
}

impl DelayMode {
    /// The other mode (the MODE button).
    pub fn toggled(self) -> (m: DelayMode)
        ensures
            m != self,
    {
        match self {
            DelayMode::Clean => DelayMode::Analog,
            DelayMode::Analog => DelayMode::Clean,
        }
    }
}

/// Per-instance quality tier: how much the nonlinear filter block is
/// oversampled. `Ultra` is reserved and runs as `High`.
#[derive(Clone, Copy, Debug, PartialEq, Eq)]
pub enum QualityMode {
    Normal,
    High,
    Ultra,
}

impl QualityMode {
    /// The factor the oscillator and filter run above the voice's
    /// sample rate: 1 for `Normal`, 2 otherwise.
    pub fn oversampling(self) -> (f: u32)
        ensures
            f == (if self == QualityMode::Normal {
                1u32
            } else {
                2u32
            }),
    {
        match self {
            QualityMode::Normal => 1,
            QualityMode::High | QualityMode::Ultra => 2,
        }
    }
}

/// Oscillator selection. The 303 has saw and square only.
#[derive(Clone, Copy, Debug, PartialEq, Eq)]
pub enum Waveform {
    Saw,
    Square,
}

} // verus!
