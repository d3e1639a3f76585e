//! MIDI Control Change → parameter routing table.
//!
//! The map follows MIDI conventions where they exist (74 brightness for
//! cutoff, 71 harmonic content for resonance, 91 reverb send, 93 delay
//! send, ...). CCs outside the map are ignored.

use vstd::prelude::*;

verus! {

/// The parameters a CC can drive.
#[derive(Clone, Copy, Debug, PartialEq, Eq)]
pub enum CcTarget {
    SlideMs,
    MasterVolume,
    Tuning,
    Accent,
    Resonance,
    DecayMs,
    EnvMod,
    Cutoff,
    DistDrive,
    ReverbMix,
    DelayMix,
}

/// The fixed CC map.
pub open spec fn cc_map(cc: u8) -> Option<CcTarget> {
    if cc == 5 {
        Some(CcTarget::SlideMs)
    } else if cc == 7 {
        Some(CcTarget::MasterVolume)
    } else if cc == 12 {
        Some(CcTarget::Tuning)
    } else if cc == 16 {
        Some(CcTarget::Accent)
    } else if cc == 71 {
        Some(CcTarget::Resonance)
    } else if cc == 72 {
        Some(CcTarget::DecayMs)
    } else if cc == 73 {
        Some(CcTarget::EnvMod)
    } else if cc == 74 {
        Some(CcTarget::Cutoff)
    } else if cc == 13 {
        Some(CcTarget::DistDrive)
    } else if cc == 91 {
        Some(CcTarget::ReverbMix)
    } else if cc == 93 {
        Some(CcTarget::DelayMix)
    } else {
        None
    }
}

/// The parameter controller number `cc` drives, if any.
pub fn cc_target(cc: u8) -> (t: Option<CcTarget>)
    ensures
        t == cc_map(cc),
{
    match cc {
        5 => Some(CcTarget::SlideMs),
        7 => Some(CcTarget::MasterVolume),
        12 => Some(CcTarget::Tuning),
        16 => Some(CcTarget::Accent),
        71 => Some(CcTarget::Resonance),
        72 => Some(CcTarget::DecayMs),
        73 => Some(CcTarget::EnvMod),
        74 => Some(CcTarget::Cutoff),
        13 => Some(CcTarget::DistDrive),
        91 => Some(CcTarget::ReverbMix),
        93 => Some(CcTarget::DelayMix),
        _ => None,
    }
}

/// No two controllers drive the same parameter.
pub proof fn lemma_cc_map_injective(a: u8, b: u8)
    requires
        cc_map(a) is Some,
        cc_map(a) == cc_map(b),
    ensures
        a == b,
{
}


/// The controller assignments, as (CC number, parameter) pairs, with
/// the MIDI meaning each one follows: 5 portamento time, 7 channel
/// volume, 12 effect control 1, 16 general purpose 1, 71 harmonic
/// content, 72 release time, 73 attack time, 74 brightness, 13 effect
/// control 2, 91 reverb send, 93 chorus/delay send.
pub open spec fn cc_assignments() -> Seq<(u8, CcTarget)> {
    seq![
        (5u8, CcTarget::SlideMs),
        (7u8, CcTarget::MasterVolume),
        (12u8, CcTarget::Tuning),
        (16u8, CcTarget::Accent),
        (71u8, CcTarget::Resonance),
        (72u8, CcTarget::DecayMs),
        (73u8, CcTarget::EnvMod),
        (74u8, CcTarget::Cutoff),
        (13u8, CcTarget::DistDrive),
        (91u8, CcTarget::ReverbMix),
        (93u8, CcTarget::DelayMix),
    ]
}

/// Each listed controller drives its listed parameter (decay on 72,
/// envelope modulation on 73, cutoff on 74, ...), and every controller
/// not listed drives nothing.
pub proof fn lemma_cc_assignments(cc: u8)
    ensures
        forall|i: int|
            0 <= i < cc_assignments().len() ==> cc_map(#[trigger] cc_assignments()[i].0) == Some(
                cc_assignments()[i].1,
            ),
        (forall|i: int| 0 <= i < cc_assignments().len() ==> #[trigger] cc_assignments()[i].0 != cc)
            ==> cc_map(cc) is None,
{
    let t = cc_assignments();
    assert(t.len() == 11);
    assert(t[0] == (5u8, CcTarget::SlideMs) && t[1] == (7u8, CcTarget::MasterVolume) && t[2] == (
    12u8, CcTarget::Tuning) && t[3] == (16u8, CcTarget::Accent) && t[4] == (71u8, CcTarget::Resonance)
        && t[5] == (72u8, CcTarget::DecayMs) && t[6] == (73u8, CcTarget::EnvMod) && t[7] == (
    74u8, CcTarget::Cutoff) && t[8] == (13u8, CcTarget::DistDrive) && t[9] == (91u8, CcTarget::ReverbMix)
        && t[10] == (93u8, CcTarget::DelayMix));
    assert forall|i: int| 0 <= i < t.len() implies cc_map(#[trigger] t[i].0) == Some(t[i].1) by {
        assert(i == 0 || i == 1 || i == 2 || i == 3 || i == 4 || i == 5 || i == 6 || i == 7 || i == 8
            || i == 9 || i == 10);
    }
    if forall|i: int| 0 <= i < t.len() ==> #[trigger] t[i].0 != cc {
        assert(t[0].0 != cc && t[1].0 != cc && t[2].0 != cc && t[3].0 != cc && t[4].0 != cc && t[5].0
            != cc && t[6].0 != cc && t[7].0 != cc && t[8].0 != cc && t[9].0 != cc && t[10].0 != cc);
    }
}

} // verus!
