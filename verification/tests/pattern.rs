use squelchbox::pattern::{
    clamp_swing_bits, transpose_pattern, LcgRng, Pattern, PatternBank, Step, StepEvent,
    MAX_PATTERN_LEN,
};

/// A probability as the fraction of 2^24 the randomizer compares with:
/// a unit draw `k / 2^24` is below `p` exactly when `k` is below this.
fn q24(p: f32) -> u32 {
    (p.clamp(0.0, 1.0) * 16_777_216.0).ceil() as u32
}

#[test]
fn default_pattern_is_length_16_straight() {
    let p = Pattern::default();
    assert_eq!(p.length, 16);
    assert_eq!(f32::from_bits(p.swing_bits), 0.0);
    for s in p.steps.iter() {
        assert_eq!(*s, Step::default());
        assert!(!s.rest);
    }
}

#[test]
fn empty_pattern_is_all_rests() {
    let p = Pattern::empty();
    for s in p.steps.iter() {
        assert!(s.rest);
    }
}

#[test]
fn sanitize_clamps_length_and_swing() {
    let mut p = Pattern::default();
    p.length = 99;
    p.swing_bits = 5.0f32.to_bits();
    p.sanitize();
    assert_eq!(p.length, MAX_PATTERN_LEN as u8);
    assert_eq!(f32::from_bits(p.swing_bits), 0.75);

    p.length = 0;
    p.swing_bits = (-1.0f32).to_bits();
    p.sanitize();
    assert_eq!(p.length, 1);
    assert_eq!(f32::from_bits(p.swing_bits), 0.0);
}

#[test]
fn rest_step_emits_none() {
    let mut p = Pattern::default();
    p.steps[0].rest = true;
    assert_eq!(p.event_at(0), StepEvent::Nothing);
}

#[test]
fn non_rest_step_with_only_rests_before_always_triggers() {
    let mut p = Pattern::empty();
    p.steps[3].rest = false;
    p.steps[3].semitone = 48;
    p.steps[3].slide = true;
    assert_eq!(p.event_at(3), StepEvent::Trigger { semitone: 48, accent: false });
}

#[test]
fn slide_flag_on_prev_step_emits_slide_into_this_step() {
    let mut p = Pattern::default();
    p.steps[0] = Step { semitone: 48, accent: false, slide: true, rest: false };
    p.steps[1] = Step { semitone: 50, accent: true, slide: false, rest: false };
    assert_eq!(p.event_at(0), StepEvent::Trigger { semitone: 48, accent: false });
    assert_eq!(p.event_at(1), StepEvent::Slide { semitone: 50, accent: true });
}

#[test]
fn slide_across_rest_is_broken() {
    let mut p = Pattern::default();
    p.steps[0] = Step { semitone: 48, accent: false, slide: true, rest: false };
    p.steps[1].rest = true;
    p.steps[2] = Step { semitone: 50, accent: false, slide: false, rest: false };
    assert_eq!(p.event_at(1), StepEvent::Nothing);
    assert_eq!(p.event_at(2), StepEvent::Trigger { semitone: 50, accent: false });
}

#[test]
fn step_wraps_on_pattern_length() {
    let mut p = Pattern::default();
    p.length = 4;
    p.steps[0].semitone = 10;
    p.steps[4].semitone = 99;
    assert_eq!(p.step(0).semitone, 10);
    assert_eq!(p.step(4).semitone, 10);
    assert_eq!(p.step(5).semitone, 60);
}

#[test]
fn rotate_left_wraps_active_steps() {
    let mut p = Pattern::default();
    for i in 0..16 {
        p.steps[i].semitone = i as u8;
    }
    p.rotate_left(1);
    assert_eq!(p.steps[0].semitone, 1);
    assert_eq!(p.steps[15].semitone, 0);
}

#[test]
fn rotate_right_wraps_active_steps() {
    let mut p = Pattern::default();
    for i in 0..16 {
        p.steps[i].semitone = i as u8;
    }
    p.rotate_right(1);
    assert_eq!(p.steps[0].semitone, 15);
    assert_eq!(p.steps[1].semitone, 0);
}

#[test]
fn random_pattern_is_deterministic_per_seed() {
    let a = Pattern::random(42, q24(0.7), q24(0.3), q24(0.2), 36);
    let b = Pattern::random(42, q24(0.7), q24(0.3), q24(0.2), 36);
    assert_eq!(a.steps, b.steps);
}

#[test]
fn random_pattern_step_zero_always_audible() {
    for seed in 0..16u64 {
        let p = Pattern::random(seed, q24(0.05), q24(0.5), q24(0.5), 36);
        assert!(!p.steps[0].rest, "step 0 must never be a rest (seed={seed})");
    }
}

#[test]
fn accent_flag_propagates_through_event_at() {
    let mut p = Pattern::default();
    p.steps[0].accent = true;
    assert_eq!(p.event_at(0), StepEvent::Trigger { semitone: 60, accent: true });
}

// ── Further cases ──────────────────────────────────────────────────

#[test]
fn rotate_left_then_right_restores_the_pattern() {
    let mut p = Pattern::default_classic_riff();
    p.length = 12;
    let before = p.steps;
    p.rotate_left(5);
    assert_ne!(p.steps, before);
    p.rotate_right(5);
    assert_eq!(p.steps, before);
}

#[test]
fn rotate_leaves_slots_past_the_length_alone() {
    let mut p = Pattern::default();
    for i in 0..16 {
        p.steps[i].semitone = i as u8;
    }
    p.length = 4;
    p.rotate_left(1);
    let got: Vec<u8> = p.steps.iter().map(|s| s.semitone).collect();
    assert_eq!(got, vec![1, 2, 3, 0, 4, 5, 6, 7, 8, 9, 10, 11, 12, 13, 14, 15]);
    p.rotate_right(6);
    let got: Vec<u8> = p.steps.iter().map(|s| s.semitone).collect();
    assert_eq!(got, vec![3, 0, 1, 2, 4, 5, 6, 7, 8, 9, 10, 11, 12, 13, 14, 15]);
}

#[test]
fn length_zero_walks_one_step() {
    let mut p = Pattern::default();
    p.length = 0;
    p.steps[0].semitone = 40;
    assert_eq!(p.step(7).semitone, 40);
    p.steps[0].slide = true;
    assert_eq!(p.event_at(3), StepEvent::Slide { semitone: 40, accent: false });
}

#[test]
fn classic_riff_layout() {
    let p = Pattern::default_classic_riff();
    let semis: Vec<u8> = p.steps.iter().map(|s| s.semitone).collect();
    assert_eq!(semis, vec![36, 36, 36, 48, 36, 36, 36, 39, 36, 36, 36, 34, 36, 36, 36, 43]);
    let rests: Vec<usize> = (0..16).filter(|&i| p.steps[i].rest).collect();
    assert_eq!(rests, vec![1, 5, 9, 13]);
    assert!(p.steps[0].accent && p.steps[8].accent);
    assert!(p.steps[6].slide && p.steps[14].slide);
    assert_eq!(p.event_at(7), StepEvent::Slide { semitone: 39, accent: false });
    assert_eq!(p.event_at(15), StepEvent::Slide { semitone: 43, accent: false });
    assert_eq!(p.event_at(1), StepEvent::Nothing);
}

#[test]
fn transpose_clamps_and_skips_rests() {
    let mut p = Pattern::default_classic_riff();
    transpose_pattern(&mut p, 12);
    assert_eq!(p.steps[0].semitone, 48);
    assert_eq!(p.steps[3].semitone, 60);
    assert_eq!(p.steps[1].semitone, 36); // rest untouched
    transpose_pattern(&mut p, -100);
    assert_eq!(p.steps[0].semitone, 24);
    assert_eq!(p.steps[1].semitone, 36);
}

#[test]
fn swing_clamp_follows_f32_clamp() {
    for v in [
        -1.0f32, -0.0, 0.0, 0.1, 0.5, 0.75, 0.7500001, 1.0, 5.0, f32::INFINITY,
        f32::NEG_INFINITY, f32::MIN_POSITIVE, -f32::MIN_POSITIVE, 1e-45, -1e-45,
    ] {
        let want = v.clamp(0.0, 0.75);
        let got = f32::from_bits(clamp_swing_bits(v.to_bits()));
        assert_eq!(got.to_bits(), want.to_bits(), "clamp of {v}");
    }
    assert!(f32::from_bits(clamp_swing_bits(f32::NAN.to_bits())).is_nan());
}

#[test]
fn lcg_matches_its_recurrence() {
    let mut r = LcgRng::new(0);
    assert_eq!(r.state, 0x9E37_79B9_7F4A_7C15);
    let want = 0x9E37_79B9_7F4A_7C15u64
        .wrapping_mul(6364136223846793005)
        .wrapping_add(1442695040888963407);
    let x = r.next_u32();
    assert_eq!(r.state, want);
    assert_eq!(x, (want >> 32) as u32);
    let y = r.next_unit_q24();
    assert!(y < (1 << 24));
}

#[test]
fn random_density_extremes() {
    // Density 0: every draw is at or above it, so all steps rest except
    // the forced audible step 0.
    let p = Pattern::random(7, 0, 0, 0, 36);
    assert!(!p.steps[0].rest && p.steps[0].accent);
    assert!((1..16).all(|i| p.steps[i].rest && p.steps[i].semitone == 36));
    // Density 1 (2^24): no rests; notes stay within two octaves of the root.
    let p = Pattern::random(7, 1 << 24, 0, 0, 36);
    assert!(p.steps.iter().all(|s| !s.rest && (36..=58).contains(&s.semitone)));
    assert!(p.steps.iter().all(|s| !s.accent && !s.slide));
    // A high root clamps at 127.
    let p = Pattern::random(3, 1 << 24, 1 << 24, 1 << 24, 120);
    assert!(p.steps.iter().all(|s| s.semitone <= 127 && s.accent && s.slide));
}

#[test]
fn bank_active_slot_wraps_mod_four() {
    let mut b = PatternBank::default();
    assert_eq!(b.active, 0);
    assert_eq!(b.active().steps, Pattern::default_classic_riff().steps);
    b.set_active(6);
    assert_eq!(b.active, 2);
    b.active_mut().steps[0].semitone = 50;
    assert_eq!(b.patterns[2].steps[0].semitone, 50);
    assert_eq!(b.patterns[1].steps[0].semitone, 60);
    b.active = 7;
    assert_eq!(b.active().steps[0].semitone, 60);
}

#[test]
fn random_notes_come_from_the_palette() {
    let palette = [0u8, 3, 5, 7, 10, 12, 15, 17, 19, 22];
    for seed in 0..50u64 {
        let p = Pattern::random(seed, q24(0.65), q24(0.35), q24(0.25), 36);
        assert!(!p.steps[0].rest);
        for s in p.steps.iter() {
            if s.rest {
                assert_eq!((s.semitone, s.accent, s.slide), (36, false, false));
            } else {
                assert!(palette.iter().any(|d| s.semitone == 36 + d));
            }
        }
    }
}
