use squelchbox::pattern::{Pattern, Step};
use squelchbox::sequencer::{ClockTick, SeqTick, SeqTrigger, Sequencer};

/// A step clock at 120 BPM and 48 kHz: 6000 samples per sixteenth,
/// no swing, gate closing at `gate_at` samples into a step (none for a
/// tied gate).
struct TestClock {
    running: bool,
    pos: u64,
    step_len: u64,
    gate_at: Option<u64>,
    step: u64,
    gate_fired: bool,
}

impl TestClock {
    fn new(gate_at: Option<u64>) -> Self {
        TestClock { running: false, pos: 0, step_len: 6000, gate_at, step: 0, gate_fired: false }
    }

    fn tick(&mut self) -> ClockTick {
        if !self.running {
            return ClockTick::default();
        }
        let mut out = ClockTick::default();
        if let Some(g) = self.gate_at {
            if !self.gate_fired && self.pos >= g {
                out.gate_off = true;
                self.gate_fired = true;
            }
        }
        self.pos += 1;
        if self.pos >= self.step_len {
            self.pos -= self.step_len;
            self.step += 1;
            self.gate_fired = false;
            out.step = Some(self.step);
        }
        out
    }
}

fn tick(seq: &mut Sequencer, clock: &mut TestClock) -> SeqTick {
    if let Some(t) = seq.tick_begin(clock.running, clock.step) {
        return t;
    }
    let t = clock.tick();
    seq.tick_end(t, clock.step)
}

fn count_ticks(seq: &mut Sequencer, clock: &mut TestClock, samples: usize) -> (usize, usize) {
    let mut triggers = 0;
    let mut gate_offs = 0;
    for _ in 0..samples {
        let t = tick(seq, clock);
        if t.trigger.is_some() {
            triggers += 1;
        }
        if t.gate_off {
            gate_offs += 1;
        }
    }
    (triggers, gate_offs)
}

#[test]
fn stopped_sequencer_emits_nothing() {
    let mut seq = Sequencer::new();
    let mut clock = TestClock::new(Some(3000));
    let (trigs, gates) = count_ticks(&mut seq, &mut clock, 48_000);
    assert_eq!(trigs, 0);
    assert_eq!(gates, 0);
}

#[test]
fn running_sequencer_emits_step_zero_on_first_sample() {
    let mut seq = Sequencer::new();
    seq.pattern = Pattern::empty();
    seq.pattern.steps[0] = Step { semitone: 36, accent: false, slide: false, rest: false };
    let mut clock = TestClock::new(None);
    clock.running = true;
    let t = tick(&mut seq, &mut clock);
    assert_eq!(
        t.trigger,
        Some(SeqTrigger::Hard { semitone: 36, accent: false }),
        "step 0 must fire on the first running sample"
    );
    assert!(!t.gate_off);
}

#[test]
fn all_rest_pattern_never_triggers() {
    let mut seq = Sequencer::new();
    seq.pattern = Pattern::empty();
    let mut clock = TestClock::new(None);
    clock.running = true;
    let (trigs, _) = count_ticks(&mut seq, &mut clock, 48_000);
    assert_eq!(trigs, 0);
}

#[test]
fn leading_slide_is_demoted_to_hard_trigger() {
    let mut seq = Sequencer::new();
    seq.pattern = Pattern::empty();
    seq.pattern.steps[15] = Step { semitone: 43, accent: false, slide: true, rest: false };
    seq.pattern.steps[0] = Step { semitone: 48, accent: false, slide: false, rest: false };
    let mut clock = TestClock::new(None);
    clock.running = true;
    let t = tick(&mut seq, &mut clock);
    assert_eq!(t.trigger, Some(SeqTrigger::Hard { semitone: 48, accent: false }));
}

#[test]
fn default_pattern_fires_on_step_zero_and_advances() {
    let mut seq = Sequencer::new();
    let mut clock = TestClock::new(Some(3000));
    clock.running = true;
    let first = tick(&mut seq, &mut clock);
    assert!(first.trigger.is_some(), "default pattern step 0 should trigger");
    let (more_trigs, more_gates) = count_ticks(&mut seq, &mut clock, 48_000);
    assert!(more_trigs >= 1, "expected subsequent triggers in 1s");
    assert!(more_gates >= 1, "expected gate-off events at half gate length");
}

// ── Further cases ──────────────────────────────────────────────────

#[test]
fn riff_first_second_triggers_and_slides() {
    // One second at 120 BPM is 8 steps of the factory riff: steps 0..7
    // fire (step 0 on the first sample, 1..7 on their boundaries, and
    // step 8 on sample 48000). Rests 1 and 5 emit nothing; step 7 slides.
    let mut seq = Sequencer::new();
    let mut clock = TestClock::new(Some(3000));
    clock.running = true;
    let mut trigs = Vec::new();
    let mut gate_off_at = Vec::new();
    for i in 0..48_001u64 {
        let t = tick(&mut seq, &mut clock);
        if let Some(tr) = t.trigger {
            trigs.push((i, tr));
        }
        if t.gate_off {
            gate_off_at.push(i);
        }
    }
    let hard = |s| SeqTrigger::Hard { semitone: s, accent: false };
    assert_eq!(
        trigs,
        vec![
            (0, SeqTrigger::Hard { semitone: 36, accent: true }),
            (12_000, hard(36)),
            (18_000, hard(48)),
            (24_000, hard(36)),
            (36_000, hard(36)),
            (42_000, SeqTrigger::Slide { semitone: 39, accent: false }),
            (48_000, SeqTrigger::Hard { semitone: 36, accent: true }),
        ]
    );
    // Step 6 slides into step 7, so its gate stays open; rests have
    // gates too but close nothing audible: the engine still releases.
    assert_eq!(gate_off_at, vec![3_001, 9_001, 15_001, 21_001, 27_001, 33_001, 45_001]);
}

#[test]
fn stopping_rearms_the_bootstrap() {
    let mut seq = Sequencer::new();
    let mut clock = TestClock::new(None);
    clock.running = true;
    assert!(tick(&mut seq, &mut clock).trigger.is_some());
    assert!(tick(&mut seq, &mut clock).trigger.is_none());
    clock.running = false;
    assert_eq!(tick(&mut seq, &mut clock), SeqTick::default());
    clock.running = true;
    let t = tick(&mut seq, &mut clock);
    assert_eq!(t.boundary, Some(clock.step));
    assert!(t.trigger.is_some());
}

#[test]
fn reset_forgets_the_running_phase() {
    let mut seq = Sequencer::new();
    seq.pattern = Pattern::empty();
    seq.pattern.steps[0] = Step { semitone: 40, accent: false, slide: true, rest: false };
    seq.pattern.steps[1] = Step { semitone: 45, accent: false, slide: false, rest: false };
    // Something played, so landing on step 1 slides.
    let t0 = seq.emit_for_step(0);
    assert_eq!(t0.trigger, Some(SeqTrigger::Hard { semitone: 40, accent: false }));
    assert_eq!(seq.emit_for_step(1).trigger, Some(SeqTrigger::Slide { semitone: 45, accent: false }));
    seq.reset();
    assert!(!seq.bootstrapped && !seq.has_triggered);
    assert_eq!(seq.emit_for_step(17).trigger, Some(SeqTrigger::Hard { semitone: 45, accent: false }));
}

#[test]
fn gate_off_on_a_boundary_closes_the_step_just_left() {
    let mut seq = Sequencer::new();
    seq.pattern = Pattern::empty();
    seq.pattern.steps[2] = Step { semitone: 40, accent: false, slide: true, rest: false };
    seq.pattern.steps[3] = Step { semitone: 41, accent: false, slide: false, rest: false };
    seq.bootstrapped = true;
    // Gate-off and boundary into step 3 on one sample: the closing step
    // is 2, which bridges, so no gate-off passes.
    let t = seq.tick_end(ClockTick { step: Some(3), gate_off: true }, 3);
    assert!(!t.gate_off);
    assert_eq!(t.boundary, Some(3));
    // Mid-step gate-off inside step 3 passes.
    let t = seq.tick_end(ClockTick { step: None, gate_off: true }, 3);
    assert!(t.gate_off);
    assert_eq!(t.trigger, None);
}

#[test]
fn stopping_forgets_the_note_to_slide_from() {
    let mut seq = Sequencer::new();
    seq.pattern = Pattern::empty();
    seq.pattern.steps[0] = Step { semitone: 40, accent: false, slide: true, rest: false };
    seq.pattern.steps[1] = Step { semitone: 45, accent: true, slide: false, rest: false };
    // Step 0 plays in the first running phase.
    let t = seq.tick_begin(true, 0).unwrap();
    assert_eq!(t.trigger, Some(SeqTrigger::Hard { semitone: 40, accent: false }));
    // Stop: the running phase ends.
    assert_eq!(seq.tick_begin(false, 0), Some(SeqTick::default()));
    assert!(!seq.has_triggered);
    // Restarting on step 1, which step 0 slides into: nothing rings in
    // the new phase, so the note is a hard trigger.
    let t = seq.tick_begin(true, 1).unwrap();
    assert_eq!(t.trigger, Some(SeqTrigger::Hard { semitone: 45, accent: true }));
}
