use squelchbox::cc::{cc_target, CcTarget};
use squelchbox::fx::{DelayMode, QualityMode, SyncDiv};
use squelchbox::kbd::{KbdEvent, KbdQueue};
use squelchbox::pattern::{Pattern, Step};
use squelchbox::paths::{
    export_dir, fallback_dir, squelchbox_hidden_presets_file, squelchbox_last_preset_file,
    squelchbox_log_dir, squelchbox_preset_dir, squelchbox_ui_scale_file,
};
use squelchbox::sequencer::{SeqTick, SeqTrigger, Sequencer};
use squelchbox::transport::{
    apply_bank_switch, is_loop_start, keyboard_move, note_on_move, sequencer_move, BlockPlan, HostFollow, SyncMode,
    TempoSource, VoiceMove,
};

#[test]
fn preset_dir_is_under_data_dir() {
    let data = "/home/user/.local/share/squelchbox";
    assert!(squelchbox_preset_dir(data).starts_with(data));
    assert_eq!(squelchbox_preset_dir(data), "/home/user/.local/share/squelchbox/presets");
}

#[test]
fn log_dir_is_under_data_dir() {
    let data = "/home/user/.local/share/squelchbox";
    assert!(squelchbox_log_dir(data).starts_with(data));
    assert_eq!(squelchbox_log_dir(data), "/home/user/.local/share/squelchbox/logs");
}

#[test]
fn state_files_and_joins() {
    assert_eq!(squelchbox_last_preset_file("/d"), "/d/last_preset.txt");
    assert_eq!(squelchbox_hidden_presets_file("/d/"), "/d/hidden_presets.txt");
    assert_eq!(squelchbox_ui_scale_file("d"), "d/ui_scale.txt");
    assert_eq!(fallback_dir(""), "squelchbox");
    assert_eq!(fallback_dir("/tmp"), "/tmp/squelchbox");
    assert_eq!(export_dir(Some("/x"), Some("/h")), "/x/squelchbox/exports");
    assert_eq!(export_dir(None, Some("/h")), "/h/.local/share/squelchbox/exports");
    assert_eq!(export_dir(None, None), "/tmp/squelchbox/exports");
    assert_eq!(squelchbox_log_dir("/é"), "/é/logs");
}

#[test]
fn host_mode_waits_for_a_first_stop_and_restarts_on_play() {
    let mut h = HostFollow::new();
    // Standalone reports playing from the start: no auto-play.
    let p = h.plan_block(SyncMode::Host, true, false, false);
    assert_eq!(p, BlockPlan { clock_running: false, tempo: TempoSource::Host, reset_sequencer: false });
    let p = h.plan_block(SyncMode::Host, false, false, false);
    assert!(!p.clock_running && !p.reset_sequencer);
    // Play edge: run and restart from step 0.
    let p = h.plan_block(SyncMode::Host, true, false, false);
    assert!(p.clock_running && p.reset_sequencer);
    let p = h.plan_block(SyncMode::Host, true, false, false);
    assert!(p.clock_running && !p.reset_sequencer);
}

#[test]
fn internal_and_midi_modes() {
    let mut h = HostFollow::new();
    let p = h.plan_block(SyncMode::Internal, true, true, false);
    assert_eq!(p, BlockPlan { clock_running: true, tempo: TempoSource::Knob, reset_sequencer: false });
    let p = h.plan_block(SyncMode::Internal, true, true, true);
    assert!(p.reset_sequencer);
    let p = h.plan_block(SyncMode::Midi, false, true, false);
    assert_eq!(p, BlockPlan { clock_running: false, tempo: TempoSource::Knob, reset_sequencer: false });
    assert!(h.host_ever_stopped && !h.host_was_running);
    assert_eq!(SyncMode::Internal.next(), SyncMode::Host);
    assert_eq!(SyncMode::Host.next().next(), SyncMode::Internal);
}

#[test]
fn voice_dispatch() {
    let slide = SeqTrigger::Slide { semitone: 40, accent: true };
    assert_eq!(sequencer_move(slide, true), VoiceMove::SlideTo { note: 40, accent: true });
    assert_eq!(sequencer_move(slide, false), VoiceMove::Trigger { note: 40, accent: true });
    assert_eq!(
        sequencer_move(SeqTrigger::Hard { semitone: 41, accent: false }, true),
        VoiceMove::Trigger { note: 41, accent: false }
    );
    assert_eq!(note_on_move(50, false, true), VoiceMove::SlideTo { note: 50, accent: false });
    assert_eq!(note_on_move(50, false, false), VoiceMove::Trigger { note: 50, accent: false });
    assert_eq!(keyboard_move(KbdEvent { on: true, note: 3, accent: true }), VoiceMove::Trigger { note: 3, accent: true });
    assert_eq!(keyboard_move(KbdEvent { on: false, note: 0, accent: false }), VoiceMove::GateOff);
    assert!(is_loop_start(32, 16));
    assert!(!is_loop_start(33, 16));
    assert!(is_loop_start(7, 0));
    assert!(is_loop_start(14, 7));
}

#[test]
fn effect_selectors() {
    let mut d = SyncDiv::Quarter;
    let mut seen = Vec::new();
    for _ in 0..5 {
        seen.push((d.label(), d.factor_ratio()));
        d = d.next();
    }
    assert_eq!(d, SyncDiv::Quarter);
    assert_eq!(
        seen,
        vec![("1/4", (1, 1)), ("1/8", (1, 2)), ("1/8d", (3, 4)), ("1/16", (1, 4)), ("1/8t", (1, 3))]
    );
    assert_eq!(DelayMode::Clean.toggled(), DelayMode::Analog);
    assert_eq!(DelayMode::Analog.toggled(), DelayMode::Clean);
    assert_eq!(QualityMode::Normal.oversampling(), 1);
    assert_eq!(QualityMode::High.oversampling(), 2);
    assert_eq!(QualityMode::Ultra.oversampling(), 2);
}

#[test]
fn cc_map() {
    assert_eq!(cc_target(74), Some(CcTarget::Cutoff));
    assert_eq!(cc_target(71), Some(CcTarget::Resonance));
    assert_eq!(cc_target(5), Some(CcTarget::SlideMs));
    assert_eq!(cc_target(7), Some(CcTarget::MasterVolume));
    assert_eq!(cc_target(91), Some(CcTarget::ReverbMix));
    assert_eq!(cc_target(93), Some(CcTarget::DelayMix));
    assert_eq!(cc_target(13), Some(CcTarget::DistDrive));
    assert_eq!(cc_target(1), None);
    assert_eq!(cc_target(127), None);
}

#[test]
fn queued_bank_lands_on_the_loop_start() {
    let mut q = KbdQueue::new();
    let mut slot2 = Pattern::empty();
    slot2.length = 4;
    slot2.steps[0] = Step { semitone: 50, accent: true, slide: false, rest: false };
    q.bank.patterns[2] = slot2;
    let mut seq = Sequencer::new();
    seq.pattern.length = 8;
    q.queue_bank(6);
    // Step 5 is no loop start: nothing happens.
    let t = SeqTick { gate_off: true, trigger: None, boundary: Some(5) };
    assert_eq!(apply_bank_switch(&mut seq, &mut q, t), t);
    assert_eq!(q.queued_bank(), Some(2));
    // Step 16 starts a loop of 8: slot 2 takes over and its first note
    // replaces the tick's trigger.
    let t = SeqTick { gate_off: true, trigger: None, boundary: Some(16) };
    let out = apply_bank_switch(&mut seq, &mut q, t);
    assert_eq!(out, SeqTick {
        gate_off: false,
        trigger: Some(SeqTrigger::Hard { semitone: 50, accent: true }),
        boundary: Some(16),
    });
    assert_eq!(q.queued_bank(), None);
    assert_eq!(q.current_bank(), 2);
    assert_eq!(q.bank.active, 2);
    assert_eq!(seq.pattern.length, 4);
    // Nothing queued any more: the next loop start passes through.
    let t = SeqTick { gate_off: false, trigger: None, boundary: Some(20) };
    assert_eq!(apply_bank_switch(&mut seq, &mut q, t), t);
}
