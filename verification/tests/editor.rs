use squelchbox::edit::{
    audition_index, grid_key_edit, nav_wrap, next_ui_scale, step_back, step_forward, GridKeys, SelectionChange,
    RANDOM_ACCENT_Q24, RANDOM_DENSITY_Q24, RANDOM_ROOT, RANDOM_SLIDE_Q24,
};
use squelchbox::kbd::{KbdEvent, KbdQueue, NO_SELECTION};
use squelchbox::keys::KeyAction;
use squelchbox::pattern::{Pattern, Step};

fn ev(note: u8, accent: bool) -> KbdEvent {
    KbdEvent { on: true, note, accent }
}

#[test]
fn fresh_queue_defaults() {
    let q = KbdQueue::new();
    assert_eq!(q.octave(), 3);
    assert_eq!(q.view_oct(), 2);
    assert_eq!(q.selected_step(), Some(0));
    assert_eq!(q.queued_bank(), None);
    assert_eq!(q.current_bank(), 0);
    assert!(!q.is_seq_running());
    assert_eq!(q.pattern_snapshot().steps, Pattern::default_classic_riff().steps);
}

#[test]
fn event_queue_caps_at_128_and_drains_in_order() {
    let mut q = KbdQueue::new();
    for i in 0..130u32 {
        q.push(ev((i % 128) as u8, false));
    }
    let mut out = vec![KbdEvent { on: false, note: 0, accent: false }];
    q.drain_into(&mut out);
    assert_eq!(out.len(), 129);
    assert_eq!(out[1].note, 0);
    assert_eq!(out[128].note, 127);
    let mut again = Vec::new();
    q.drain_into(&mut again);
    assert!(again.is_empty());
}

#[test]
fn octave_and_view_window_clamp() {
    let mut q = KbdQueue::new();
    q.set_octave(12);
    assert_eq!(q.octave(), 8);
    q.set_octave(-3);
    assert_eq!(q.octave(), 0);
    q.set_view_oct(9);
    assert_eq!(q.view_oct(), 2);
    q.nudge_view_oct(-5);
    assert_eq!(q.view_oct(), 0);
    q.nudge_view_oct(1);
    assert_eq!(q.view_oct(), 1);
    q.nudge_view_oct(127);
    assert_eq!(q.view_oct(), 2);
}

#[test]
fn run_toggle_rewinds_and_moves_the_selection() {
    let mut q = KbdQueue::new();
    assert!(q.toggle_seq_run());
    assert!(q.take_rewind());
    assert!(!q.take_rewind());
    assert_eq!(q.selected_step(), None);
    assert_eq!(q.selected_step, NO_SELECTION);
    assert!(!q.toggle_seq_run());
    assert_eq!(q.selected_step(), Some(0));
    q.request_rewind();
    assert!(q.take_rewind());
}

#[test]
fn queued_bank_switch_is_taken_once() {
    let mut q = KbdQueue::new();
    q.queue_bank(6);
    assert_eq!(q.queued_bank(), Some(2));
    assert_eq!(q.take_pending_bank(), Some(2));
    assert_eq!(q.take_pending_bank(), None);
    q.edit_pattern().steps[0].semitone = 55;
    let rev = q.pattern_rev();
    let p = q.swap_active_bank(5);
    assert_eq!(q.current_bank(), 1);
    assert_eq!(p.steps[0].semitone, 60);
    assert_eq!(q.pattern_rev(), rev);
    assert_eq!(q.bank_snapshot().patterns[0].steps[0].semitone, 55);
}

#[test]
fn edits_bump_the_revision() {
    let mut q = KbdQueue::new();
    assert_eq!(q.pattern_rev(), 0);
    q.edit_pattern().rotate_left(1);
    assert_eq!(q.pattern_rev(), 1);
    q.store_pattern(Pattern::empty());
    assert_eq!(q.pattern_rev(), 2);
    assert!(q.pattern_snapshot().steps.iter().all(|s| s.rest));
    let mut b = q.bank_snapshot();
    b.active = 3;
    q.replace_bank(b);
    assert_eq!(q.current_bank(), 3);
    assert_eq!(q.pattern_rev(), 3);
}

#[test]
fn key_actions_drive_the_queue() {
    let mut q = KbdQueue::new();
    q.clear_selected_step();
    assert!(q.apply_key_action(KeyAction::Play { semi: 4 }, true, 0));
    assert!(!q.apply_key_action(KeyAction::OctaveDown, false, 0));
    assert_eq!(q.octave(), 2);
    assert!(q.apply_key_action(KeyAction::Play { semi: 0 }, false, 0));
    let mut out = Vec::new();
    q.drain_into(&mut out);
    assert_eq!(out, vec![ev(52, true), ev(36, false)]);

    // With step 3 selected, a note key writes onto it (clamped into 24..=60).
    q.set_selected_step(3);
    q.set_octave(8);
    assert!(q.apply_key_action(KeyAction::WriteSelected { semi: 2 }, false, 0));
    let s = q.pattern_snapshot().steps[3];
    assert_eq!((s.semitone, s.rest), (60, false));
    q.set_selected_step(1);
    assert!(!q.apply_key_action(KeyAction::AuditionSelected, false, 0)); // step 1 is a rest
    q.drain_into(&mut out);
    assert_eq!(out[2..], [ev(60, false)]);

    let before = q.pattern_snapshot();
    q.apply_key_action(KeyAction::RotateLeft, false, 0);
    assert_eq!(q.pattern_snapshot().steps[0], before.steps[1]);
    q.apply_key_action(KeyAction::RotateRight, false, 0);
    assert_eq!(q.pattern_snapshot().steps, before.steps);
    assert!(!q.apply_key_action(KeyAction::ToggleRun, false, 0));
    assert!(q.is_seq_running());
}

#[test]
fn randomize_keeps_length_and_swing() {
    let mut q = KbdQueue::new();
    q.edit_pattern().length = 7;
    q.edit_pattern().swing_bits = 0.5f32.to_bits();
    q.randomize_pattern(1234);
    let p = q.pattern_snapshot();
    assert_eq!(p.length, 7);
    assert_eq!(f32::from_bits(p.swing_bits), 0.5);
    let r = Pattern::random(1234, RANDOM_DENSITY_Q24, RANDOM_ACCENT_Q24, RANDOM_SLIDE_Q24, RANDOM_ROOT);
    assert_eq!(p.steps, r.steps);
    assert_eq!(RANDOM_DENSITY_Q24, (0.65f32 * 16_777_216.0).ceil() as u32);
    assert_eq!(RANDOM_ACCENT_Q24, (0.35f32 * 16_777_216.0).ceil() as u32);
    assert_eq!(RANDOM_SLIDE_Q24, (0.25f32 * 16_777_216.0).ceil() as u32);
}

#[test]
fn step_buttons_navigate_and_audition() {
    let mut q = KbdQueue::new();
    q.edit_pattern().length = 8;
    q.clear_selected_step();
    q.set_current_step(19); // playhead on step 3 of 8
    q.single_step_audition();
    assert_eq!(q.selected_step(), Some(3));
    assert_eq!(q.current_step(), 3);
    q.back_step();
    assert_eq!(q.selected_step(), Some(2));
    q.set_selected_step(0);
    q.back_step();
    assert_eq!(q.selected_step(), Some(7));
    q.next_step();
    assert_eq!(q.selected_step(), Some(0));
    let mut out = Vec::new();
    q.drain_into(&mut out);
    // Steps 3 (48), 2 (36), 7 (39), 0 (36, accented); none is a rest.
    assert_eq!(out, vec![ev(48, false), ev(36, false), ev(39, false), ev(36, true)]);
}

#[test]
fn navigation_arithmetic() {
    assert_eq!(audition_index(Some(5), 99, 16), 5);
    assert_eq!(audition_index(None, 99, 16), 3);
    assert_eq!(audition_index(None, 99, 0), 0);
    assert_eq!(step_back(None, 16, 16), 15);
    assert_eq!(step_back(Some(9), 0, 4), 8);
    assert_eq!(step_forward(Some(3), 0, 4), 0);
    assert_eq!(step_forward(Some(9), 0, 4), 2);
    assert_eq!(nav_wrap(0, -1, 16), 15);
    assert_eq!(nav_wrap(2, -7, 4), 3);
    assert_eq!(nav_wrap(15, 1, 16), 0);
    assert_eq!(nav_wrap(3, 0, 0), 0);
}

#[test]
fn step_cell_edits() {
    let mut p = Pattern::empty();
    p.insert_step(2);
    assert_eq!(p.steps[2], Step { semitone: 60, accent: false, slide: false, rest: false });
    p.steps[3].semitone = 70;
    p.insert_step(3);
    assert_eq!(p.steps[3].semitone, 36);
    p.toggle_accent(4);
    assert!(!p.steps[4].rest && p.steps[4].accent);
    p.toggle_slide(4);
    assert!(p.steps[4].slide);
    p.toggle_rest(4);
    assert!(p.steps[4].rest);
    p.delete_step(2);
    assert!(p.steps[2].rest);
    p.set_step_pitch(5, 99);
    assert_eq!((p.steps[5].semitone, p.steps[5].rest), (60, false));
    p.shift_step_pitch(5, -12);
    assert_eq!(p.steps[5].semitone, 48);
    assert_eq!(p.nudge_step_pitch(6, -20), 24);
    p.clear_all();
    assert!(p.steps.iter().all(|s| s.rest));
    p.length = 1;
    p.shorten();
    assert_eq!(p.length, 1);
    p.lengthen();
    assert_eq!(p.length, 2);
    p.length = 16;
    p.lengthen();
    assert_eq!(p.length, 16);
    p.shorten();
    assert_eq!(p.length, 15);
}

#[test]
fn grid_keys_edit_the_selected_step() {
    let mut p = Pattern::default_classic_riff();
    let keys = GridKeys { dp: 12, nav: -1, toggle_accent: true, toggle_slide: false, toggle_rest: false, escape: false };
    let out = grid_key_edit(&mut p, 1, keys, true);
    // Step 1 was a rest: it counts as 36, moves to 48, becomes audible
    // and accented; the selection moves to step 0.
    assert_eq!(p.steps[1], Step { semitone: 48, accent: true, slide: false, rest: false });
    assert!(out.dirty);
    assert_eq!(out.selection, SelectionChange::Select(0));
    assert_eq!(out.audition, Some(ev(48, false)));
    let keys = GridKeys { dp: 0, nav: 1, toggle_accent: false, toggle_slide: false, toggle_rest: true, escape: true };
    let out = grid_key_edit(&mut p, 15, keys, false);
    assert!(p.steps[15].rest);
    assert_eq!(out.selection, SelectionChange::Clear);
    assert_eq!(out.audition, None);
}

#[test]
fn ui_scale_cycles_one_two_three() {
    assert_eq!(next_ui_scale(1), 2);
    assert_eq!(next_ui_scale(2), 3);
    assert_eq!(next_ui_scale(3), 1);
    assert_eq!(next_ui_scale(0), 1);
    assert_eq!(next_ui_scale(7), 1);
}

#[test]
fn step_buttons_touch_only_selection_playhead_and_queue() {
    let mut q = KbdQueue::new();
    q.set_octave(5);
    q.request_rewind();
    q.queue_bank(2);
    q.clear_selected_step();
    q.next_step();
    q.back_step();
    q.single_step_audition();
    assert_eq!(q.octave(), 5);
    assert!(q.take_rewind());
    assert_eq!(q.queued_bank(), Some(2));
    assert_eq!(q.pattern_rev(), 0);
}
