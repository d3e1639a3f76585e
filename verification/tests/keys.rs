use squelchbox::keys::{
    key_action, key_to_semitone, keyboard_note, midi_note_name, note_key_pressed, release_keys, step_entry_note,
    t_held_next, Key, KeyAction,
};

#[test]
fn note_names() {
    assert_eq!(midi_note_name(60), "C4");
    assert_eq!(midi_note_name(61), "C#4");
    assert_eq!(midi_note_name(69), "A4");
    assert_eq!(midi_note_name(36), "C2");
    assert_eq!(midi_note_name(0), "C-1");
    assert_eq!(midi_note_name(11), "B-1");
    assert_eq!(midi_note_name(127), "G9");
    assert_eq!(midi_note_name(120), "C9");
    assert_eq!(midi_note_name(132), "C10");
    assert_eq!(midi_note_name(255), "D#20");
}

#[test]
fn bottom_and_top_rows() {
    let bottom = [Key::Z, Key::S, Key::X, Key::D, Key::C, Key::V, Key::G, Key::B, Key::H, Key::N, Key::J, Key::M, Key::Comma, Key::L, Key::Period];
    for (i, k) in bottom.iter().enumerate() {
        assert_eq!(key_to_semitone(*k), Some(i as i32));
    }
    let top = [Key::Q, Key::Num2, Key::W, Key::Num3, Key::E, Key::R, Key::Num5, Key::T, Key::Num6, Key::Y, Key::Num7, Key::U, Key::I];
    for (i, k) in top.iter().enumerate() {
        assert_eq!(key_to_semitone(*k), Some(12 + i as i32));
    }
    assert_eq!(key_to_semitone(Key::A), None);
    assert_eq!(key_to_semitone(Key::Other), None);
}

#[test]
fn note_from_octave_and_offset() {
    assert_eq!(keyboard_note(3, 0), 48);
    assert_eq!(keyboard_note(8, 24), 127);
    assert_eq!(keyboard_note(0, 0), 12);
    assert_eq!(keyboard_note(-5, 0), 0);
    assert_eq!(step_entry_note(3, 0), 48);
    assert_eq!(step_entry_note(3, 24), 60);
    assert_eq!(step_entry_note(0, 0), 24);
    assert_eq!(step_entry_note(1, 4), 28);
}

#[test]
fn key_dispatch() {
    assert_eq!(key_action(Key::Z, false), KeyAction::Play { semi: 0 });
    assert_eq!(key_action(Key::Z, true), KeyAction::WriteSelected { semi: 0 });
    assert_eq!(key_action(Key::S, true), KeyAction::LeaveToStepGrid);
    assert_eq!(key_action(Key::S, false), KeyAction::Play { semi: 1 });
    assert_eq!(key_action(Key::T, true), KeyAction::AuditionSelected);
    assert_eq!(key_action(Key::T, false), KeyAction::Play { semi: 19 });
    assert_eq!(key_action(Key::ArrowUp, false), KeyAction::OctaveUp);
    assert_eq!(key_action(Key::ArrowUp, true), KeyAction::LeaveToStepGrid);
    assert_eq!(key_action(Key::ArrowDown, false), KeyAction::OctaveDown);
    assert_eq!(key_action(Key::P, true), KeyAction::ToggleRun);
    assert_eq!(key_action(Key::Space, false), KeyAction::ToggleRun);
    assert_eq!(key_action(Key::Enter, false), KeyAction::Rewind);
    assert_eq!(key_action(Key::OpenBracket, false), KeyAction::RotateLeft);
    assert_eq!(key_action(Key::CloseBracket, true), KeyAction::RotateRight);
    assert_eq!(key_action(Key::Backtick, false), KeyAction::Randomize);
    assert_eq!(key_action(Key::Escape, false), KeyAction::Ignore);
    assert_eq!(key_action(Key::Escape, true), KeyAction::LeaveToStepGrid);
    assert_eq!(key_action(Key::Other, true), KeyAction::Ignore);
}

#[test]
fn releasing_the_last_sounding_key_sends_one_note_off() {
    // Z and T sound; Z is let go while T is held: no note-off yet.
    let (kept, off) = release_keys(&vec![Key::Z, Key::T], &vec![Key::T, Key::P]);
    assert_eq!(kept, vec![Key::T]);
    assert!(!off);
    // T is let go too: the set empties and one note-off goes out.
    let (kept, off) = release_keys(&kept, &vec![Key::P]);
    assert!(kept.is_empty());
    assert!(off);
    // Nothing sounding: nothing to release.
    let (kept, off) = release_keys(&kept, &vec![]);
    assert!(kept.is_empty());
    assert!(!off);
}

#[test]
fn sounding_keys_are_listed_once() {
    let mut sounding = vec![];
    note_key_pressed(&mut sounding, Key::Z);
    note_key_pressed(&mut sounding, Key::X);
    note_key_pressed(&mut sounding, Key::Z);
    assert_eq!(sounding, vec![Key::Z, Key::X]);
}

#[test]
fn t_latch_survives_while_shift_is_held() {
    assert!(t_held_next(false, true, false, false));
    assert!(t_held_next(false, false, true, false));
    assert!(t_held_next(true, false, false, true));
    assert!(!t_held_next(false, false, false, true));
    assert!(!t_held_next(true, false, false, false));
}
