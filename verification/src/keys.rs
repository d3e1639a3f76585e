//! Computer-keyboard note map, key dispatch, and note naming.

use vstd::prelude::*;
use vstd::string::StringExecFns;

verus! {

/// The keys the editor reacts to. Every other key is `Other`.
#[derive(Clone, Copy, Debug, PartialEq, Eq, Structural)]
pub enum Key {
    Z,
    S,
    X,
    D,
    C,
    V,
    G,
    B,
    H,
    N,
    J,
    M,
    Comma,
    L,
    Period,
    Q,
    Num2,
    W,
    Num3,
    E,
    R,
    Num5,
    T,
    Num6,
    Y,
    Num7,
    U,
    I,
    A,
    P,
    Space,
    Enter,
    Escape,
    Delete,
    Backspace,
    ArrowUp,
    ArrowDown,
    ArrowLeft,
    ArrowRight,
    OpenBracket,
    CloseBracket,
    Backtick,
    Other,
}

/// The semitone offset a key plays, Renoise-style: the bottom row
/// `Z S X D C V G B H N J M , L .` spans C to D one octave up, the top
/// row `Q 2 W 3 E R 5 T 6 Y 7 U I` spans the second octave from C+12.
pub open spec fn semitone_of(key: Key) -> Option<i32> {
    match key {
        Key::Z => Some(0),
        Key::S => Some(1),
        Key::X => Some(2),
        Key::D => Some(3),
        Key::C => Some(4),
        Key::V => Some(5),
        Key::G => Some(6),
        Key::B => Some(7),
        Key::H => Some(8),
        Key::N => Some(9),
        Key::J => Some(10),
        Key::M => Some(11),
        Key::Comma => Some(12),
        Key::L => Some(13),
        Key::Period => Some(14),
        Key::Q => Some(12),
        Key::Num2 => Some(13),
        Key::W => Some(14),
        Key::Num3 => Some(15),
        Key::E => Some(16),
        Key::R => Some(17),
        Key::Num5 => Some(18),
        Key::T => Some(19),
        Key::Num6 => Some(20),
        Key::Y => Some(21),
        Key::Num7 => Some(22),
        Key::U => Some(23),
        Key::I => Some(24),
        _ => None,
    }
}

/// Map a key to its semitone offset within the two-row note map, or
/// `None` for keys outside it.
pub fn key_to_semitone(key: Key) -> (r: Option<i32>)
    ensures
        r == semitone_of(key),
{
    match key {
        Key::Z => Some(0),
        Key::S => Some(1),
        Key::X => Some(2),
        Key::D => Some(3),
        Key::C => Some(4),
        Key::V => Some(5),
        Key::G => Some(6),
        Key::B => Some(7),
        Key::H => Some(8),
        Key::N => Some(9),
        Key::J => Some(10),
        Key::M => Some(11),
        Key::Comma => Some(12),
        Key::L => Some(13),
        Key::Period => Some(14),
        Key::Q => Some(12),
        Key::Num2 => Some(13),
        Key::W => Some(14),
        Key::Num3 => Some(15),
        Key::E => Some(16),
        Key::R => Some(17),
        Key::Num5 => Some(18),
        Key::T => Some(19),
        Key::Num6 => Some(20),
        Key::Y => Some(21),
        Key::Num7 => Some(22),
        Key::U => Some(23),
        Key::I => Some(24),
        _ => None,
    }
}

/// The MIDI note a live key press plays: C of keyboard octave `octave`
/// is `12 * (octave + 1)`; the sum is clamped into `0..=127`.
pub open spec fn live_note(octave: i8, semi: i32) -> u8 {
    let v = 12 * (octave + 1) + semi;
    if v < 0 {
        0
    } else if v > 127 {
        127
    } else {
        v as u8
    }
}

/// The MIDI note a key writes onto the selected step: as `live_note`,
/// but clamped into the editor's range `24..=60`.
pub open spec fn entry_note(octave: i8, semi: i32) -> u8 {
    crate::pattern::clamp_edit_semi(12 * (octave + 1) + semi)
}

/// The note a live key press plays.
pub fn keyboard_note(octave: i8, semi: i32) -> (n: u8)
    ensures
        n == live_note(octave, semi),
{
    let v: i64 = 12 * (octave as i64 + 1) + semi as i64;
    if v < 0 {
        0
    } else if v > 127 {
        127
    } else {
        v as u8
    }
}

/// The note a key writes onto the selected step.
pub fn step_entry_note(octave: i8, semi: i32) -> (n: u8)
    ensures
        n == entry_note(octave, semi),
{
    let v: i64 = 12 * (octave as i64 + 1) + semi as i64;
    if v < 24 {
        24
    } else if v > 60 {
        60
    } else {
        v as u8
    }
}

/// What a freshly pressed key asks for.
#[derive(Clone, Copy, Debug, PartialEq, Eq)]
pub enum KeyAction {
    /// The step grid handles this key itself while a step is selected.
    LeaveToStepGrid,
    /// Audition the selected step's note.
    AuditionSelected,
    /// Write the note for this semitone offset onto the selected step
    /// and audition it.
    WriteSelected { semi: i32 },
    OctaveDown,
    OctaveUp,
    ToggleRun,
    Rewind,
    RotateLeft,
    RotateRight,
    Randomize,
    /// Play the note for this semitone offset.
    Play { semi: i32 },
    /// The key does nothing.
    Ignore,
}

/// The action for a newly pressed key. With a step selected, the
/// arrows, `A`, `S`, `R`, `Delete`, `Backspace` and `Escape` belong to
/// the step grid, `T` auditions the step and note keys write onto it;
/// any other key, and every key without a selection, takes its global
/// meaning.
pub open spec fn action_of(key: Key, edit_mode: bool) -> KeyAction {
    if edit_mode && (key == Key::ArrowUp || key == Key::ArrowDown || key == Key::ArrowLeft || key
        == Key::ArrowRight || key == Key::A || key == Key::S || key == Key::R || key == Key::Delete
        || key == Key::Backspace || key == Key::Escape) {
        KeyAction::LeaveToStepGrid
    } else if edit_mode && key == Key::T {
        KeyAction::AuditionSelected
    } else if edit_mode && semitone_of(key) is Some {
        KeyAction::WriteSelected { semi: semitone_of(key).unwrap() }
    } else if key == Key::ArrowDown {
        KeyAction::OctaveDown
    } else if key == Key::ArrowUp {
        KeyAction::OctaveUp
    } else if key == Key::P || key == Key::Space {
        KeyAction::ToggleRun
    } else if key == Key::Enter {
        KeyAction::Rewind
    } else if key == Key::OpenBracket {
        KeyAction::RotateLeft
    } else if key == Key::CloseBracket {
        KeyAction::RotateRight
    } else if key == Key::Backtick {
        KeyAction::Randomize
    } else if semitone_of(key) is Some {
        KeyAction::Play { semi: semitone_of(key).unwrap() }
    } else {
        KeyAction::Ignore
    }
}

/// Decide what a newly pressed key does; `edit_mode` is whether a step
/// is selected.
pub fn key_action(key: Key, edit_mode: bool) -> (a: KeyAction)
    ensures
        a == action_of(key, edit_mode),
{
    if edit_mode {
        match key {
            Key::ArrowUp | Key::ArrowDown | Key::ArrowLeft | Key::ArrowRight | Key::A | Key::S
            | Key::R | Key::Delete | Key::Backspace | Key::Escape => {
                return KeyAction::LeaveToStepGrid;
            },
            Key::T => {
                return KeyAction::AuditionSelected;
            },
            _ => {},
        }
        if let Some(semi) = key_to_semitone(key) {
            return KeyAction::WriteSelected { semi };
        }
    }
    match key {
        Key::ArrowDown => KeyAction::OctaveDown,
        Key::ArrowUp => KeyAction::OctaveUp,
        Key::P | Key::Space => KeyAction::ToggleRun,
        Key::Enter => KeyAction::Rewind,
        Key::OpenBracket => KeyAction::RotateLeft,
        Key::CloseBracket => KeyAction::RotateRight,
        Key::Backtick => KeyAction::Randomize,
        _ => match key_to_semitone(key) {
            Some(semi) => KeyAction::Play { semi },
            None => KeyAction::Ignore,
        },
    }
}

/// Name of pitch class `pc` (0..12), sharps spelled with `#`.
pub open spec fn pitch_class_name(pc: int) -> Seq<char> {
    if pc == 0 {
        "C"@
    } else if pc == 1 {
        "C#"@
    } else if pc == 2 {
        "D"@
    } else if pc == 3 {
        "D#"@
    } else if pc == 4 {
        "E"@
    } else if pc == 5 {
        "F"@
    } else if pc == 6 {
        "F#"@
    } else if pc == 7 {
        "G"@
    } else if pc == 8 {
        "G#"@
    } else if pc == 9 {
        "A"@
    } else if pc == 10 {
        "A#"@
    } else {
        "B"@
    }
}

/// The decimal digit `d` (0..10) as text.
pub open spec fn digit_text(d: int) -> Seq<char> {
    if d == 0 {
        "0"@
    } else if d == 1 {
        "1"@
    } else if d == 2 {
        "2"@
    } else if d == 3 {
        "3"@
    } else if d == 4 {
        "4"@
    } else if d == 5 {
        "5"@
    } else if d == 6 {
        "6"@
    } else if d == 7 {
        "7"@
    } else if d == 8 {
        "8"@
    } else {
        "9"@
    }
}

/// `n` written in decimal, without leading zeros.
pub open spec fn decimal_text(n: nat) -> Seq<char>
    decreases n,
{
    if n < 10 {
        digit_text(n as int)
    } else {
        decimal_text(n / 10) + digit_text((n % 10) as int)
    }
}

/// An octave number as text, with a leading `-` when negative.
pub open spec fn octave_text(o: int) -> Seq<char> {
    if o < 0 {
        "-"@ + decimal_text((-o) as nat)
    } else {
        decimal_text(o as nat)
    }
}

/// Scientific pitch name of MIDI note `n`: pitch class, then octave
/// `n / 12 - 1` (so 60 is `C4` and 0 is `C-1`).
pub open spec fn note_name(n: u8) -> Seq<char> {
    pitch_class_name(n as int % 12) + octave_text(n as int / 12 - 1)
}

fn pitch_class_str(pc: u8) -> (s: &'static str)
    requires
        pc < 12,
    ensures
        s@ == pitch_class_name(pc as int),
{
    if pc == 0 {
        "C"
    } else if pc == 1 {
        "C#"
    } else if pc == 2 {
        "D"
    } else if pc == 3 {
        "D#"
    } else if pc == 4 {
        "E"
    } else if pc == 5 {
        "F"
    } else if pc == 6 {
        "F#"
    } else if pc == 7 {
        "G"
    } else if pc == 8 {
        "G#"
    } else if pc == 9 {
        "A"
    } else if pc == 10 {
        "A#"
    } else {
        "B"
    }
}

fn digit_str(d: u8) -> (s: &'static str)
    requires
        d < 10,
    ensures
        s@ == digit_text(d as int),
{
    if d == 0 {
        "0"
    } else if d == 1 {
        "1"
    } else if d == 2 {
        "2"
    } else if d == 3 {
        "3"
    } else if d == 4 {
        "4"
    } else if d == 5 {
        "5"
    } else if d == 6 {
        "6"
    } else if d == 7 {
        "7"
    } else if d == 8 {
        "8"
    } else {
        "9"
    }
}

/// The name of MIDI note `n`, e.g. `C4` for 60 and `F#2` for 42.
pub fn midi_note_name(n: u8) -> (s: String)
    ensures
        s@ == note_name(n),
{
    let mut s = String::new();
    s.append(pitch_class_str(n % 12));
    let oct: u8 = n / 12;
    if oct == 0 {
        s.append("-");
        s.append(digit_str(1));
        assert(decimal_text(1) == digit_text(1));
    } else {
        let v: u8 = oct - 1;
        if v >= 10 {
            s.append(digit_str(v / 10));
            assert(decimal_text((v / 10) as nat) == digit_text((v / 10) as int));
        }
        s.append(digit_str(v % 10));
    }
    assert(s@ =~= note_name(n));
    s
}


/// Whether a key is among `keys_down`.
pub open spec fn held_in(keys_down: Seq<Key>) -> spec_fn(Key) -> bool {
    |k: Key| keys_down.contains(k)
}

fn is_held(k: Key, keys_down: &Vec<Key>) -> (b: bool)
    ensures
        b == keys_down@.contains(k),
{
    for j in 0..keys_down.len()
        invariant
            forall|m: int| 0 <= m < j ==> keys_down@[m] != k,
    {
        if keys_down[j] == k {
            return true;
        }
    }
    false
}

/// Release the notes of keys let go: `sounding` lists the keys whose
/// press sounds a note, `keys_down` the keys held now. The keys still
/// held keep sounding, in their order; when the last one is released
/// (some key was sounding and none is now), the voice gets a single
/// note-off, returned as `true`.
pub fn release_keys(sounding: &Vec<Key>, keys_down: &Vec<Key>) -> (r: (Vec<Key>, bool))
    ensures
        r.0@ == sounding@.filter(held_in(keys_down@)),
        r.1 == (sounding@.len() > 0 && r.0@.len() == 0),
        sounding@.no_duplicates() ==> r.0@.no_duplicates(),
{
    let mut kept: Vec<Key> = Vec::new();
    for i in 0..sounding.len()
        invariant
            kept@ == sounding@.take(i as int).filter(held_in(keys_down@)),
            forall|m: int| #![trigger kept@[m]] 0 <= m < kept@.len() ==> exists|j: int| 0 <= j < i && #[trigger] sounding@[j] == kept@[m],
            sounding@.no_duplicates() ==> kept@.no_duplicates(),
    {
        let k = sounding[i];
        assert(sounding@.take(i + 1) =~= sounding@.take(i as int).push(k));
        proof {
            sounding@.take(i as int).lemma_filter_push(k, held_in(keys_down@));
        }
        if is_held(k, keys_down) {
            let ghost before = kept@;
            proof {
                if sounding@.no_duplicates() {
                    assert forall|m: int| 0 <= m < before.len() implies before[m] != k by {
                        let j = choose|j: int| 0 <= j < i && #[trigger] sounding@[j] == before[m];
                        assert(sounding@[j] != sounding@[i as int]);
                    }
                }
            }
            kept.push(k);
            proof {
                assert forall|m: int| #![trigger kept@[m]] 0 <= m < kept@.len() implies exists|j: int|
                    0 <= j < i + 1 && #[trigger] sounding@[j] == kept@[m] by {
                    if m < before.len() {
                        let j = choose|j: int| 0 <= j < i && #[trigger] sounding@[j] == before[m];
                        assert(sounding@[j] == kept@[m]);
                    } else {
                        assert(sounding@[i as int] == kept@[m]);
                    }
                }
            }
        }
    }
    assert(sounding@.take(sounding@.len() as int) =~= sounding@);
    let off = sounding.len() > 0 && kept.len() == 0;
    (kept, off)
}


/// The keys sounding after `key`'s press made it sound a note: `key`
/// joins them unless it is already there, so each key is listed once.
pub fn note_key_pressed(sounding: &mut Vec<Key>, key: Key)
    ensures
        final(sounding)@ == (if old(sounding)@.contains(key) {
            old(sounding)@
        } else {
            old(sounding)@.push(key)
        }),
        old(sounding)@.no_duplicates() ==> final(sounding)@.no_duplicates(),
{
    if !is_held(key, sounding) {
        sounding.push(key);
    }
}

/// Whether the T key counts as held after this frame: it does when T is
/// down or a T press arrived this frame; otherwise the latch survives
/// while Shift is held (Shift+arrows keep auditioning) and clears
/// when Shift is released.
pub fn t_held_next(held: bool, t_down: bool, t_pressed: bool, shift: bool) -> (r: bool)
    ensures
        r == (if t_down || t_pressed {
            true
        } else if !shift {
            false
        } else {
            held
        }),
{
    if t_down || t_pressed {
        true
    } else if !shift {
        false
    } else {
        held
    }
}


/// The step grid's own keys: the arrows, A (accent), S (slide), R,
/// Delete and Backspace (rest) and Escape (deselect).
pub open spec fn step_grid_keys() -> Seq<Key> {
    seq![
        Key::ArrowUp,
        Key::ArrowDown,
        Key::ArrowLeft,
        Key::ArrowRight,
        Key::A,
        Key::S,
        Key::R,
        Key::Delete,
        Key::Backspace,
        Key::Escape,
    ]
}

/// While a step is selected, every step-grid key is left to the step
/// grid (even those that also play notes, S and R), and no other key
/// is; without a selection no key is left to it.
pub proof fn lemma_grid_keys_go_to_the_grid(key: Key)
    ensures
        step_grid_keys().contains(key) ==> action_of(key, true) == KeyAction::LeaveToStepGrid,
        !step_grid_keys().contains(key) ==> action_of(key, true) != KeyAction::LeaveToStepGrid,
        action_of(key, false) != KeyAction::LeaveToStepGrid,
{
    let g = step_grid_keys();
    if g.contains(key) {
        let i = choose|i: int| 0 <= i < g.len() && g[i] == key;
        assert(i == 0 || i == 1 || i == 2 || i == 3 || i == 4 || i == 5 || i == 6 || i == 7 || i == 8
            || i == 9);
    } else {
        assert(g[0] == Key::ArrowUp && g[1] == Key::ArrowDown && g[2] == Key::ArrowLeft && g[3]
            == Key::ArrowRight && g[4] == Key::A && g[5] == Key::S && g[6] == Key::R && g[7]
            == Key::Delete && g[8] == Key::Backspace && g[9] == Key::Escape);
        assert(key != Key::ArrowUp && key != Key::ArrowDown && key != Key::ArrowLeft && key
            != Key::ArrowRight && key != Key::A && key != Key::S && key != Key::R && key != Key::Delete
            && key != Key::Backspace && key != Key::Escape) by {
            if key == Key::ArrowUp { assert(g[0] == key); }
            if key == Key::ArrowDown { assert(g[1] == key); }
            if key == Key::ArrowLeft { assert(g[2] == key); }
            if key == Key::ArrowRight { assert(g[3] == key); }
            if key == Key::A { assert(g[4] == key); }
            if key == Key::S { assert(g[5] == key); }
            if key == Key::R { assert(g[6] == key); }
            if key == Key::Delete { assert(g[7] == key); }
            if key == Key::Backspace { assert(g[8] == key); }
            if key == Key::Escape { assert(g[9] == key); }
        }
    }
}


proof fn reveal_pitch_names()
    ensures
        forall|pc: int|
            0 <= pc < 12 ==> {
                let s = #[trigger] pitch_class_name(pc);
                &&& 1 <= s.len() <= 2
                &&& 'A' <= s[0] <= 'G'
                &&& s.len() == 2 ==> s[1] == '#'
            },
{
    reveal_strlit("C");
    reveal_strlit("C#");
    reveal_strlit("D");
    reveal_strlit("D#");
    reveal_strlit("E");
    reveal_strlit("F");
    reveal_strlit("F#");
    reveal_strlit("G");
    reveal_strlit("G#");
    reveal_strlit("A");
    reveal_strlit("A#");
    reveal_strlit("B");
}

/// The twelve pitch classes have twelve different names, so two notes
/// of one octave never share a name.
pub proof fn lemma_pitch_names_distinct(a: int, b: int)
    requires
        0 <= a < 12,
        0 <= b < 12,
        a != b,
    ensures
        pitch_class_name(a) != pitch_class_name(b),
{
    reveal_strlit("C");
    reveal_strlit("C#");
    reveal_strlit("D");
    reveal_strlit("D#");
    reveal_strlit("E");
    reveal_strlit("F");
    reveal_strlit("F#");
    reveal_strlit("G");
    reveal_strlit("G#");
    reveal_strlit("A");
    reveal_strlit("A#");
    reveal_strlit("B");
    if pitch_class_name(a) == pitch_class_name(b) {
        assert(pitch_class_name(a).len() == pitch_class_name(b).len());
        assert(pitch_class_name(a)[0] == pitch_class_name(b)[0]);
    }
}


proof fn reveal_digits()
    ensures
        forall|d: int|
            0 <= d < 10 ==> #[trigger] digit_text(d).len() == 1 && digit_text(d)[0] as int == 48 + d,
{
    reveal_strlit("0");
    reveal_strlit("1");
    reveal_strlit("2");
    reveal_strlit("3");
    reveal_strlit("4");
    reveal_strlit("5");
    reveal_strlit("6");
    reveal_strlit("7");
    reveal_strlit("8");
    reveal_strlit("9");
    assert forall|d: int| 0 <= d < 10 implies #[trigger] digit_text(d).len() == 1 && digit_text(d)[0] as int
        == 48 + d by {
        assert(d == 0 || d == 1 || d == 2 || d == 3 || d == 4 || d == 5 || d == 6 || d == 7 || d == 8
            || d == 9);
    }
}

/// The octave text of octaves -1 to 20 (those of MIDI notes): it starts
/// with `-` or a digit, and different octaves read differently.
proof fn lemma_octave_text(o: int, q: int)
    requires
        -1 <= o <= 20,
        -1 <= q <= 20,
    ensures
        octave_text(o).len() >= 1,
        octave_text(o)[0] == '-' || ('0' as int <= octave_text(o)[0] as int <= '9' as int),
        octave_text(o) == octave_text(q) ==> o == q,
{
    reveal_digits();
    reveal_strlit("-");
    reveal_with_fuel(decimal_text, 2);
    let a = octave_text(o);
    let b = octave_text(q);
    if o >= 10 {
        assert(a == digit_text(o / 10) + digit_text(o % 10));
        assert(a.len() == 2 && a[0] as int == 48 + o / 10 && a[1] as int == 48 + o % 10);
    }
    if q >= 10 {
        assert(b == digit_text(q / 10) + digit_text(q % 10));
        assert(b.len() == 2 && b[0] as int == 48 + q / 10 && b[1] as int == 48 + q % 10);
    }
    if 0 <= o < 10 {
        assert(a == digit_text(o));
        assert(a.len() == 1 && a[0] as int == 48 + o);
    }
    if 0 <= q < 10 {
        assert(b == digit_text(q));
        assert(b.len() == 1 && b[0] as int == 48 + q);
    }
    if o == -1 {
        assert(a == "-"@ + digit_text(1));
        assert(a.len() == 2 && a[0] == '-');
    }
    if q == -1 {
        assert(b == "-"@ + digit_text(1));
        assert(b.len() == 2 && b[0] == '-');
    }
    if a == b {
        assert(a.len() == b.len());
        assert(a[0] == b[0]);
        if a.len() == 2 {
            assert(a[1] == b[1]);
        }
    }
}

/// Different MIDI notes have different names: the pitch class and the
/// octave can both be read back from a name.
pub proof fn lemma_note_names_distinct(n: u8, m: u8)
    requires
        n != m,
    ensures
        note_name(n) != note_name(m),
{
    reveal_pitch_names();
    let pa = pitch_class_name(n as int % 12);
    let pb = pitch_class_name(m as int % 12);
    let oa = n as int / 12 - 1;
    let ob = m as int / 12 - 1;
    lemma_octave_text(oa, ob);
    lemma_octave_text(ob, oa);
    let ta = octave_text(oa);
    let tb = octave_text(ob);
    let x = note_name(n);
    let y = note_name(m);
    if x == y {
        assert(x == pa + ta);
        assert(y == pb + tb);
        // The name part is one letter, or a letter and `#`; the octave
        // text never starts with `#`, so the two parts split alike.
        assert(x[pa.len() as int] == ta[0]);
        assert(y[pb.len() as int] == tb[0]);
        if pa.len() != pb.len() {
            if pa.len() == 1 {
                assert(x[1] == ta[0]);
                assert(y[1] == '#');
            } else {
                assert(x[1] == '#');
                assert(y[1] == tb[0]);
            }
        }
        assert(pa.len() == pb.len());
        assert(x.subrange(0, pa.len() as int) =~= pa);
        assert(y.subrange(0, pb.len() as int) =~= pb);
        assert(x.subrange(pa.len() as int, x.len() as int) =~= ta);
        assert(y.subrange(pb.len() as int, y.len() as int) =~= tb);
        assert(pa == pb);
        assert(ta == tb);
        assert(oa == ob);
        if n as int % 12 != m as int % 12 {
            lemma_pitch_names_distinct(n as int % 12, m as int % 12);
        }
        assert(n as int == 12 * (n as int / 12) + n as int % 12);
        assert(m as int == 12 * (m as int / 12) + m as int % 12);
    }
}

} // verus!
