use squelchbox::midi::{encode_smf, note_events, pattern_events, pattern_to_smf, write_vlq, NoteEv};
use squelchbox::pattern::{Pattern, Step};

fn vlq(v: u32) -> Vec<u8> {
    let mut b = Vec::new();
    write_vlq(&mut b, v);
    b
}

#[test]
fn vlq_known_values() {
    assert_eq!(vlq(0), vec![0x00]);
    assert_eq!(vlq(0x40), vec![0x40]);
    assert_eq!(vlq(0x7F), vec![0x7F]);
    assert_eq!(vlq(0x80), vec![0x81, 0x00]);
    assert_eq!(vlq(0x2000), vec![0xC0, 0x00]);
    assert_eq!(vlq(0x3FFF), vec![0xFF, 0x7F]);
    assert_eq!(vlq(0x4000), vec![0x81, 0x80, 0x00]);
    assert_eq!(vlq(0x0FFF_FFFF), vec![0xFF, 0xFF, 0xFF, 0x7F]);
    assert_eq!(vlq(u32::MAX), vec![0x8F, 0xFF, 0xFF, 0xFF, 0x7F]);
}

#[test]
fn vlq_appends_and_decodes_back() {
    let mut buf = vec![0xAA];
    write_vlq(&mut buf, 300);
    assert_eq!(buf, vec![0xAA, 0x82, 0x2C]);
    for v in [0u32, 1, 127, 128, 255, 16_383, 16_384, 2_097_151, 2_097_152, u32::MAX] {
        let bytes = vlq(v);
        let mut acc: u64 = 0;
        for (i, b) in bytes.iter().enumerate() {
            assert_eq!(*b >= 0x80, i + 1 < bytes.len());
            acc = acc * 128 + (*b & 0x7F) as u64;
        }
        assert_eq!(acc, v as u64);
    }
}

fn two_step_pattern() -> Pattern {
    let mut p = Pattern::empty();
    p.length = 2;
    p.steps[0] = Step { semitone: 48, accent: true, slide: false, rest: false };
    p.steps[1] = Step { semitone: 50, accent: false, slide: true, rest: false };
    p
}

#[test]
fn slide_note_overlaps_next_note_on() {
    let p = two_step_pattern();
    let ev = |tick, status, note, velocity| NoteEv { tick, status, note, velocity };
    assert_eq!(
        note_events(&p),
        vec![ev(0, 0x90, 48, 110), ev(25, 0x80, 48, 0), ev(24, 0x90, 50, 90), ev(45, 0x80, 50, 0)]
    );
    assert_eq!(
        pattern_events(&p),
        vec![ev(0, 0x90, 48, 110), ev(24, 0x90, 50, 90), ev(25, 0x80, 48, 0), ev(45, 0x80, 50, 0)]
    );
}

#[test]
fn exported_file_bytes() {
    let p = two_step_pattern();
    let bytes = pattern_to_smf(&p, 500_000);
    let mut want: Vec<u8> = vec![
        0x4D, 0x54, 0x68, 0x64, 0, 0, 0, 6, 0, 0, 0, 1, 0, 96, 0x4D, 0x54, 0x72, 0x6B, 0, 0, 0, 27,
    ];
    want.extend_from_slice(&[0x00, 0xFF, 0x51, 0x03, 0x07, 0xA1, 0x20]);
    want.extend_from_slice(&[0x00, 0x90, 48, 110]);
    want.extend_from_slice(&[24, 0x90, 50, 90]);
    want.extend_from_slice(&[1, 0x80, 48, 0]);
    want.extend_from_slice(&[20, 0x80, 50, 0]);
    want.extend_from_slice(&[0x00, 0xFF, 0x2F, 0x00]);
    assert_eq!(bytes, want);
}

#[test]
fn empty_and_rest_patterns_export_only_meta_events() {
    let mut p = Pattern::empty();
    let b = pattern_to_smf(&p, 0x0123_4567);
    assert_eq!(&b[18..22], &[0, 0, 0, 11]);
    assert_eq!(&b[22..], &[0x00, 0xFF, 0x51, 0x03, 0x23, 0x45, 0x67, 0x00, 0xFF, 0x2F, 0x00]);
    p.length = 0;
    p.steps[0].rest = false;
    assert!(note_events(&p).is_empty());
}

#[test]
fn riff_export_is_ordered_and_paired() {
    let p = Pattern::default_classic_riff();
    let evs = pattern_events(&p);
    assert_eq!(evs.len(), 24);
    for w in evs.windows(2) {
        assert!((w[0].tick, w[0].status) < (w[1].tick, w[1].status));
    }
    // The export holds a note into the next step when that next step
    // carries the slide flag. In the riff the steps before the slide
    // flags (5 and 13) are rests, so every note ends after 21 ticks.
    assert!(evs.contains(&NoteEv { tick: 6 * 24 + 21, status: 0x80, note: 36, velocity: 0 }));
    assert!(evs.iter().all(|e| e.status == 0x90 || e.tick % 24 == 21));
    assert!(evs.contains(&NoteEv { tick: 15 * 24 + 21, status: 0x80, note: 43, velocity: 0 }));
    let bytes = encode_smf(&evs, 500_000);
    assert_eq!(&bytes[..4], b"MThd");
    assert_eq!(&bytes[bytes.len() - 3..], &[0xFF, 0x2F, 0x00]);
}
