//! Standard MIDI File (Type 0) encoding of a pattern.
//!
//! The file holds one track with the active steps as note-on/note-off
//! pairs at 96 PPQN. A note is held 21 of its step's 24 ticks, except
//! when the following step is a non-rest with its slide flag set: then
//! it is held until one tick past that step's note-on, so the two notes
//! overlap and an importer reads them as legato.

use vstd::prelude::*;
use vstd::relations::{sorted_by, total_ordering};
use vstd::multiset::Multiset;

use crate::pattern::Pattern;

verus! {

/// The continuation bytes of a variable-length quantity for `w`: its
/// 7-bit groups from the most significant down, each with the top bit
/// set. Empty for 0.
pub open spec fn vlq_cont(w: nat) -> Seq<u8>
    decreases w,
{
    if w == 0 {
        Seq::empty()
    } else {
        vlq_cont(w / 128) + seq![(w % 128 + 128) as u8]
    }
}

/// MIDI variable-length quantity for `v`: big-endian 7-bit groups, the
/// top bit set on every byte but the last. 0 is the single byte 0.
pub open spec fn vlq(v: nat) -> Seq<u8> {
    vlq_cont(v / 128) + seq![(v % 128) as u8]
}

/// The number a run of variable-length-quantity bytes denotes: each
/// byte contributes its low 7 bits, most significant first.
pub open spec fn vlq_value(bytes: Seq<u8>) -> nat
    decreases bytes.len(),
{
    if bytes.len() == 0 {
        0
    } else {
        vlq_value(bytes.drop_last()) * 128 + (bytes.last() % 128) as nat
    }
}

proof fn lemma_vlq_cont_value(w: nat)
    ensures
        vlq_value(vlq_cont(w)) == w,
        forall|i: int| 0 <= i < vlq_cont(w).len() ==> #[trigger] vlq_cont(w)[i] >= 128,
    decreases w,
{
    if w > 0 {
        lemma_vlq_cont_value(w / 128);
        let s = vlq_cont(w);
        assert(s.drop_last() =~= vlq_cont(w / 128));
        vstd::arithmetic::div_mod::lemma_fundamental_div_mod(w as int, 128);
        assert((w % 128 + 128) as u8 % 128 == w % 128);
    }
}

/// 128 to the power `k`.
pub open spec fn pow128(k: nat) -> nat
    decreases k,
{
    if k == 0 {
        1
    } else {
        128 * pow128((k - 1) as nat)
    }
}

proof fn lemma_vlq_cont_len(w: nat, k: nat)
    requires
        w < pow128(k),
    ensures
        vlq_cont(w).len() <= k,
    decreases k,
{
    if w > 0 {
        assert(k > 0);
        assert(w / 128 < pow128((k - 1) as nat));
        lemma_vlq_cont_len(w / 128, (k - 1) as nat);
    }
}

/// A variable-length quantity decodes to the number it encodes; every
/// byte but the last has its top bit set and the last has it clear, so
/// the encoding delimits itself; it is at most 5 bytes long.
pub proof fn lemma_vlq_roundtrip(v: nat)
    requires
        v < 0x1_0000_0000,
    ensures
        vlq_value(vlq(v)) == v,
        vlq(v).len() >= 1,
        vlq(v).len() <= 5,
        vlq(v).last() < 128,
        forall|i: int| 0 <= i < vlq(v).len() - 1 ==> #[trigger] vlq(v)[i] >= 128,
{
    lemma_vlq_cont_value(v / 128);
    reveal_with_fuel(pow128, 5);
    assert(pow128(4) == 0x1000_0000);
    lemma_vlq_cont_len(v / 128, 4);
    let s = vlq(v);
    assert(s.drop_last() =~= vlq_cont(v / 128));
    vstd::arithmetic::div_mod::lemma_fundamental_div_mod(v as int, 128);
    assert(s[s.len() - 1] == (v % 128) as u8);
}

/// Append the MIDI variable-length encoding of `value` to `buf`.
pub fn write_vlq(buf: &mut Vec<u8>, value: u32)
    ensures
        final(buf)@ == old(buf)@ + vlq(value as nat),
{
    if value == 0 {
        buf.push(0);
        assert(vlq(0) =~= seq![0u8]);
        return;
    }
    let mut v = value;
    let mut bytes: Vec<u8> = Vec::new();
    assert(v & 0x7F == v % 128) by (bit_vector);
    bytes.push((v & 0x7F) as u8);
    assert(v >> 7 == v / 128) by (bit_vector);
    v = v >> 7;
    assert(vlq(value as nat) =~= vlq_cont(v as nat) + bytes@.reverse());
    while v > 0
        invariant
            vlq(value as nat) =~= vlq_cont(v as nat) + bytes@.reverse(),
        decreases v,
    {
        assert((v & 0x7F) | 0x80 == v % 128 + 128) by (bit_vector);
        let b = ((v & 0x7F) | 0x80) as u8;
        let ghost old_bytes = bytes@;
        bytes.push(b);
        assert(bytes@.reverse() =~= seq![b] + old_bytes.reverse());
        assert(vlq_cont(v as nat) =~= vlq_cont((v / 128) as nat) + seq![b]);
        assert(v >> 7 == v / 128) by (bit_vector);
        v = v >> 7;
    }
    let n = bytes.len();
    let ghost before = buf@;
    let mut j = n;
    while j > 0
        invariant
            j <= n,
            n == bytes@.len(),
            buf@ =~= before + bytes@.reverse().subrange(0, (n - j) as int),
        decreases j,
    {
        j = j - 1;
        buf.push(bytes[j]);
    }
    assert(bytes@.reverse().subrange(0, n as int) =~= bytes@.reverse());
}


/// MIDI ticks per quarter note of the exported file.
pub const TICKS_PER_QUARTER: u16 = 96;

/// MIDI ticks per sixteenth-note step.
pub const TICKS_PER_STEP: u32 = 24;

/// Ticks a note that does not slide is held: most of its step.
pub const NOTE_DURATION: u32 = 21;

/// Status byte of a note-on on channel 1.
pub const NOTE_ON: u8 = 0x90;

/// Status byte of a note-off on channel 1.
pub const NOTE_OFF: u8 = 0x80;

/// One channel event of the exported track, at an absolute tick.
#[derive(Clone, Copy, Debug, PartialEq, Eq, Structural)]
pub struct NoteEv {
    pub tick: u32,
    pub status: u8,
    pub note: u8,
    pub velocity: u8,
}

/// Track order: ascending tick, note-off (0x80) before note-on (0x90)
/// at the same tick, then note and velocity.
pub open spec fn ev_leq(a: NoteEv, b: NoteEv) -> bool {
    ||| a.tick < b.tick
    ||| a.tick == b.tick && a.status < b.status
    ||| a.tick == b.tick && a.status == b.status && a.note < b.note
    ||| a.tick == b.tick && a.status == b.status && a.note == b.note && a.velocity <= b.velocity
}

/// `ev_leq` as a relation.
pub open spec fn ev_order() -> spec_fn(NoteEv, NoteEv) -> bool {
    |a: NoteEv, b: NoteEv| ev_leq(a, b)
}

/// Track order is a total order on events.
pub proof fn lemma_ev_order_total()
    ensures
        total_ordering(ev_order()),
{
    assert forall|a: NoteEv, b: NoteEv| #[trigger] ev_leq(a, b) && #[trigger] ev_leq(b, a) implies a == b by {}
}

/// Number of steps the export walks: the stored length, at most 16.
pub open spec fn export_len(p: Pattern) -> int {
    if p.length > 16 {
        16
    } else {
        p.length as int
    }
}

/// The note-on/note-off pair of step `i` (none for a rest). The note
/// starts at `24 * i`; it is held 21 ticks, or, when the next step
/// (wrapping on `len`) is a non-rest slid into, until one tick past
/// that step's start. An accented note has velocity 110, others 90.
pub open spec fn step_events(p: Pattern, len: int, i: int) -> Seq<NoteEv> {
    let st = p.steps@[i];
    let next = p.steps@[(i + 1) % len];
    let on = 24 * i;
    let off = if !next.rest && next.slide {
        on + 24 + 1
    } else {
        on + 21
    };
    if st.rest {
        Seq::empty()
    } else {
        seq![
            NoteEv {
                tick: on as u32,
                status: 0x90,
                note: st.semitone,
                velocity: if st.accent {
                    110
                } else {
                    90
                },
            },
            NoteEv { tick: off as u32, status: 0x80, note: st.semitone, velocity: 0 },
        ]
    }
}

/// The events of steps `0..n`, step by step.
pub open spec fn raw_events_upto(p: Pattern, len: int, n: nat) -> Seq<NoteEv>
    decreases n,
{
    if n == 0 {
        Seq::empty()
    } else {
        raw_events_upto(p, len, (n - 1) as nat) + step_events(p, len, n - 1)
    }
}

/// The events of all exported steps, step by step.
pub open spec fn raw_events(p: Pattern) -> Seq<NoteEv> {
    raw_events_upto(p, export_len(p), export_len(p) as nat)
}

/// The exported track's events: all steps' events in track order.
pub open spec fn export_events(p: Pattern) -> Seq<NoteEv> {
    raw_events(p).sort_by(ev_order())
}

fn ev_le(a: &NoteEv, b: &NoteEv) -> (r: bool)
    ensures
        r == ev_leq(*a, *b),
{
    a.tick < b.tick || (a.tick == b.tick && (a.status < b.status || (a.status == b.status && (
    a.note < b.note || (a.note == b.note && a.velocity <= b.velocity)))))
}

/// The note events of the pattern's exported steps, step by step.
pub fn note_events(p: &Pattern) -> (evs: Vec<NoteEv>)
    ensures
        evs@ == raw_events(*p),
        evs@.len() <= 32,
{
    let len: usize = if p.length > 16 {
        16
    } else {
        p.length as usize
    };
    let mut evs: Vec<NoteEv> = Vec::new();
    for i in 0..len
        invariant
            len == export_len(*p),
            evs@ == raw_events_upto(*p, len as int, i as nat),
            evs@.len() <= 2 * i,
    {
        let st = p.steps[i];
        if !st.rest {
            let tick_on: u32 = i as u32 * 24;
            let next = p.steps[(i + 1) % len];
            let tick_off: u32 = if !next.rest && next.slide {
                tick_on + 24 + 1
            } else {
                tick_on + 21
            };
            let vel: u8 = if st.accent {
                110
            } else {
                90
            };
            evs.push(NoteEv { tick: tick_on, status: 0x90, note: st.semitone, velocity: vel });
            evs.push(NoteEv { tick: tick_off, status: 0x80, note: st.semitone, velocity: 0 });
        }
        assert(evs@ =~= raw_events_upto(*p, len as int, (i + 1) as nat));
    }
    evs
}

/// The events in track order (a stable insertion sort).
pub fn sort_events(evs: &Vec<NoteEv>) -> (out: Vec<NoteEv>)
    ensures
        sorted_by(out@, ev_order()),
        out@.to_multiset() == evs@.to_multiset(),
        out@.len() == evs@.len(),
{
    broadcast use vstd::seq_lib::group_to_multiset_ensures;

    proof {
        lemma_ev_order_total();
    }
    let mut out: Vec<NoteEv> = Vec::new();
    for i in 0..evs.len()
        invariant
            total_ordering(ev_order()),
            sorted_by(out@, ev_order()),
            out@.to_multiset() == evs@.take(i as int).to_multiset(),
            out@.len() == i,
    {
        let e = evs[i];
        let mut j: usize = 0;
        while j < out.len() && ev_le(&out[j], &e)
            invariant
                j <= out@.len(),
                forall|k: int| 0 <= k < j ==> #[trigger] ev_leq(out@[k], e),
            decreases out@.len() - j,
        {
            j = j + 1;
        }
        let ghost before = out@;
        out.insert(j, e);
        proof {
            assert(evs@.take(i + 1) =~= evs@.take(i as int).push(e));
            assert(out@ =~= before.insert(j as int, e));
            vstd::seq_lib::to_multiset_insert(before, j as int, e);
            vstd::seq_lib::to_multiset_build(evs@.take(i as int), e);
            if j < before.len() {
                assert(!ev_leq(before[j as int], e));
            }
            assert forall|a: int, b: int| 0 <= a < b < out@.len() implies #[trigger] ev_order()(
                out@[a],
                out@[b],
            ) by {
                if b < j {
                    assert(ev_order()(before[a], before[b]));
                } else if a > j {
                    assert(ev_order()(before[a - 1], before[b - 1]));
                } else if a == j {
                    assert(ev_leq(e, before[j as int]));
                    if b - 1 > j {
                        assert(ev_order()(before[j as int], before[b - 1]));
                    }
                } else if b == j {
                    assert(ev_leq(before[a], e));
                } else {
                    assert(ev_order()(before[a], before[b - 1]));
                }
            }
        }
    }
    assert(evs@.take(evs@.len() as int) =~= evs@);
    out
}

/// The exported track's events: the pattern's note events in track
/// order.
pub fn pattern_events(p: &Pattern) -> (out: Vec<NoteEv>)
    ensures
        out@ == export_events(*p),
        out@.len() <= 32,
{
    let raw = note_events(p);
    let out = sort_events(&raw);
    proof {
        lemma_ev_order_total();
        raw@.lemma_sort_by_ensures(ev_order());
        vstd::seq_lib::lemma_sorted_unique(out@, raw@.sort_by(ev_order()), ev_order());
    }
    out
}


/// `x` as two big-endian bytes.
pub open spec fn be16(x: nat) -> Seq<u8> {
    seq![((x / 256) % 256) as u8, (x % 256) as u8]
}

/// `x` as four big-endian bytes.
pub open spec fn be32(x: nat) -> Seq<u8> {
    seq![
        ((x / 0x100_0000) % 256) as u8,
        ((x / 0x1_0000) % 256) as u8,
        ((x / 256) % 256) as u8,
        (x % 256) as u8,
    ]
}

/// The track bytes of `evs` when the previous event sat at tick
/// `last`: for each event, its delta time as a variable-length
/// quantity followed by its status, note and velocity bytes.
pub open spec fn event_bytes(evs: Seq<NoteEv>, last: int) -> Seq<u8>
    decreases evs.len(),
{
    if evs.len() == 0 {
        Seq::empty()
    } else {
        vlq((evs[0].tick - last) as nat) + seq![evs[0].status, evs[0].note, evs[0].velocity]
            + event_bytes(evs.drop_first(), evs[0].tick as int)
    }
}

/// The track chunk's data: a tempo meta event (microseconds per quarter
/// note, three bytes, at delta 0), the events, and the end-of-track meta
/// event.
pub open spec fn track_bytes(evs: Seq<NoteEv>, us_per_qn: u32) -> Seq<u8> {
    seq![
        0x00u8,
        0xFFu8,
        0x51u8,
        0x03u8,
        ((us_per_qn / 0x1_0000) % 256) as u8,
        ((us_per_qn / 256) % 256) as u8,
        (us_per_qn % 256) as u8,
    ] + event_bytes(evs, 0) + seq![0x00u8, 0xFFu8, 0x2Fu8, 0x00u8]
}

/// A format-0 Standard MIDI File: the `MThd` header chunk (length 6,
/// format 0, one track, 96 ticks per quarter note) and one `MTrk` chunk
/// holding `track_bytes`.
pub open spec fn smf_file(evs: Seq<NoteEv>, us_per_qn: u32) -> Seq<u8> {
    let t = track_bytes(evs, us_per_qn);
    seq![0x4Du8, 0x54u8, 0x68u8, 0x64u8] + be32(6) + be16(0) + be16(1) + be16(96) + seq![
        0x4Du8,
        0x54u8,
        0x72u8,
        0x6Bu8,
    ] + be32(t.len()) + t
}

/// The file exported for pattern `p` at tempo `us_per_qn`.
pub open spec fn pattern_smf(p: Pattern, us_per_qn: u32) -> Seq<u8> {
    smf_file(export_events(p), us_per_qn)
}

fn push_be16(buf: &mut Vec<u8>, x: u16)
    ensures
        final(buf)@ == old(buf)@ + be16(x as nat),
{
    assert((x >> 8u16) as u8 == ((x / 256) % 256) as u8) by (bit_vector);
    assert((x & 0xFFu16) as u8 == (x % 256) as u8) by (bit_vector);
    buf.push((x >> 8u16) as u8);
    buf.push((x & 0xFFu16) as u8);
    assert(final(buf)@ =~= old(buf)@ + be16(x as nat));
}

fn push_be32(buf: &mut Vec<u8>, x: u32)
    ensures
        final(buf)@ == old(buf)@ + be32(x as nat),
{
    assert((x >> 24u32) as u8 == ((x / 0x100_0000) % 256) as u8) by (bit_vector);
    assert(((x >> 16u32) & 0xFFu32) as u8 == ((x / 0x1_0000) % 256) as u8) by (bit_vector);
    assert(((x >> 8u32) & 0xFFu32) as u8 == ((x / 256) % 256) as u8) by (bit_vector);
    assert((x & 0xFFu32) as u8 == (x % 256) as u8) by (bit_vector);
    buf.push((x >> 24u32) as u8);
    buf.push(((x >> 16u32) & 0xFFu32) as u8);
    buf.push(((x >> 8u32) & 0xFFu32) as u8);
    buf.push((x & 0xFFu32) as u8);
    assert(final(buf)@ =~= old(buf)@ + be32(x as nat));
}

/// Encode a track-ordered event list as a format-0 Standard MIDI File
/// with tempo `us_per_qn` microseconds per quarter note.
pub fn encode_smf(evs: &Vec<NoteEv>, us_per_qn: u32) -> (out: Vec<u8>)
    requires
        sorted_by(evs@, ev_order()),
        evs@.len() <= 0x100_0000,
    ensures
        out@ == smf_file(evs@, us_per_qn),
{
    let mut track: Vec<u8> = Vec::new();
    track.push(0x00);
    track.push(0xFF);
    track.push(0x51);
    track.push(0x03);
    assert(((us_per_qn >> 16u32) & 0xFFu32) as u8 == ((us_per_qn / 0x1_0000) % 256) as u8)
        by (bit_vector);
    assert(((us_per_qn >> 8u32) & 0xFFu32) as u8 == ((us_per_qn / 256) % 256) as u8)
        by (bit_vector);
    assert((us_per_qn & 0xFFu32) as u8 == (us_per_qn % 256) as u8) by (bit_vector);
    track.push(((us_per_qn >> 16u32) & 0xFFu32) as u8);
    track.push(((us_per_qn >> 8u32) & 0xFFu32) as u8);
    track.push((us_per_qn & 0xFFu32) as u8);
    let ghost head = track@;
    let mut last_tick: u32 = 0;
    assert(evs@.skip(0) =~= evs@);
    for i in 0..evs.len()
        invariant
            sorted_by(evs@, ev_order()),
            head.len() == 7,
            head + event_bytes(evs@, 0) == track@ + event_bytes(evs@.skip(i as int), last_tick as int),
            i == 0 ==> last_tick == 0,
            i > 0 ==> last_tick == evs@[i - 1].tick,
            track@.len() <= 7 + 8 * i,
    {
        let ev = evs[i];
        if i > 0 {
            assert(ev_order()(evs@[i - 1], evs@[i as int]));
        }
        let delta = ev.tick - last_tick;
        let ghost before = track@;
        let ghost rest = evs@.skip(i as int);
        assert(rest.drop_first() =~= evs@.skip(i + 1));
        assert(rest[0] == ev);
        proof {
            lemma_vlq_roundtrip(delta as nat);
        }
        write_vlq(&mut track, delta);
        track.push(ev.status);
        track.push(ev.note);
        track.push(ev.velocity);
        assert(track@ =~= before + vlq(delta as nat) + seq![ev.status, ev.note, ev.velocity]);
        last_tick = ev.tick;
    }
    assert(evs@.skip(evs@.len() as int) =~= Seq::<NoteEv>::empty());
    write_vlq(&mut track, 0);
    track.push(0xFF);
    track.push(0x2F);
    track.push(0x00);
    assert(vlq(0) =~= seq![0u8]);
    assert(track@ =~= track_bytes(evs@, us_per_qn));
    let mut out: Vec<u8> = Vec::new();
    out.push(0x4D);
    out.push(0x54);
    out.push(0x68);
    out.push(0x64);
    push_be32(&mut out, 6);
    push_be16(&mut out, 0);
    push_be16(&mut out, 1);
    push_be16(&mut out, TICKS_PER_QUARTER);
    out.push(0x4D);
    out.push(0x54);
    out.push(0x72);
    out.push(0x6B);
    push_be32(&mut out, track.len() as u32);
    let ghost pre = out@;
    for k in 0..track.len()
        invariant
            out@ == pre + track@.take(k as int),
    {
        out.push(track[k]);
        assert(track@.take(k + 1) =~= track@.take(k as int).push(track@[k as int]));
    }
    assert(track@.take(track@.len() as int) =~= track@);
    assert(out@ =~= smf_file(evs@, us_per_qn));
    out
}

/// The Standard MIDI File exported for `p` at tempo `us_per_qn`
/// microseconds per quarter note.
pub fn pattern_to_smf(p: &Pattern, us_per_qn: u32) -> (out: Vec<u8>)
    ensures
        out@ == pattern_smf(*p, us_per_qn),
{
    let evs = pattern_events(p);
    proof {
        lemma_ev_order_total();
        raw_events(*p).lemma_sort_by_ensures(ev_order());
    }
    encode_smf(&evs, us_per_qn)
}

/// The note-on of step `i`: at tick `24 * i`, velocity 110 when
/// accented, else 90.
pub open spec fn note_on_of(p: Pattern, i: int) -> NoteEv {
    let st = p.steps@[i];
    NoteEv {
        tick: (24 * i) as u32,
        status: 0x90,
        note: st.semitone,
        velocity: if st.accent {
            110
        } else {
            90
        },
    }
}

/// The tick at which step `i`'s note ends in a walk of `len` steps:
/// 21 ticks in, or one tick past the next step's start when that step
/// is a non-rest slid into.
pub open spec fn note_off_tick(p: Pattern, len: int, i: int) -> int {
    let next = p.steps@[(i + 1) % len];
    if !next.rest && next.slide {
        24 * i + 25
    } else {
        24 * i + 21
    }
}

/// The note-off of step `i` in a walk of `len` steps.
pub open spec fn note_off_of(p: Pattern, len: int, i: int) -> NoteEv {
    NoteEv {
        tick: note_off_tick(p, len, i) as u32,
        status: 0x80,
        note: p.steps@[i].semitone,
        velocity: 0,
    }
}

/// The step an exported event belongs to, read off its tick: a note-on
/// of step `i` sits at `24 * i`, a note-off at `24 * i + 21` or
/// `24 * i + 25`.
pub open spec fn event_step(e: NoteEv) -> int {
    if e.status == 0x90 {
        e.tick as int / 24
    } else if e.tick as int % 24 == 21 {
        (e.tick - 21) / 24
    } else {
        (e.tick - 25) / 24
    }
}

/// Event `e` is the note-on or the note-off of an audible step among
/// the first `n` steps (the step its tick names).
pub open spec fn of_audible_step(p: Pattern, len: int, n: int, e: NoteEv) -> bool {
    let i = event_step(e);
    &&& 0 <= i < n
    &&& !p.steps@[i].rest
    &&& e == note_on_of(p, i) || e == note_off_of(p, len, i)
}

proof fn lemma_two_count<A>(a: A, b: A, e: A)
    ensures
        seq![a, b].to_multiset().count(e) == (if a == e {
            1int
        } else {
            0
        }) + (if b == e {
            1int
        } else {
            0
        }),
{
    broadcast use vstd::seq_lib::group_to_multiset_ensures;
    broadcast use vstd::multiset::group_multiset_axioms;

    let z = Seq::<A>::empty();
    assert(seq![a, b] =~= z.push(a).push(b));
    assert(z.to_multiset() =~= Multiset::empty());
}

proof fn lemma_upto_count(p: Pattern, len: int, n: nat, i: int, e: NoteEv)
    requires
        1 <= len <= 16,
        n <= len,
        0 <= i < len,
        (e.status == 0x90 && e.tick == 24 * i) || (e.status == 0x80 && e.tick == note_off_tick(
            p,
            len,
            i,
        )),
    ensures
        raw_events_upto(p, len, n).to_multiset().count(e) == (if i < n && !p.steps@[i].rest && (e
            == note_on_of(p, i) || e == note_off_of(p, len, i)) {
            1int
        } else {
            0
        }),
        forall|k: int|
            0 <= k < raw_events_upto(p, len, n).len() ==> of_audible_step(
                p,
                len,
                n as int,
                #[trigger] raw_events_upto(p, len, n)[k],
            ),
    decreases n,
{
    broadcast use vstd::multiset::group_multiset_axioms;

    if n == 0 {
        assert(raw_events_upto(p, len, 0).to_multiset() =~= Multiset::empty()) by {
            broadcast use vstd::seq_lib::group_to_multiset_ensures;

        }
    } else {
        let k = n - 1;
        lemma_upto_count(p, len, k as nat, i, e);
        let old_evs = raw_events_upto(p, len, k as nat);
        let new_evs = step_events(p, len, k);
        vstd::seq_lib::lemma_multiset_commutative(old_evs, new_evs);
        if !p.steps@[k].rest {
            assert(new_evs == seq![note_on_of(p, k), note_off_of(p, len, k)]);
            lemma_two_count(note_on_of(p, k), note_off_of(p, len, k), e);
        } else {
            assert(new_evs.to_multiset() =~= Multiset::empty()) by {
                broadcast use vstd::seq_lib::group_to_multiset_ensures;

            }
        }
        let all = raw_events_upto(p, len, n);
        assert forall|m: int| 0 <= m < all.len() implies of_audible_step(
            p,
            len,
            n as int,
            #[trigger] all[m],
        ) by {
            if m < old_evs.len() {
                assert(all[m] == old_evs[m]);
                assert(of_audible_step(p, len, k as int, old_evs[m]));
            } else {
                assert(all[m] == new_evs[m - old_evs.len()]);
                assert(all[m] == note_on_of(p, k) || all[m] == note_off_of(p, len, k));
                assert(0 <= k < n && !p.steps@[k].rest);
            }
        }
    }
}

/// The export plays each audible step exactly once and nothing else:
/// for every exported step `i`, the track holds exactly one note-on at
/// tick `24 * i` (velocity 110 when accented, else 90) and exactly one
/// note-off at the step's end tick when the step is not a rest, and no
/// note-on or note-off at those ticks when it is. Every exported event
/// is the note-on or note-off of an audible step, and the events come
/// in track order (ascending tick).
pub proof fn lemma_export_one_pair_per_audible_step(p: Pattern, i: int)
    requires
        0 <= i < export_len(p),
    ensures
        forall|e: NoteEv|
            e.status == 0x90 && e.tick == 24 * i ==> #[trigger] export_events(p).to_multiset().count(e)
                == (if !p.steps@[i].rest && e == note_on_of(p, i) {
                1int
            } else {
                0
            }),
        forall|e: NoteEv|
            e.status == 0x80 && e.tick == note_off_tick(p, export_len(p), i)
                ==> #[trigger] export_events(p).to_multiset().count(e) == (if !p.steps@[i].rest && e
                == note_off_of(p, export_len(p), i) {
                1int
            } else {
                0
            }),
        forall|k: int|
            0 <= k < export_events(p).len() ==> of_audible_step(
                p,
                export_len(p),
                export_len(p),
                #[trigger] export_events(p)[k],
            ),
        sorted_by(export_events(p), ev_order()),
{
    let len = export_len(p);
    lemma_ev_order_total();
    raw_events(p).lemma_sort_by_ensures(ev_order());
    assert forall|e: NoteEv| e.status == 0x90 && e.tick == 24 * i implies #[trigger] export_events(
        p,
    ).to_multiset().count(e) == (if !p.steps@[i].rest && e == note_on_of(p, i) {
        1int
    } else {
        0
    }) by {
        lemma_upto_count(p, len, len as nat, i, e);
    }
    assert forall|e: NoteEv|
        e.status == 0x80 && e.tick == note_off_tick(p, len, i) implies #[trigger] export_events(
        p,
    ).to_multiset().count(e) == (if !p.steps@[i].rest && e == note_off_of(p, len, i) {
        1int
    } else {
        0
    }) by {
        lemma_upto_count(p, len, len as nat, i, e);
    }
    let e0 = note_on_of(p, i);
    lemma_upto_count(p, len, len as nat, i, e0);
    let ex = export_events(p);
    assert forall|k: int| 0 <= k < ex.len() implies of_audible_step(p, len, len, #[trigger] ex[k]) by {
        assert(ex.contains(ex[k]));
        assert(raw_events(p).contains(ex[k]));
        let m = choose|m: int| 0 <= m < raw_events(p).len() && raw_events(p)[m] == ex[k];
        assert(of_audible_step(p, len, len, raw_events(p)[m]));
    }
}

/// No two events of `evs` share both tick and status byte.
pub open spec fn keys_distinct(evs: Seq<NoteEv>) -> bool {
    forall|a: int, b: int|
        0 <= a < b < evs.len() ==> !(#[trigger] evs[a].tick == #[trigger] evs[b].tick && evs[a].status
            == evs[b].status)
}

proof fn lemma_raw_events_upto_keys(p: Pattern, len: int, n: nat)
    requires
        1 <= len <= 16,
        n <= len,
    ensures
        keys_distinct(raw_events_upto(p, len, n)),
        forall|i: int|
            0 <= i < raw_events_upto(p, len, n).len() ==> {
                let e = #[trigger] raw_events_upto(p, len, n)[i];
                ||| e.status == 0x90 && e.tick < 24 * n
                ||| e.status == 0x80 && e.tick <= 24 * n + 1
            },
    decreases n,
{
    if n > 0 {
        let k = n - 1;
        lemma_raw_events_upto_keys(p, len, k as nat);
        let old_evs = raw_events_upto(p, len, k as nat);
        let new_evs = step_events(p, len, k);
        let all = raw_events_upto(p, len, n);
        assert(all == old_evs + new_evs);
        assert forall|a: int, b: int|
            0 <= a < b < all.len() implies !(#[trigger] all[a].tick == #[trigger] all[b].tick
            && all[a].status == all[b].status) by {
            if b >= old_evs.len() && a < old_evs.len() {
                assert(old_evs[a] == all[a]);
            }
        }
    }
}

/// No two exported events share both tick and status byte, so ordering
/// them by tick with note-offs before note-ons at the same tick already
/// orders them completely; note and velocity never decide the order.
pub proof fn lemma_export_keys_distinct(p: Pattern)
    ensures
        keys_distinct(raw_events(p)),
{
    let len = export_len(p);
    if len >= 1 {
        lemma_raw_events_upto_keys(p, len, len as nat);
    }
}

} // verus!
