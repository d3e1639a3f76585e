//! Per-block and per-sample transport decisions of the audio engine:
//! which clock drives the sequencer, when it restarts, when a queued
//! bank switch lands, and how note events reach the voice.

use vstd::prelude::*;

use crate::kbd::{pending_slot, KbdEvent, KbdQueue};
use crate::pattern::{walk_len, PatternBank};
use crate::sequencer::{trigger_for, triggered_after, SeqTick, SeqTrigger, Sequencer};

verus! {

/// What drives the sequencer.
#[derive(Clone, Copy, Debug, PartialEq, Eq)]
pub enum SyncMode {
    /// Free-run from the editor's RUN/STOP toggle at the TEMPO knob.
    Internal,
    /// Follow the host transport and tempo.
    Host,
    /// Clock disabled; only MIDI and keyboard notes play.
    Midi,
}

impl SyncMode {
    /// The mode the SYNC button moves to: INT → HOST → MIDI → INT.
    pub open spec fn successor(self) -> SyncMode {
        match self {
            SyncMode::Internal => SyncMode::Host,
            SyncMode::Host => SyncMode::Midi,
            SyncMode::Midi => SyncMode::Internal,
        }
    }

    pub fn next(self) -> (m: SyncMode)
        ensures
            m == self.successor(),
    {
        match self {
            SyncMode::Internal => SyncMode::Host,
            SyncMode::Host => SyncMode::Midi,
            SyncMode::Midi => SyncMode::Internal,
        }
    }
}

/// Where the block's tempo comes from.
#[derive(Clone, Copy, Debug, PartialEq, Eq)]
pub enum TempoSource {
    /// The TEMPO knob.
    Knob,
    /// The host's tempo when it reports one, else the TEMPO knob.
    Host,
}

/// The transport settings for one audio block.
#[derive(Clone, Copy, Debug, PartialEq, Eq)]
pub struct BlockPlan {
    /// Whether the sequencer clock runs this block.
    pub clock_running: bool,
    pub tempo: TempoSource,
    /// Whether the sequencer restarts from step 0 this block.
    pub reset_sequencer: bool,
}

/// Host-transport edge tracking across blocks.
pub struct HostFollow {
    /// The host has reported a stopped transport at least once. Some
    /// standalone backends report "playing" forever, so the host only
    /// drives the sequencer after a first stop.
    pub host_ever_stopped: bool,
    /// The host drove the clock in the previous block.
    pub host_was_running: bool,
}

/// Whether the clock runs in `mode`: the editor's run toggle in
/// internal mode, a playing host that has stopped once in host mode,
/// never in MIDI mode.
pub open spec fn clock_runs(mode: SyncMode, ever_stopped: bool, host_playing: bool, seq_run: bool) -> bool {
    match mode {
        SyncMode::Internal => seq_run,
        SyncMode::Host => ever_stopped && host_playing,
        SyncMode::Midi => false,
    }
}

impl HostFollow {
    pub fn new() -> (h: Self)
        ensures
            !h.host_ever_stopped,
            !h.host_was_running,
    {
        HostFollow { host_ever_stopped: false, host_was_running: false }
    }

    /// Plan an audio block. `seq_run` is the editor's run toggle and
    /// `rewind` whether the editor asked for a rewind. In host mode the
    /// sequencer restarts on every edge into running, so playback always
    /// starts at step 0; a rewind request restarts it in any mode.
    pub fn plan_block(&mut self, mode: SyncMode, host_playing: bool, seq_run: bool, rewind: bool) -> (p: BlockPlan)
        ensures
            final(self).host_ever_stopped == (old(self).host_ever_stopped || !host_playing),
            p.clock_running == clock_runs(mode, final(self).host_ever_stopped, host_playing, seq_run),
            p.tempo == (if mode == SyncMode::Host {
                TempoSource::Host
            } else {
                TempoSource::Knob
            }),
            p.reset_sequencer == (rewind || (mode == SyncMode::Host && p.clock_running
                && !old(self).host_was_running)),
            final(self).host_was_running == (mode == SyncMode::Host && p.clock_running),
    {
        if !host_playing {
            self.host_ever_stopped = true;
        }
        let (clock_running, tempo) = match mode {
            SyncMode::Internal => (seq_run, TempoSource::Knob),
            SyncMode::Host => (self.host_ever_stopped && host_playing, TempoSource::Host),
            SyncMode::Midi => (false, TempoSource::Knob),
        };
        let mut reset = false;
        match mode {
            SyncMode::Host => {
                if clock_running && !self.host_was_running {
                    reset = true;
                }
                self.host_was_running = clock_running;
            },
            _ => {
                self.host_was_running = false;
            },
        }
        if rewind {
            reset = true;
        }
        BlockPlan { clock_running, tempo, reset_sequencer: reset }
    }
}

/// Whether absolute step `abs` starts a new loop of a pattern whose
/// stored length is `length`: where a queued bank switch lands.
pub fn is_loop_start(abs: u64, length: u8) -> (b: bool)
    ensures
        b == (abs as int % walk_len(length) == 0),
{
    let len: u64 = if length == 0 {
        1
    } else {
        length as u64
    };
    abs % len == 0
}

/// What to do to the voice.
#[derive(Clone, Copy, Debug, PartialEq, Eq)]
pub enum VoiceMove {
    /// Hard retrigger.
    Trigger { note: u8, accent: bool },
    /// Slide-legato to the note.
    SlideTo { note: u8, accent: bool },
    /// Release the amp envelope.
    GateOff,
}

/// A sequencer trigger reaches the voice as a hard trigger, except a
/// slide onto a voice that is still ringing.
pub fn sequencer_move(t: SeqTrigger, voice_active: bool) -> (m: VoiceMove)
    ensures
        m == (match t {
            SeqTrigger::Hard { semitone, accent } => VoiceMove::Trigger { note: semitone, accent },
            SeqTrigger::Slide { semitone, accent } => if voice_active {
                VoiceMove::SlideTo { note: semitone, accent }
            } else {
                VoiceMove::Trigger { note: semitone, accent }
            },
        }),
{
    match t {
        SeqTrigger::Hard { semitone, accent } => VoiceMove::Trigger { note: semitone, accent },
        SeqTrigger::Slide { semitone, accent } => {
            if voice_active {
                VoiceMove::SlideTo { note: semitone, accent }
            } else {
                VoiceMove::Trigger { note: semitone, accent }
            }
        },
    }
}

/// An incoming MIDI note-on glides when the voice is still ringing
/// (overlapping notes play legato), and retriggers otherwise.
pub fn note_on_move(note: u8, accent: bool, voice_active: bool) -> (m: VoiceMove)
    ensures
        m == (if voice_active {
            VoiceMove::SlideTo { note, accent }
        } else {
            VoiceMove::Trigger { note, accent }
        }),
{
    if voice_active {
        VoiceMove::SlideTo { note, accent }
    } else {
        VoiceMove::Trigger { note, accent }
    }
}

/// A computer-keyboard note-on always retriggers, so that every press
/// gets a fresh attack; a note-off releases the voice.
pub fn keyboard_move(ev: KbdEvent) -> (m: VoiceMove)
    ensures
        m == (if ev.on {
            VoiceMove::Trigger { note: ev.note, accent: ev.accent }
        } else {
            VoiceMove::GateOff
        }),
{
    if ev.on {
        VoiceMove::Trigger { note: ev.note, accent: ev.accent }
    } else {
        VoiceMove::GateOff
    }
}


/// The bank slot a tick switches to: the queued one, when the tick
/// crosses into the first step of a loop of a pattern of stored length
/// `length`; none otherwise.
pub open spec fn switch_slot(t: SeqTick, length: u8, pending: i8) -> Option<u8> {
    match t.boundary {
        Some(abs) => if abs as int % walk_len(length) == 0 {
            pending_slot(pending)
        } else {
            None
        },
        None => None,
    }
}

/// Land a queued bank switch on a loop start. When the tick `t` crosses
/// into the first step of a loop and a switch is queued, the switch is
/// taken, its slot becomes active and published, the sequencer plays
/// the slot's pattern, and the tick is replaced by the new pattern's
/// tick for that step (so its first note plays on this very sample).
/// Otherwise nothing changes and `t` is returned as it is.
pub fn apply_bank_switch(seq: &mut Sequencer, q: &mut KbdQueue, t: SeqTick) -> (out: SeqTick)
    requires
        old(seq).pattern.wf(),
        old(q).wf(),
    ensures
        final(seq).pattern.wf(),
        final(q).wf(),
        match switch_slot(t, old(seq).pattern.length, old(q).pending_bank) {
            Some(slot) => {
                let np = old(q).bank.patterns@[(slot % 4) as int];
                let abs = t.boundary->0;
                &&& *final(q) == (KbdQueue {
                    pending_bank: -1i8,
                    bank: PatternBank { active: slot % 4, ..old(q).bank },
                    active_bank_pub: slot % 4,
                    ..*old(q)
                })
                &&& final(seq).pattern == np
                &&& out == (SeqTick {
                    gate_off: false,
                    trigger: trigger_for(np, abs as int, old(seq).has_triggered()),
                    boundary: Some(abs),
                })
                &&& final(seq).has_triggered() == triggered_after(np, abs as int, old(seq).has_triggered())
                &&& final(seq).is_bootstrapped() == old(seq).is_bootstrapped()
            },
            None => *final(q) == *old(q) && *final(seq) == *old(seq) && out == t,
        },
{
    if let Some(abs) = t.boundary {
        if is_loop_start(abs, seq.pattern.length) {
            if let Some(slot) = q.take_pending_bank() {
                let np = q.swap_active_bank(slot);
                assert(old(q).bank.patterns@[(slot % 4) as int].wf());
                seq.pattern = np;
                return seq.emit_for_step(abs);
            }
        }
    }
    t
}

} // verus!
