//! MIDI file import: turning a Standard MIDI File into a MIDI clip.
//!
//! Reading the file from disk is the caller's job; this module parses the
//! bytes (through the `midly` crate) and converts the note events.

use vstd::prelude::*;
use crate::midi::{MidiClip, MidiEvent, MidiMessage};
use midly::{MidiMessage as Msg, Smf, Timing, TrackEventKind as Kind};
use SmfEventKind::{NoteOff, NoteOn, Other};

verus! {

#[verifier::external_type_specification]
#[verifier::external_body]
pub struct ExIoError(std::io::Error);

/// Errors that can occur during file loading.
#[derive(Debug)]
pub enum FileLoadError {
    /// File could not be read from disk.
    Io(std::io::Error),
    /// MIDI file could not be parsed.
    Parse(String),
    /// File contains no usable events.
    Empty,
}

/// Timing of a Standard MIDI File.
#[derive(Debug, Clone, Copy, PartialEq, Eq, Structural)]
pub enum SmfTiming {
    /// Ticks per quarter note.
    Metrical(u16),
    /// SMPTE timecode.
    Timecode,
}

/// The part of a track event the importer reads.
#[derive(Debug, Clone, Copy, PartialEq, Eq, Structural)]
pub enum SmfEventKind {
    /// Note-on: channel, key, velocity.
    NoteOn(u8, u8, u8),
    /// Note-off: channel, key, velocity.
    NoteOff(u8, u8, u8),
    /// Any other channel message, system exclusive data or meta event.
    Other,
}

/// A track event: ticks since the previous event, and what happened.
#[derive(Debug, Clone, Copy, PartialEq, Eq, Structural)]
pub struct SmfEvent {
    pub delta: u32,
    pub kind: SmfEventKind,
}

/// A parsed Standard MIDI File, reduced to timing and per-track events.
#[derive(Debug)]
pub struct SmfData {
    pub timing: SmfTiming,
    pub tracks: Vec<Vec<SmfEvent>>,
}

/// Mathematical model of a parsed file.
pub struct SmfDataView {
    pub timing: SmfTiming,
    pub tracks: Seq<Seq<SmfEvent>>,
}

impl View for SmfData {
    type V = SmfDataView;

    open spec fn view(&self) -> SmfDataView {
        SmfDataView { timing: self.timing, tracks: self.tracks@.map_values(|t: Vec<SmfEvent>| t@) }
    }
}

#[verifier::external_type_specification]
#[verifier::external_body]
pub struct ExMidlyError(midly::Error);

/// What `midly::Smf::parse` makes of the bytes: the file's timing and, for
/// each track, each event's delta time and note-on/note-off content; or
/// nothing when the bytes are not a valid file.
pub uninterp spec fn smf_parse_result(bytes: Seq<u8>) -> Option<SmfDataView>;

/// Calls `midly::Smf::parse` and copies out the timing and, per event, the
/// delta time and the note-on / note-off fields (channel, key, velocity);
/// other events are marked as such. On failure it returns midly's error.
#[verifier::external_body]
fn smf_parse(bytes: &[u8]) -> (r: Result<SmfData, midly::Error>)
    ensures
        match r {
            Ok(d) => smf_parse_result(bytes@) == Some(d@),
            Err(_) => smf_parse_result(bytes@) is None,
        },
{
    let smf = Smf::parse(bytes)?;
    let timing = match smf.header.timing { Timing::Metrical(t) => SmfTiming::Metrical(t.as_int()), _ => SmfTiming::Timecode };
    let tracks = smf.tracks.iter().map(|t| t.iter().map(|e| SmfEvent { delta: e.delta.as_int(), kind: match e.kind {
        Kind::Midi { channel: c, message: Msg::NoteOn { key, vel } } => NoteOn(c.as_int(), key.as_int(), vel.as_int()),
        Kind::Midi { channel: c, message: Msg::NoteOff { key, vel } } => NoteOff(c.as_int(), key.as_int(), vel.as_int()),
        _ => Other } }).collect()).collect();
    Ok(SmfData { timing, tracks })
}

/// Calls midly's `Display` for its error, giving the parser's message.
/// The text is not stated: it is whatever midly writes for the error.
#[verifier::external_body]
fn midly_error_text(e: &midly::Error) -> String {
    e.to_string()
}

/// Ticks per beat; SMPTE timing counts as 480.
pub open spec fn ticks_per_beat(t: SmfTiming) -> int {
    match t {
        SmfTiming::Metrical(tpb) => tpb as int,
        SmfTiming::Timecode => 480,
    }
}

/// Absolute tick after the events of a track prefix.
pub open spec fn delta_sum(track: Seq<SmfEvent>) -> int
    decreases track.len(),
{
    if track.len() == 0 {
        0
    } else {
        delta_sum(track.drop_last()) + track.last().delta
    }
}

/// The clip message of an event: a note-on of velocity 0 is a note-off.
pub open spec fn event_message(k: SmfEventKind) -> Option<MidiMessage> {
    match k {
        SmfEventKind::NoteOn(channel, key, vel) => if vel == 0 {
            Some(MidiMessage::NoteOff { channel, note: key, velocity: 0 })
        } else {
            Some(MidiMessage::NoteOn { channel, note: key, velocity: vel })
        },
        SmfEventKind::NoteOff(channel, key, vel) => Some(MidiMessage::NoteOff { channel, note: key, velocity: vel }),
        SmfEventKind::Other => None,
    }
}

/// Note events of a track, stamped with their absolute tick.
pub open spec fn track_note_events(track: Seq<SmfEvent>) -> Seq<MidiEvent>
    decreases track.len(),
{
    if track.len() == 0 {
        Seq::empty()
    } else {
        let prev = track_note_events(track.drop_last());
        match event_message(track.last().kind) {
            Some(m) => prev.push(MidiEvent { tick: delta_sum(track) as i64, message: m }),
            None => prev,
        }
    }
}

/// Note events of all tracks, track after track.
pub open spec fn file_note_events(tracks: Seq<Seq<SmfEvent>>) -> Seq<MidiEvent>
    decreases tracks.len(),
{
    if tracks.len() == 0 {
        Seq::empty()
    } else {
        file_note_events(tracks.drop_last()) + track_note_events(tracks.last())
    }
}

/// The latest absolute tick reached by any event (0 for none).
pub open spec fn last_tick(tracks: Seq<Seq<SmfEvent>>) -> int
    decreases tracks.len(),
{
    if tracks.len() == 0 {
        0
    } else {
        let m = last_tick(tracks.drop_last());
        let t = delta_sum(tracks.last());
        if t > m { t } else { m }
    }
}

/// Clip length: the last tick rounded up to the next whole beat.
pub open spec fn clip_duration(d: SmfDataView) -> int {
    let tpb = ticks_per_beat(d.timing);
    (last_tick(d.tracks) / tpb + 1) * tpb
}

/// Conversion stays within machine integers and divides by a non-zero beat
/// length whenever there is something to convert.
pub open spec fn smf_fits(d: SmfDataView) -> bool {
    &&& forall|t: int| 0 <= t < d.tracks.len() ==> delta_sum(#[trigger] d.tracks[t]) <= i64::MAX
    &&& file_note_events(d.tracks).len() > 0 ==> ticks_per_beat(d.timing) > 0 && clip_duration(d) <= i64::MAX
}

/// The result of converting a parsed file.
pub open spec fn converted(d: SmfDataView) -> Option<(Seq<MidiEvent>, int)> {
    if file_note_events(d.tracks).len() == 0 {
        None
    } else {
        Some((file_note_events(d.tracks), clip_duration(d)))
    }
}

proof fn lemma_delta_sum_monotone(track: Seq<SmfEvent>, i: int)
    requires
        0 <= i <= track.len(),
    ensures
        0 <= delta_sum(track.take(i)) <= delta_sum(track),
    decreases track.len(),
{
    if i < track.len() {
        assert(track.take(i) == track.drop_last().take(i));
        lemma_delta_sum_monotone(track.drop_last(), i);
    } else {
        assert(track.take(i) == track);
    }
    if track.len() > 0 {
        lemma_delta_sum_monotone(track.drop_last(), track.len() - 1);
        assert(track.drop_last().take(track.len() - 1) == track.drop_last());
    }
}

proof fn lemma_last_tick_bounds(tracks: Seq<Seq<SmfEvent>>)
    ensures
        last_tick(tracks) >= 0,
        forall|t: int| 0 <= t < tracks.len() ==> delta_sum(#[trigger] tracks[t]) <= last_tick(tracks),
        tracks.len() > 0 ==> exists|t: int| 0 <= t < tracks.len() && last_tick(tracks) == delta_sum(tracks[t])
            || last_tick(tracks) == 0,
    decreases tracks.len(),
{
    if tracks.len() > 0 {
        lemma_last_tick_bounds(tracks.drop_last());
        lemma_delta_sum_monotone(tracks.last(), 0);
        assert forall|t: int| 0 <= t < tracks.len() implies delta_sum(#[trigger] tracks[t]) <= last_tick(tracks) by {
            if t < tracks.len() - 1 {
                assert(tracks[t] == tracks.drop_last()[t]);
            }
        }
        if last_tick(tracks) != 0 {
            if delta_sum(tracks.last()) > last_tick(tracks.drop_last()) {
                assert(last_tick(tracks) == delta_sum(tracks[tracks.len() - 1]));
            } else {
                let t = choose|t: int| 0 <= t < tracks.len() - 1 && last_tick(tracks.drop_last()) == delta_sum(tracks.drop_last()[t]);
                assert(tracks[t] == tracks.drop_last()[t]);
            }
        }
    }
}

/// Whether an event carries a note message.
fn is_note_event(k: SmfEventKind) -> (r: bool)
    ensures
        r == event_message(k) is Some,
{
    match k {
        SmfEventKind::Other => false,
        _ => true,
    }
}

/// The clip message of an event.
fn message_of(k: SmfEventKind) -> (r: Option<MidiMessage>)
    ensures
        r == event_message(k),
{
    match k {
        SmfEventKind::NoteOn(channel, key, vel) => if vel == 0 {
            Some(MidiMessage::NoteOff { channel, note: key, velocity: 0 })
        } else {
            Some(MidiMessage::NoteOn { channel, note: key, velocity: vel })
        },
        SmfEventKind::NoteOff(channel, key, vel) => Some(MidiMessage::NoteOff { channel, note: key, velocity: vel }),
        SmfEventKind::Other => None,
    }
}

/// Whether converting this parsed file stays within machine integers.
pub fn smf_fits_check(d: &SmfData) -> (r: bool)
    ensures
        r == smf_fits(d@),
{
    let ghost tr = d@.tracks;
    let nt = d.tracks.len();
    let mut total_ok = true;
    let mut max_tick: u128 = 0;
    let mut has_events = false;
    let mut t: usize = 0;
    while t < nt
        invariant
            nt == tr.len(),
            tr == d@.tracks,
            t <= nt,
            total_ok == forall|u: int| 0 <= u < t ==> delta_sum(#[trigger] tr[u]) <= i64::MAX,
            total_ok ==> max_tick == last_tick(tr.take(t as int)),
            has_events == (file_note_events(tr.take(t as int)).len() > 0),
        decreases nt - t,
    {
        let track = &d.tracks[t];
        proof {
            assert(tr[t as int] == track@);
        }
        let ne = track.len();
        let mut abs: u128 = 0;
        let mut track_has = false;
        let mut e: usize = 0;
        while e < ne
            invariant
                ne == track@.len(),
                e <= ne,
                abs == delta_sum(track@.take(e as int)),
                abs <= (e as int) * 0x1_0000_0000,
                track_has == (track_note_events(track@.take(e as int)).len() > 0),
            decreases ne - e,
        {
            proof {
                assert(track@.take(e as int + 1).drop_last() == track@.take(e as int));
                assert(track@.take(e as int + 1).last() == track@[e as int]);
            }
            abs = abs + track[e].delta as u128;
            if is_note_event(track[e].kind) {
                track_has = true;
            }
            e = e + 1;
        }
        proof {
            assert(track@.take(ne as int) == track@);
            assert(tr.take(t as int + 1).drop_last() == tr.take(t as int));
            assert(tr.take(t as int + 1).last() == tr[t as int]);
        }
        if abs > 0x7FFF_FFFF_FFFF_FFFF {
            total_ok = false;
        } else if total_ok {
            if abs > max_tick {
                max_tick = abs;
            }
        }
        if track_has {
            has_events = true;
        }
        t = t + 1;
    }
    proof {
        assert(tr.take(nt as int) == tr);
    }
    if !total_ok {
        return false;
    }
    if !has_events {
        return true;
    }
    let tpb: u128 = match d.timing {
        SmfTiming::Metrical(x) => x as u128,
        SmfTiming::Timecode => 480,
    };
    if tpb == 0 {
        return false;
    }
    proof {
        lemma_last_tick_bounds(tr);
        if tr.len() > 0 {
            assert(max_tick <= i64::MAX);
        }
        assert((max_tick / tpb + 1) * tpb <= (max_tick as int) + (tpb as int)) by (nonlinear_arith)
            requires tpb >= 1, max_tick >= 0;
    }
    (max_tick / tpb + 1) * tpb <= 0x7FFF_FFFF_FFFF_FFFF
}

/// Convert a parsed file into a clip: note events of all tracks with
/// absolute ticks (a note-on of velocity 0 counts as a note-off), and a
/// length rounded up to the next whole beat after the last event.
pub fn midi_clip_from_smf(d: &SmfData) -> (r: Result<MidiClip, FileLoadError>)
    requires
        smf_fits(d@),
    ensures
        match converted(d@) {
            None => r matches Err(FileLoadError::Empty),
            Some((events, duration)) => r matches Ok(c) && c.spec_events() == events && c.spec_duration() == duration,
        },
{
    let ghost tr = d@.tracks;
    proof {
        lemma_last_tick_bounds(tr);
    }
    let tpb: i64 = match d.timing {
        SmfTiming::Metrical(x) => x as i64,
        SmfTiming::Timecode => 480,
    };
    let mut events: Vec<MidiEvent> = Vec::new();
    let mut max_tick: i64 = 0;
    let nt = d.tracks.len();
    let mut t: usize = 0;
    while t < nt
        invariant
            nt == tr.len(),
            tr == d@.tracks,
            t <= nt,
            smf_fits(d@),
            tpb == ticks_per_beat(d@.timing),
            forall|u: int| 0 <= u < tr.len() ==> delta_sum(#[trigger] tr[u]) <= last_tick(tr),
            events@ == file_note_events(tr.take(t as int)),
            max_tick == last_tick(tr.take(t as int)),
        decreases nt - t,
    {
        let track = &d.tracks[t];
        proof {
            assert(tr[t as int] == track@);
            assert(delta_sum(tr[t as int]) <= i64::MAX);
        }
        let ghost before = events@;
        let ghost prev_max = max_tick;
        let ne = track.len();
        let mut abs: i64 = 0;
        let mut e: usize = 0;
        proof {
            lemma_last_tick_bounds(tr.take(t as int));
            assert(track@.take(0) =~= Seq::<SmfEvent>::empty());
            assert(before + Seq::<MidiEvent>::empty() =~= before);
        }
        while e < ne
            invariant
                ne == track@.len(),
                e <= ne,
                delta_sum(track@) <= i64::MAX,
                abs == delta_sum(track@.take(e as int)),
                events@ == before + track_note_events(track@.take(e as int)),
                max_tick == (if abs > prev_max { abs as int } else { prev_max as int }),
                prev_max >= 0,
            decreases ne - e,
        {
            proof {
                assert(track@.take(e as int + 1).drop_last() == track@.take(e as int));
                assert(track@.take(e as int + 1).last() == track@[e as int]);
                lemma_delta_sum_monotone(track@, e as int + 1);
                lemma_delta_sum_monotone(track@, e as int);
            }
            abs = abs + track[e].delta as i64;
            if let Some(m) = message_of(track[e].kind) {
                events.push(MidiEvent { tick: abs, message: m });
            }
            if abs > max_tick {
                max_tick = abs;
            }
            e = e + 1;
        }
        proof {
            assert(track@.take(ne as int) == track@);
            assert(tr.take(t as int + 1).drop_last() == tr.take(t as int));
            assert(tr.take(t as int + 1).last() == tr[t as int]);
            lemma_last_tick_bounds(tr.take(t as int));
        }
        t = t + 1;
    }
    proof {
        assert(tr.take(nt as int) == tr);
    }
    if events.len() == 0 {
        return Err(FileLoadError::Empty);
    }
    proof {
        assert(file_note_events(tr).len() > 0);
        assert(ticks_per_beat(d@.timing) > 0);
        assert(clip_duration(d@) <= i64::MAX);
        assert(max_tick == last_tick(tr));
        assert(max_tick >= 0);
    }
    let q = max_tick / tpb;
    proof {
        assert(q as int == last_tick(tr) / ticks_per_beat(d@.timing));
        assert((q + 1) * tpb == clip_duration(d@));
        assert((q + 1) * tpb >= 0) by (nonlinear_arith)
            requires q >= 0, tpb >= 1;
        assert(q + 1 <= (q + 1) * tpb) by (nonlinear_arith)
            requires q >= 0, tpb >= 1;
    }
    let duration_ticks = (q + 1) * tpb;
    Ok(MidiClip::new(events, duration_ticks))
}

/// Parse the bytes of a Standard MIDI File and convert it into a clip.
///
/// Returns `None` only when the parsed file's ticks would not fit in a
/// tick value or its beat length is zero (conversion is then undefined).
pub fn parse_midi_bytes(bytes: &[u8]) -> (r: Option<Result<MidiClip, FileLoadError>>)
    ensures
        match smf_parse_result(bytes@) {
            None => r matches Some(Err(FileLoadError::Parse(_))),
            Some(d) => if smf_fits(d) {
                match converted(d) {
                    None => r matches Some(Err(FileLoadError::Empty)),
                    Some((events, duration)) => r matches Some(Ok(c)) && c.spec_events() == events
                        && c.spec_duration() == duration,
                }
            } else {
                r is None
            },
        },
{
    match smf_parse(bytes) {
        Err(e) => Some(Err(FileLoadError::Parse(midly_error_text(&e)))),
        Ok(d) => {
            if smf_fits_check(&d) {
                Some(midi_clip_from_smf(&d))
            } else {
                None
            }
        },
    }
}

} // verus!
