use ma_ui::file_loader::{parse_midi_bytes, FileLoadError};
use ma_ui::midi::MidiMessage;

fn build_smf_bytes(track_events: &[(u32, midly::TrackEventKind<'_>)]) -> Vec<u8> {
    let events: Vec<midly::TrackEvent<'_>> = track_events
        .iter()
        .map(|(delta, kind)| midly::TrackEvent { delta: (*delta).into(), kind: *kind })
        .collect();
    let smf = midly::Smf {
        header: midly::Header { format: midly::Format::SingleTrack, timing: midly::Timing::Metrical(480.into()) },
        tracks: vec![events],
    };
    let mut buf = Vec::new();
    smf.write_std(&mut buf).unwrap();
    buf
}

fn note_on(key: u8, vel: u8) -> midly::TrackEventKind<'static> {
    midly::TrackEventKind::Midi {
        channel: 0.into(),
        message: midly::MidiMessage::NoteOn { key: key.into(), vel: vel.into() },
    }
}

fn note_off(key: u8, vel: u8) -> midly::TrackEventKind<'static> {
    midly::TrackEventKind::Midi {
        channel: 0.into(),
        message: midly::MidiMessage::NoteOff { key: key.into(), vel: vel.into() },
    }
}

fn end_of_track() -> midly::TrackEventKind<'static> {
    midly::TrackEventKind::Meta(midly::MetaMessage::EndOfTrack)
}

#[test]
fn parse_note_on_off() {
    let bytes = build_smf_bytes(&[(0, note_on(60, 100)), (480, note_off(60, 0)), (0, end_of_track())]);
    let clip = parse_midi_bytes(&bytes).unwrap().unwrap();
    assert_eq!(clip.event_count(), 2);
    let events = clip.events();
    assert_eq!(events[0].tick, 0);
    assert!(matches!(events[0].message, MidiMessage::NoteOn { note: 60, velocity: 100, .. }));
    assert_eq!(events[1].tick, 480);
    assert!(matches!(events[1].message, MidiMessage::NoteOff { note: 60, .. }));
}

#[test]
fn velocity_zero_is_note_off() {
    let bytes = build_smf_bytes(&[(0, note_on(64, 80)), (240, note_on(64, 0)), (0, end_of_track())]);
    let clip = parse_midi_bytes(&bytes).unwrap().unwrap();
    let events = clip.events();
    assert_eq!(events.len(), 2);
    assert!(matches!(events[1].message, MidiMessage::NoteOff { .. }));
}

#[test]
fn empty_file_returns_error() {
    let bytes = build_smf_bytes(&[(0, end_of_track())]);
    let result = parse_midi_bytes(&bytes).unwrap();
    assert!(matches!(result, Err(FileLoadError::Empty)));
}

#[test]
fn duration_rounds_to_beat_boundary() {
    let bytes = build_smf_bytes(&[(0, note_on(72, 90)), (100, note_off(72, 0)), (0, end_of_track())]);
    let clip = parse_midi_bytes(&bytes).unwrap().unwrap();
    assert_eq!(clip.duration_ticks(), 480);
}

#[test]
fn garbage_bytes_are_a_parse_error() {
    let result = parse_midi_bytes(b"not a midi file").unwrap();
    assert!(matches!(result, Err(FileLoadError::Parse(_))));
}

#[test]
fn duration_on_exact_beat_goes_to_next_beat() {
    let bytes = build_smf_bytes(&[(0, note_on(72, 90)), (480, note_off(72, 3)), (0, end_of_track())]);
    let clip = parse_midi_bytes(&bytes).unwrap().unwrap();
    assert_eq!(clip.duration_ticks(), 960);
    assert!(matches!(clip.events()[1].message, MidiMessage::NoteOff { note: 72, velocity: 3, .. }));
}

#[test]
fn events_of_all_tracks_are_collected() {
    let t1: Vec<midly::TrackEvent<'_>> = vec![
        midly::TrackEvent { delta: 10.into(), kind: note_on(60, 1) },
        midly::TrackEvent { delta: 0.into(), kind: end_of_track() },
    ];
    let t2: Vec<midly::TrackEvent<'_>> = vec![
        midly::TrackEvent { delta: 5.into(), kind: note_on(62, 2) },
        midly::TrackEvent { delta: 2000.into(), kind: note_off(62, 0) },
        midly::TrackEvent { delta: 0.into(), kind: end_of_track() },
    ];
    let smf = midly::Smf {
        header: midly::Header { format: midly::Format::Parallel, timing: midly::Timing::Metrical(480.into()) },
        tracks: vec![t1, t2],
    };
    let mut bytes = Vec::new();
    smf.write_std(&mut bytes).unwrap();
    let clip = parse_midi_bytes(&bytes).unwrap().unwrap();
    let ticks: Vec<i64> = clip.events().iter().map(|e| e.tick).collect();
    assert_eq!(ticks, vec![10, 5, 2005]);
    assert_eq!(clip.duration_ticks(), 2400);
}
