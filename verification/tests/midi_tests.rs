use ma_ui::midi::{note_name, note_to_events, MidiClip, MidiEvent, MidiMessage, Note, NoteId};

#[test]
fn test_note_end_tick() {
    let note = Note { id: NoteId(1), pitch: 60, start_tick: 0, duration_ticks: 960, velocity: 100, channel: 0 };
    assert_eq!(note.end_tick(), 960);
}

#[test]
fn test_note_name() {
    assert_eq!(note_name(60), "C4");
    assert_eq!(note_name(69), "A4");
    assert_eq!(note_name(0), "C-1");
}

#[test]
fn test_note_to_events() {
    let note = Note { id: NoteId(1), pitch: 64, start_tick: 480, duration_ticks: 240, velocity: 90, channel: 0 };
    let events = note_to_events(&note);
    assert_eq!(events[0].tick, 480);
    assert_eq!(events[1].tick, 720);
}

#[test]
fn note_to_events_messages() {
    let note = Note { id: NoteId(7), pitch: 61, start_tick: 10, duration_ticks: 5, velocity: 33, channel: 2 };
    let events = note_to_events(&note);
    assert_eq!(events[0].message, MidiMessage::NoteOn { channel: 2, note: 61, velocity: 33 });
    assert_eq!(events[1].message, MidiMessage::NoteOff { channel: 2, note: 61, velocity: 0 });
}

#[test]
fn note_names_across_the_range() {
    assert_eq!(note_name(1), "C#-1");
    assert_eq!(note_name(11), "B-1");
    assert_eq!(note_name(12), "C0");
    assert_eq!(note_name(70), "A#4");
    assert_eq!(note_name(127), "G9");
}

#[test]
fn midi_clip_keeps_events_and_length() {
    let ev = vec![
        MidiEvent { tick: 0, message: MidiMessage::NoteOn { channel: 0, note: 60, velocity: 100 } },
        MidiEvent { tick: 480, message: MidiMessage::NoteOff { channel: 0, note: 60, velocity: 0 } },
    ];
    let clip = MidiClip::new(ev, 960);
    assert_eq!(clip.event_count(), 2);
    assert_eq!(clip.duration_ticks(), 960);
    assert_eq!(clip.events()[1].tick, 480);
}
