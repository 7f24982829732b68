//! MIDI types for note representation, events, and messages.

use vstd::prelude::*;

verus! {

/// Unique identifier for a MIDI note in the UI.
#[derive(Debug, Clone, Copy, PartialEq, Eq, Hash, Structural)]
pub struct NoteId(pub u64);

/// MIDI message types.
#[derive(Debug, Clone, Copy, PartialEq, Eq, Structural)]
#[allow(inconsistent_fields)]
pub enum MidiMessage {
    NoteOn { channel: u8, note: u8, velocity: u8 },
    NoteOff { channel: u8, note: u8, velocity: u8 },
    ControlChange { channel: u8, controller: u8, value: u8 },
    PitchBend { channel: u8, value: i16 },
    ProgramChange { channel: u8, program: u8 },
}

/// A MIDI event with tick-accurate timing.
#[derive(Debug, Clone, Copy, PartialEq, Eq, Structural)]
pub struct MidiEvent {
    pub tick: i64,
    pub message: MidiMessage,
}

/// Piano roll note representation (richer than raw MidiEvent).
#[derive(Debug, Clone, Copy, PartialEq, Eq, Structural)]
pub struct Note {
    pub id: NoteId,
    pub pitch: u8,
    pub start_tick: i64,
    pub duration_ticks: i64,
    pub velocity: u8,
    pub channel: u8,
}

/// Position one tick past the end of a note.
pub open spec fn note_end(n: Note) -> int {
    n.start_tick + n.duration_ticks
}

/// The end of the note fits in a tick value.
pub open spec fn note_end_fits(n: Note) -> bool {
    i64::MIN <= note_end(n) <= i64::MAX
}

impl Note {
    pub fn end_tick(&self) -> (r: i64)
        requires
            note_end_fits(*self),
        ensures
            r == note_end(*self),
    {
        self.start_tick + self.duration_ticks
    }
}

/// The NoteOn / NoteOff pair a note stands for.
pub open spec fn note_events(note: Note) -> (MidiEvent, MidiEvent) {
    (
        MidiEvent {
            tick: note.start_tick,
            message: MidiMessage::NoteOn {
                channel: note.channel,
                note: note.pitch,
                velocity: note.velocity,
            },
        },
        MidiEvent {
            tick: note_end(note) as i64,
            message: MidiMessage::NoteOff { channel: note.channel, note: note.pitch, velocity: 0 },
        },
    )
}

/// Convert a Note into NoteOn + NoteOff MidiEvents.
pub fn note_to_events(note: &Note) -> (r: [MidiEvent; 2])
    requires
        note_end_fits(*note),
    ensures
        r[0] == note_events(*note).0,
        r[1] == note_events(*note).1,
{
    [
        MidiEvent {
            tick: note.start_tick,
            message: MidiMessage::NoteOn {
                channel: note.channel,
                note: note.pitch,
                velocity: note.velocity,
            },
        },
        MidiEvent {
            tick: note.end_tick(),
            message: MidiMessage::NoteOff { channel: note.channel, note: note.pitch, velocity: 0 },
        },
    ]
}

/// Name of a pitch class (0 = C).
pub open spec fn pitch_class_name(pc: int) -> Seq<char> {
    if pc == 0 { seq!['C'] }
    else if pc == 1 { seq!['C', '#'] }
    else if pc == 2 { seq!['D'] }
    else if pc == 3 { seq!['D', '#'] }
    else if pc == 4 { seq!['E'] }
    else if pc == 5 { seq!['F'] }
    else if pc == 6 { seq!['F', '#'] }
    else if pc == 7 { seq!['G'] }
    else if pc == 8 { seq!['G', '#'] }
    else if pc == 9 { seq!['A'] }
    else if pc == 10 { seq!['A', '#'] }
    else { seq!['B'] }
}

/// Octave number as text (-1 to 9).
pub open spec fn octave_text(o: int) -> Seq<char> {
    if o < 0 { seq!['-', '1'] } else { seq![((o + 48) as u32) as char] }
}

/// Scientific pitch name of a MIDI note: pitch class then octave, with
/// middle C (60) named C4.
pub open spec fn note_name_text(pitch: int) -> Seq<char> {
    pitch_class_name(pitch % 12) + octave_text(pitch / 12 - 1)
}

/// MIDI note number to name (e.g., 60 -> "C4").
pub fn note_name(pitch: u8) -> (r: &'static str)
    requires
        pitch < 128,
    ensures
        r@ == note_name_text(pitch as int),
{
    match pitch {
        0 => {
            proof {
                reveal_strlit("C-1");
                assert("C-1"@ =~= note_name_text(0));
            }
            "C-1"
        },
        1 => {
            proof {
                reveal_strlit("C#-1");
                assert("C#-1"@ =~= note_name_text(1));
            }
            "C#-1"
        },
        2 => {
            proof {
                reveal_strlit("D-1");
                assert("D-1"@ =~= note_name_text(2));
            }
            "D-1"
        },
        3 => {
            proof {
                reveal_strlit("D#-1");
                assert("D#-1"@ =~= note_name_text(3));
            }
            "D#-1"
        },
        4 => {
            proof {
                reveal_strlit("E-1");
                assert("E-1"@ =~= note_name_text(4));
            }
            "E-1"
        },
        5 => {
            proof {
                reveal_strlit("F-1");
                assert("F-1"@ =~= note_name_text(5));
            }
            "F-1"
        },
        6 => {
            proof {
                reveal_strlit("F#-1");
                assert("F#-1"@ =~= note_name_text(6));
            }
            "F#-1"
        },
        7 => {
            proof {
                reveal_strlit("G-1");
                assert("G-1"@ =~= note_name_text(7));
            }
            "G-1"
        },
        8 => {
            proof {
                reveal_strlit("G#-1");
                assert("G#-1"@ =~= note_name_text(8));
            }
            "G#-1"
        },
        9 => {
            proof {
                reveal_strlit("A-1");
                assert("A-1"@ =~= note_name_text(9));
            }
            "A-1"
        },
        10 => {
            proof {
                reveal_strlit("A#-1");
                assert("A#-1"@ =~= note_name_text(10));
            }
            "A#-1"
        },
        11 => {
            proof {
                reveal_strlit("B-1");
                assert("B-1"@ =~= note_name_text(11));
            }
            "B-1"
        },
        12 => {
            proof {
                reveal_strlit("C0");
                assert("C0"@ =~= note_name_text(12));
            }
            "C0"
        },
        13 => {
            proof {
                reveal_strlit("C#0");
                assert("C#0"@ =~= note_name_text(13));
            }
            "C#0"
        },
        14 => {
            proof {
                reveal_strlit("D0");
                assert("D0"@ =~= note_name_text(14));
            }
            "D0"
        },
        15 => {
            proof {
                reveal_strlit("D#0");
                assert("D#0"@ =~= note_name_text(15));
            }
            "D#0"
        },
        16 => {
            proof {
                reveal_strlit("E0");
                assert("E0"@ =~= note_name_text(16));
            }
            "E0"
        },
        17 => {
            proof {
                reveal_strlit("F0");
                assert("F0"@ =~= note_name_text(17));
            }
            "F0"
        },
        18 => {
            proof {
                reveal_strlit("F#0");
                assert("F#0"@ =~= note_name_text(18));
            }
            "F#0"
        },
        19 => {
            proof {
                reveal_strlit("G0");
                assert("G0"@ =~= note_name_text(19));
            }
            "G0"
        },
        20 => {
            proof {
                reveal_strlit("G#0");
                assert("G#0"@ =~= note_name_text(20));
            }
            "G#0"
        },
        21 => {
            proof {
                reveal_strlit("A0");
                assert("A0"@ =~= note_name_text(21));
            }
            "A0"
        },
        22 => {
            proof {
                reveal_strlit("A#0");
                assert("A#0"@ =~= note_name_text(22));
            }
            "A#0"
        },
        23 => {
            proof {
                reveal_strlit("B0");
                assert("B0"@ =~= note_name_text(23));
            }
            "B0"
        },
        24 => {
            proof {
                reveal_strlit("C1");
                assert("C1"@ =~= note_name_text(24));
            }
            "C1"
        },
        25 => {
            proof {
                reveal_strlit("C#1");
                assert("C#1"@ =~= note_name_text(25));
            }
            "C#1"
        },
        26 => {
            proof {
                reveal_strlit("D1");
                assert("D1"@ =~= note_name_text(26));
            }
            "D1"
        },
        27 => {
            proof {
                reveal_strlit("D#1");
                assert("D#1"@ =~= note_name_text(27));
            }
            "D#1"
        },
        28 => {
            proof {
                reveal_strlit("E1");
                assert("E1"@ =~= note_name_text(28));
            }
            "E1"
        },
        29 => {
            proof {
                reveal_strlit("F1");
                assert("F1"@ =~= note_name_text(29));
            }
            "F1"
        },
        30 => {
            proof {
                reveal_strlit("F#1");
                assert("F#1"@ =~= note_name_text(30));
            }
            "F#1"
        },
        31 => {
            proof {
                reveal_strlit("G1");
                assert("G1"@ =~= note_name_text(31));
            }
            "G1"
        },
        32 => {
            proof {
                reveal_strlit("G#1");
                assert("G#1"@ =~= note_name_text(32));
            }
            "G#1"
        },
        33 => {
            proof {
                reveal_strlit("A1");
                assert("A1"@ =~= note_name_text(33));
            }
            "A1"
        },
        34 => {
            proof {
                reveal_strlit("A#1");
                assert("A#1"@ =~= note_name_text(34));
            }
            "A#1"
        },
        35 => {
            proof {
                reveal_strlit("B1");
                assert("B1"@ =~= note_name_text(35));
            }
            "B1"
        },
        36 => {
            proof {
                reveal_strlit("C2");
                assert("C2"@ =~= note_name_text(36));
            }
            "C2"
        },
        37 => {
            proof {
                reveal_strlit("C#2");
                assert("C#2"@ =~= note_name_text(37));
            }
            "C#2"
        },
        38 => {
            proof {
                reveal_strlit("D2");
                assert("D2"@ =~= note_name_text(38));
            }
            "D2"
        },
        39 => {
            proof {
                reveal_strlit("D#2");
                assert("D#2"@ =~= note_name_text(39));
            }
            "D#2"
        },
        40 => {
            proof {
                reveal_strlit("E2");
                assert("E2"@ =~= note_name_text(40));
            }
            "E2"
        },
        41 => {
            proof {
                reveal_strlit("F2");
                assert("F2"@ =~= note_name_text(41));
            }
            "F2"
        },
        42 => {
            proof {
                reveal_strlit("F#2");
                assert("F#2"@ =~= note_name_text(42));
            }
            "F#2"
        },
        43 => {
            proof {
                reveal_strlit("G2");
                assert("G2"@ =~= note_name_text(43));
            }
            "G2"
        },
        44 => {
            proof {
                reveal_strlit("G#2");
                assert("G#2"@ =~= note_name_text(44));
            }
            "G#2"
        },
        45 => {
            proof {
                reveal_strlit("A2");
                assert("A2"@ =~= note_name_text(45));
            }
            "A2"
        },
        46 => {
            proof {
                reveal_strlit("A#2");
                assert("A#2"@ =~= note_name_text(46));
            }
            "A#2"
        },
        47 => {
            proof {
                reveal_strlit("B2");
                assert("B2"@ =~= note_name_text(47));
            }
            "B2"
        },
        48 => {
            proof {
                reveal_strlit("C3");
                assert("C3"@ =~= note_name_text(48));
            }
            "C3"
        },
        49 => {
            proof {
                reveal_strlit("C#3");
                assert("C#3"@ =~= note_name_text(49));
            }
            "C#3"
        },
        50 => {
            proof {
                reveal_strlit("D3");
                assert("D3"@ =~= note_name_text(50));
            }
            "D3"
        },
        51 => {
            proof {
                reveal_strlit("D#3");
                assert("D#3"@ =~= note_name_text(51));
            }
            "D#3"
        },
        52 => {
            proof {
                reveal_strlit("E3");
                assert("E3"@ =~= note_name_text(52));
            }
            "E3"
        },
        53 => {
            proof {
                reveal_strlit("F3");
                assert("F3"@ =~= note_name_text(53));
            }
            "F3"
        },
        54 => {
            proof {
                reveal_strlit("F#3");
                assert("F#3"@ =~= note_name_text(54));
            }
            "F#3"
        },
        55 => {
            proof {
                reveal_strlit("G3");
                assert("G3"@ =~= note_name_text(55));
            }
            "G3"
        },
        56 => {
            proof {
                reveal_strlit("G#3");
                assert("G#3"@ =~= note_name_text(56));
            }
            "G#3"
        },
        57 => {
            proof {
                reveal_strlit("A3");
                assert("A3"@ =~= note_name_text(57));
            }
            "A3"
        },
        58 => {
            proof {
                reveal_strlit("A#3");
                assert("A#3"@ =~= note_name_text(58));
            }
            "A#3"
        },
        59 => {
            proof {
                reveal_strlit("B3");
                assert("B3"@ =~= note_name_text(59));
            }
            "B3"
        },
        60 => {
            proof {
                reveal_strlit("C4");
                assert("C4"@ =~= note_name_text(60));
            }
            "C4"
        },
        61 => {
            proof {
                reveal_strlit("C#4");
                assert("C#4"@ =~= note_name_text(61));
            }
            "C#4"
        },
        62 => {
            proof {
                reveal_strlit("D4");
                assert("D4"@ =~= note_name_text(62));
            }
            "D4"
        },
        63 => {
            proof {
                reveal_strlit("D#4");
                assert("D#4"@ =~= note_name_text(63));
            }
            "D#4"
        },
        64 => {
            proof {
                reveal_strlit("E4");
                assert("E4"@ =~= note_name_text(64));
            }
            "E4"
        },
        65 => {
            proof {
                reveal_strlit("F4");
                assert("F4"@ =~= note_name_text(65));
            }
            "F4"
        },
        66 => {
            proof {
                reveal_strlit("F#4");
                assert("F#4"@ =~= note_name_text(66));
            }
            "F#4"
        },
        67 => {
            proof {
                reveal_strlit("G4");
                assert("G4"@ =~= note_name_text(67));
            }
            "G4"
        },
        68 => {
            proof {
                reveal_strlit("G#4");
                assert("G#4"@ =~= note_name_text(68));
            }
            "G#4"
        },
        69 => {
            proof {
                reveal_strlit("A4");
                assert("A4"@ =~= note_name_text(69));
            }
            "A4"
        },
        70 => {
            proof {
                reveal_strlit("A#4");
                assert("A#4"@ =~= note_name_text(70));
            }
            "A#4"
        },
        71 => {
            proof {
                reveal_strlit("B4");
                assert("B4"@ =~= note_name_text(71));
            }
            "B4"
        },
        72 => {
            proof {
                reveal_strlit("C5");
                assert("C5"@ =~= note_name_text(72));
            }
            "C5"
        },
        73 => {
            proof {
                reveal_strlit("C#5");
                assert("C#5"@ =~= note_name_text(73));
            }
            "C#5"
        },
        74 => {
            proof {
                reveal_strlit("D5");
                assert("D5"@ =~= note_name_text(74));
            }
            "D5"
        },
        75 => {
            proof {
                reveal_strlit("D#5");
                assert("D#5"@ =~= note_name_text(75));
            }
            "D#5"
        },
        76 => {
            proof {
                reveal_strlit("E5");
                assert("E5"@ =~= note_name_text(76));
            }
            "E5"
        },
        77 => {
            proof {
                reveal_strlit("F5");
                assert("F5"@ =~= note_name_text(77));
            }
            "F5"
        },
        78 => {
            proof {
                reveal_strlit("F#5");
                assert("F#5"@ =~= note_name_text(78));
            }
            "F#5"
        },
        79 => {
            proof {
                reveal_strlit("G5");
                assert("G5"@ =~= note_name_text(79));
            }
            "G5"
        },
        80 => {
            proof {
                reveal_strlit("G#5");
                assert("G#5"@ =~= note_name_text(80));
            }
            "G#5"
        },
        81 => {
            proof {
                reveal_strlit("A5");
                assert("A5"@ =~= note_name_text(81));
            }
            "A5"
        },
        82 => {
            proof {
                reveal_strlit("A#5");
                assert("A#5"@ =~= note_name_text(82));
            }
            "A#5"
        },
        83 => {
            proof {
                reveal_strlit("B5");
                assert("B5"@ =~= note_name_text(83));
            }
            "B5"
        },
        84 => {
            proof {
                reveal_strlit("C6");
                assert("C6"@ =~= note_name_text(84));
            }
            "C6"
        },
        85 => {
            proof {
                reveal_strlit("C#6");
                assert("C#6"@ =~= note_name_text(85));
            }
            "C#6"
        },
        86 => {
            proof {
                reveal_strlit("D6");
                assert("D6"@ =~= note_name_text(86));
            }
            "D6"
        },
        87 => {
            proof {
                reveal_strlit("D#6");
                assert("D#6"@ =~= note_name_text(87));
            }
            "D#6"
        },
        88 => {
            proof {
                reveal_strlit("E6");
                assert("E6"@ =~= note_name_text(88));
            }
            "E6"
        },
        89 => {
            proof {
                reveal_strlit("F6");
                assert("F6"@ =~= note_name_text(89));
            }
            "F6"
        },
        90 => {
            proof {
                reveal_strlit("F#6");
                assert("F#6"@ =~= note_name_text(90));
            }
            "F#6"
        },
        91 => {
            proof {
                reveal_strlit("G6");
                assert("G6"@ =~= note_name_text(91));
            }
            "G6"
        },
        92 => {
            proof {
                reveal_strlit("G#6");
                assert("G#6"@ =~= note_name_text(92));
            }
            "G#6"
        },
        93 => {
            proof {
                reveal_strlit("A6");
                assert("A6"@ =~= note_name_text(93));
            }
            "A6"
        },
        94 => {
            proof {
                reveal_strlit("A#6");
                assert("A#6"@ =~= note_name_text(94));
            }
            "A#6"
        },
        95 => {
            proof {
                reveal_strlit("B6");
                assert("B6"@ =~= note_name_text(95));
            }
            "B6"
        },
        96 => {
            proof {
                reveal_strlit("C7");
                assert("C7"@ =~= note_name_text(96));
            }
            "C7"
        },
        97 => {
            proof {
                reveal_strlit("C#7");
                assert("C#7"@ =~= note_name_text(97));
            }
            "C#7"
        },
        98 => {
            proof {
                reveal_strlit("D7");
                assert("D7"@ =~= note_name_text(98));
            }
            "D7"
        },
        99 => {
            proof {
                reveal_strlit("D#7");
                assert("D#7"@ =~= note_name_text(99));
            }
            "D#7"
        },
        100 => {
            proof {
                reveal_strlit("E7");
                assert("E7"@ =~= note_name_text(100));
            }
            "E7"
        },
        101 => {
            proof {
                reveal_strlit("F7");
                assert("F7"@ =~= note_name_text(101));
            }
            "F7"
        },
        102 => {
            proof {
                reveal_strlit("F#7");
                assert("F#7"@ =~= note_name_text(102));
            }
            "F#7"
        },
        103 => {
            proof {
                reveal_strlit("G7");
                assert("G7"@ =~= note_name_text(103));
            }
            "G7"
        },
        104 => {
            proof {
                reveal_strlit("G#7");
                assert("G#7"@ =~= note_name_text(104));
            }
            "G#7"
        },
        105 => {
            proof {
                reveal_strlit("A7");
                assert("A7"@ =~= note_name_text(105));
            }
            "A7"
        },
        106 => {
            proof {
                reveal_strlit("A#7");
                assert("A#7"@ =~= note_name_text(106));
            }
            "A#7"
        },
        107 => {
            proof {
                reveal_strlit("B7");
                assert("B7"@ =~= note_name_text(107));
            }
            "B7"
        },
        108 => {
            proof {
                reveal_strlit("C8");
                assert("C8"@ =~= note_name_text(108));
            }
            "C8"
        },
        109 => {
            proof {
                reveal_strlit("C#8");
                assert("C#8"@ =~= note_name_text(109));
            }
            "C#8"
        },
        110 => {
            proof {
                reveal_strlit("D8");
                assert("D8"@ =~= note_name_text(110));
            }
            "D8"
        },
        111 => {
            proof {
                reveal_strlit("D#8");
                assert("D#8"@ =~= note_name_text(111));
            }
            "D#8"
        },
        112 => {
            proof {
                reveal_strlit("E8");
                assert("E8"@ =~= note_name_text(112));
            }
            "E8"
        },
        113 => {
            proof {
                reveal_strlit("F8");
                assert("F8"@ =~= note_name_text(113));
            }
            "F8"
        },
        114 => {
            proof {
                reveal_strlit("F#8");
                assert("F#8"@ =~= note_name_text(114));
            }
            "F#8"
        },
        115 => {
            proof {
                reveal_strlit("G8");
                assert("G8"@ =~= note_name_text(115));
            }
            "G8"
        },
        116 => {
            proof {
                reveal_strlit("G#8");
                assert("G#8"@ =~= note_name_text(116));
            }
            "G#8"
        },
        117 => {
            proof {
                reveal_strlit("A8");
                assert("A8"@ =~= note_name_text(117));
            }
            "A8"
        },
        118 => {
            proof {
                reveal_strlit("A#8");
                assert("A#8"@ =~= note_name_text(118));
            }
            "A#8"
        },
        119 => {
            proof {
                reveal_strlit("B8");
                assert("B8"@ =~= note_name_text(119));
            }
            "B8"
        },
        120 => {
            proof {
                reveal_strlit("C9");
                assert("C9"@ =~= note_name_text(120));
            }
            "C9"
        },
        121 => {
            proof {
                reveal_strlit("C#9");
                assert("C#9"@ =~= note_name_text(121));
            }
            "C#9"
        },
        122 => {
            proof {
                reveal_strlit("D9");
                assert("D9"@ =~= note_name_text(122));
            }
            "D9"
        },
        123 => {
            proof {
                reveal_strlit("D#9");
                assert("D#9"@ =~= note_name_text(123));
            }
            "D#9"
        },
        124 => {
            proof {
                reveal_strlit("E9");
                assert("E9"@ =~= note_name_text(124));
            }
            "E9"
        },
        125 => {
            proof {
                reveal_strlit("F9");
                assert("F9"@ =~= note_name_text(125));
            }
            "F9"
        },
        126 => {
            proof {
                reveal_strlit("F#9");
                assert("F#9"@ =~= note_name_text(126));
            }
            "F#9"
        },
        127 => {
            proof {
                reveal_strlit("G9");
                assert("G9"@ =~= note_name_text(127));
            }
            "G9"
        },
        _ => {
            proof {
                assert(false);
            }
            ""
        },
    }
}

/// A MIDI clip as handed to the audio engine: tick-stamped events and a length.
#[derive(Debug)]
pub struct MidiClip {
    events: Vec<MidiEvent>,
    duration_ticks: i64,
}

impl MidiClip {
    pub closed spec fn spec_events(&self) -> Seq<MidiEvent> {
        self.events@
    }

    pub closed spec fn spec_duration(&self) -> i64 {
        self.duration_ticks
    }

    pub fn new(events: Vec<MidiEvent>, duration_ticks: i64) -> (r: MidiClip)
        ensures
            r.spec_events() == events@,
            r.spec_duration() == duration_ticks,
    {
        MidiClip { events, duration_ticks }
    }

    pub fn events(&self) -> (r: &[MidiEvent])
        ensures
            r@ == self.spec_events(),
    {
        self.events.as_slice()
    }

    pub fn event_count(&self) -> (r: usize)
        ensures
            r == self.spec_events().len(),
    {
        self.events.len()
    }

    pub fn duration_ticks(&self) -> (r: i64)
        ensures
            r == self.spec_duration(),
    {
        self.duration_ticks
    }
}

} // verus!
