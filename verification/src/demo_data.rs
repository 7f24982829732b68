//! Demo data — deterministic tracks and clips for startup and testing.

use vstd::prelude::*;
use crate::ids::{ClipId, TrackId, demo_uuid};
use crate::midi::{Note, NoteId};
use crate::time::PPQN;
use crate::project::clips_view;
use crate::track::{ClipState, ClipView, TrackKind, TrackState, TrackView, new_track_view};

verus! {

/// The demo tracks: Melody (MIDI), Bass (MIDI), Drums (Audio), Pad (MIDI).
pub open spec fn demo_track_views() -> Seq<TrackView> {
    seq![
        new_track_view(TrackId(1), "Melody"@, TrackKind::Midi, [100, 160, 255]),
        new_track_view(TrackId(2), "Bass"@, TrackKind::Midi, [255, 140, 80]),
        new_track_view(TrackId(3), "Drums"@, TrackKind::Audio, [80, 220, 120]),
        new_track_view(TrackId(4), "Pad"@, TrackKind::Midi, [200, 100, 255]),
    ]
}

/// Demo tracks: Melody (MIDI), Bass (MIDI), Drums (Audio), Pad (MIDI).
pub fn demo_tracks() -> (r: Vec<TrackState>)
    ensures
        r@.map_values(|t: TrackState| t@) == demo_track_views(),
        r@.len() == 4,
        forall|k: int| 0 <= k < 4 ==> #[trigger] r@[k]@ == demo_track_views()[k],
{
    let r = vec![
        TrackState::new_midi(TrackId(demo_uuid(1)), "Melody", [100, 160, 255]),
        TrackState::new_midi(TrackId(demo_uuid(2)), "Bass", [255, 140, 80]),
        TrackState::new_audio(TrackId(demo_uuid(3)), "Drums", [80, 220, 120]),
        TrackState::new_midi(TrackId(demo_uuid(4)), "Pad", [200, 100, 255]),
    ];
    proof {
        assert(r@.map_values(|t: TrackState| t@) =~= demo_track_views());
    }
    r
}

/// IDs of all demo tracks (for engine initialisation).
pub fn demo_track_ids() -> (r: Vec<TrackId>)
    ensures
        r@ == seq![TrackId(1), TrackId(2), TrackId(3), TrackId(4)],
{
    let tracks = demo_tracks();
    let mut ids: Vec<TrackId> = Vec::new();
    let n = tracks.len();
    for i in 0..n
        invariant
            n == tracks@.len(),
            tracks@.map_values(|t: TrackState| t@) == demo_track_views(),
            ids@ == tracks@.take(i as int).map_values(|t: TrackState| t.id),
    {
        ids.push(tracks[i].id);
        proof {
            assert(tracks@.take(i as int + 1) == tracks@.take(i as int).push(tracks@[i as int]));
            assert(ids@ =~= tracks@.take(i as int + 1).map_values(|t: TrackState| t.id));
        }
    }
    proof {
        assert(tracks@.take(n as int) == tracks@);
        assert forall|k: int| 0 <= k < 4 implies #[trigger] tracks@[k].id == demo_track_views()[k].id by {
            assert(tracks@[k]@ == demo_track_views()[k]);
        }
        assert(ids@ =~= seq![TrackId(1), TrackId(2), TrackId(3), TrackId(4)]);
    }
    ids
}

fn note(id: u64, pitch: u8, start_tick: i64, duration_ticks: i64, velocity: u8) -> (r: Note)
    ensures
        r == (Note { id: NoteId(id), pitch, start_tick, duration_ticks, velocity, channel: 0 }),
{
    Note { id: NoteId(id), pitch, start_tick, duration_ticks, velocity, channel: 0 }
}

fn midi_clip(id: u64, track: u64, start_tick: i64, duration_ticks: i64, name: &str, notes: Vec<Note>) -> (r: ClipState)
    ensures
        r.id == ClipId(id as u128),
        r.track_id == TrackId(track as u128),
        r.start_tick == start_tick,
        r.duration_ticks == duration_ticks,
        r.name@ == name@,
        r.notes@ == notes@,
        r.audio_file is None,
        r.audio_length_samples is None,
        r.audio_sample_rate is None,
{
    ClipState {
        id: ClipId(demo_uuid(id)),
        track_id: TrackId(demo_uuid(track)),
        start_tick,
        duration_ticks,
        name: name.to_owned(),
        notes,
        audio_file: None,
        audio_length_samples: None,
        audio_sample_rate: None,
    }
}

/// A demo note on channel 0.
pub open spec fn demo_note(id: u64, pitch: u8, start_tick: i64, duration_ticks: i64, velocity: u8) -> Note {
    Note { id: NoteId(id), pitch, start_tick, duration_ticks, velocity, channel: 0 }
}

/// A demo clip: clip `n` sits on track `n` and holds no audio.
pub open spec fn demo_clip_view(n: u128, start_tick: i64, duration_ticks: i64, name: Seq<char>, notes: Seq<Note>) -> ClipView {
    ClipView {
        id: ClipId(n),
        track_id: TrackId(n),
        start_tick,
        duration_ticks,
        name,
        notes,
        audio_file: None,
        audio_length_samples: None,
        audio_sample_rate: None,
    }
}

/// The demo clips: "Melody A" (four notes over two bars), "Bass Line" (two
/// notes), "Drum Loop" (four bars, no notes) and "Pad Chords" (a chord from
/// bar 2), in that order.
pub open spec fn demo_clip_views() -> Seq<ClipView> {
    seq![
        demo_clip_view(1, 0, 7680, "Melody A"@, seq![
            demo_note(100, 60, 0, 480, 100),
            demo_note(101, 64, 480, 480, 90),
            demo_note(102, 67, 960, 960, 110),
            demo_note(103, 72, 1920, 1920, 80),
        ]),
        demo_clip_view(2, 0, 7680, "Bass Line"@, seq![
            demo_note(200, 36, 0, 1920, 120),
            demo_note(201, 40, 1920, 1920, 110),
        ]),
        demo_clip_view(3, 0, 15360, "Drum Loop"@, Seq::empty()),
        demo_clip_view(4, 3840, 11520, "Pad Chords"@, seq![
            demo_note(300, 60, 3840, 3840, 70),
            demo_note(301, 64, 3840, 3840, 70),
            demo_note(302, 67, 3840, 3840, 70),
        ]),
    ]
}

/// Demo clips: one per demo track, the MIDI ones with a few notes.
pub fn demo_clips() -> (r: Vec<ClipState>)
    ensures
        r@.len() == 4,
        clips_view(r@) == demo_clip_views(),
{
    let c1 = midi_clip(1, 1, 0, PPQN * 8, "Melody A", vec![
        note(100, 60, 0, PPQN / 2, 100),
        note(101, 64, PPQN / 2, PPQN / 2, 90),
        note(102, 67, PPQN, PPQN, 110),
        note(103, 72, PPQN * 2, PPQN * 2, 80),
    ]);
    let c2 = midi_clip(2, 2, 0, PPQN * 8, "Bass Line", vec![
        note(200, 36, 0, PPQN * 2, 120),
        note(201, 40, PPQN * 2, PPQN * 2, 110),
    ]);
    let c3 = midi_clip(3, 3, 0, PPQN * 16, "Drum Loop", Vec::new());
    let c4 = midi_clip(4, 4, PPQN * 4, PPQN * 12, "Pad Chords", vec![
        note(300, 60, PPQN * 4, PPQN * 4, 70),
        note(301, 64, PPQN * 4, PPQN * 4, 70),
        note(302, 67, PPQN * 4, PPQN * 4, 70),
    ]);
    let r = vec![c1, c2, c3, c4];
    proof {
        assert(clips_view(r@) =~= demo_clip_views());
    }
    r
}

} // verus!
