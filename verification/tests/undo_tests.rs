use ma_ui::demo_data::{demo_clips, demo_tracks};
use ma_ui::ids::{ClipId, TrackId};
use ma_ui::midi::{Note, NoteId};
use ma_ui::project::Project;
use ma_ui::time::{QuantizeGrid, PPQN};
use ma_ui::track::{ClipState, TrackState};
use ma_ui::undo::{UndoManager, UndoRecord};
use ma_ui::undo_actions::{
    AddClipAction, AddNoteAction, AddTrackAction, DuplicateClipAction, MoveClipAction, MoveNoteAction,
    QuantizeNotesAction, RemoveClipAction, RemoveNoteAction, RemoveNotesAction, RemoveTrackAction,
    RenameTrackAction, ResizeNoteAction, SetNoteVelocityAction, SetTrackVolumeAction, SplitClipAction,
    TransposeNotesAction,
};
use ma_ui::commands::EngineCommand;

fn new_state() -> Project {
    Project { tracks: demo_tracks(), clips: demo_clips() }
}

fn clip_id(n: u64) -> ClipId {
    ClipId(n as u128)
}

fn track_id(n: u64) -> TrackId {
    TrackId(n as u128)
}

fn make_note(id: u64, pitch: u8, start: i64, dur: i64) -> Note {
    Note { id: NoteId(id), pitch, start_tick: start, duration_ticks: dur, velocity: 100, channel: 0 }
}

fn find<'a>(state: &'a Project, cid: ClipId, nid: NoteId) -> &'a Note {
    state.clip(cid).unwrap().notes.iter().find(|n| n.id == nid).unwrap()
}

#[test]
fn move_clip_apply_and_revert() {
    let mut state = new_state();
    let cid = clip_id(1);
    let original_start = state.clip(cid).unwrap().start_tick;
    let action = MoveClipAction { clip_id: cid, old_start_tick: original_start, new_start_tick: PPQN * 16 };
    action.apply(&mut state);
    assert_eq!(state.clip(cid).unwrap().start_tick, PPQN * 16);
    action.revert(&mut state);
    assert_eq!(state.clip(cid).unwrap().start_tick, original_start);
}

#[test]
fn add_clip_apply_and_revert() {
    let mut state = new_state();
    let initial_count = state.clips.len();
    let new_clip = ClipState {
        id: clip_id(99),
        track_id: track_id(1),
        start_tick: 0,
        duration_ticks: PPQN * 4,
        name: "Test Clip".into(),
        notes: Vec::new(),
        audio_file: None,
        audio_length_samples: None,
        audio_sample_rate: None,
    };
    let action = AddClipAction { clip: new_clip.clone() };
    action.apply(&mut state);
    assert_eq!(state.clips.len(), initial_count + 1);
    assert!(state.clip(clip_id(99)).is_some());
    action.revert(&mut state);
    assert_eq!(state.clips.len(), initial_count);
    assert!(state.clip(clip_id(99)).is_none());
}

#[test]
fn remove_clip_apply_and_revert() {
    let mut state = new_state();
    let cid = clip_id(1);
    let clip = state.clip(cid).unwrap().clone();
    let initial_count = state.clips.len();
    let action = RemoveClipAction { clip };
    action.apply(&mut state);
    assert_eq!(state.clips.len(), initial_count - 1);
    assert!(state.clip(cid).is_none());
    action.revert(&mut state);
    assert_eq!(state.clips.len(), initial_count);
    assert!(state.clip(cid).is_some());
}

#[test]
fn split_clip_apply_and_revert() {
    let mut state = new_state();
    let original = state.clip(clip_id(1)).unwrap().clone();
    let initial_count = state.clips.len();
    let mut left = original.clone();
    left.id = clip_id(50);
    left.duration_ticks = PPQN * 4;
    left.name = "Left".into();
    let mut right = original.clone();
    right.id = clip_id(51);
    right.start_tick = PPQN * 4;
    right.duration_ticks = PPQN * 4;
    right.name = "Right".into();
    let action = SplitClipAction { original_clip: original, left_clip: left, right_clip: right };
    action.apply(&mut state);
    assert!(state.clip(clip_id(1)).is_none());
    assert!(state.clip(clip_id(50)).is_some());
    assert!(state.clip(clip_id(51)).is_some());
    assert_eq!(state.clips.len(), initial_count + 1);
    action.revert(&mut state);
    assert!(state.clip(clip_id(1)).is_some());
    assert!(state.clip(clip_id(50)).is_none());
    assert!(state.clip(clip_id(51)).is_none());
    assert_eq!(state.clips.len(), initial_count);
}

#[test]
fn duplicate_clip_apply_and_revert() {
    let mut state = new_state();
    let source = state.clip(clip_id(1)).unwrap().clone();
    let mut new_clip = source.clone();
    new_clip.id = clip_id(60);
    new_clip.start_tick = source.end_tick();
    let initial_count = state.clips.len();
    let action = DuplicateClipAction { new_clip: new_clip.clone() };
    action.apply(&mut state);
    assert_eq!(state.clips.len(), initial_count + 1);
    assert!(state.clip(clip_id(60)).is_some());
    action.revert(&mut state);
    assert_eq!(state.clips.len(), initial_count);
    assert!(state.clip(clip_id(60)).is_none());
}

#[test]
fn add_note_apply_and_revert() {
    let mut state = new_state();
    let cid = clip_id(1);
    let initial_note_count = state.clip(cid).unwrap().notes.len();
    let note = make_note(999, 72, PPQN * 4, PPQN);
    let action = AddNoteAction { clip_id: cid, note };
    action.apply(&mut state);
    assert_eq!(state.clip(cid).unwrap().notes.len(), initial_note_count + 1);
    action.revert(&mut state);
    assert_eq!(state.clip(cid).unwrap().notes.len(), initial_note_count);
}

#[test]
fn remove_note_apply_and_revert() {
    let mut state = new_state();
    let cid = clip_id(1);
    let note = *state.clip(cid).unwrap().notes.first().unwrap();
    let initial_note_count = state.clip(cid).unwrap().notes.len();
    let action = RemoveNoteAction { clip_id: cid, note };
    action.apply(&mut state);
    assert_eq!(state.clip(cid).unwrap().notes.len(), initial_note_count - 1);
    action.revert(&mut state);
    assert_eq!(state.clip(cid).unwrap().notes.len(), initial_note_count);
}

#[test]
fn move_note_apply_and_revert() {
    let mut state = new_state();
    let cid = clip_id(1);
    let note = *state.clip(cid).unwrap().notes.first().unwrap();
    let action = MoveNoteAction {
        clip_id: cid,
        note_id: note.id,
        old_start: note.start_tick,
        old_pitch: note.pitch,
        new_start: PPQN * 8,
        new_pitch: 80,
    };
    action.apply(&mut state);
    let moved = find(&state, cid, note.id);
    assert_eq!(moved.start_tick, PPQN * 8);
    assert_eq!(moved.pitch, 80);
    action.revert(&mut state);
    let restored = find(&state, cid, note.id);
    assert_eq!(restored.start_tick, note.start_tick);
    assert_eq!(restored.pitch, note.pitch);
}

#[test]
fn resize_note_apply_and_revert() {
    let mut state = new_state();
    let cid = clip_id(1);
    let note = *state.clip(cid).unwrap().notes.first().unwrap();
    let action = ResizeNoteAction {
        clip_id: cid,
        note_id: note.id,
        old_duration: note.duration_ticks,
        new_duration: PPQN * 4,
    };
    action.apply(&mut state);
    assert_eq!(find(&state, cid, note.id).duration_ticks, PPQN * 4);
    action.revert(&mut state);
    assert_eq!(find(&state, cid, note.id).duration_ticks, note.duration_ticks);
}

#[test]
fn set_track_volume_apply_and_revert() {
    let mut state = new_state();
    let tid = track_id(1);
    let original_vol = f32::from_bits(state.track(tid).unwrap().volume_bits);
    let action = SetTrackVolumeAction {
        track_id: tid,
        old_volume_bits: original_vol.to_bits(),
        new_volume_bits: 0.3f32.to_bits(),
    };
    action.apply(&mut state);
    assert!((f32::from_bits(state.track(tid).unwrap().volume_bits) - 0.3).abs() < f32::EPSILON);
    action.revert(&mut state);
    assert!((f32::from_bits(state.track(tid).unwrap().volume_bits) - original_vol).abs() < f32::EPSILON);
}

#[test]
fn add_track_apply_and_revert() {
    let mut state = new_state();
    let initial_count = state.tracks.len();
    let new_track = TrackState::new_midi(track_id(77), "New Track", [0, 255, 0]);
    let action = AddTrackAction { track: new_track.clone() };
    action.apply(&mut state);
    assert_eq!(state.tracks.len(), initial_count + 1);
    assert!(state.track(track_id(77)).is_some());
    action.revert(&mut state);
    assert_eq!(state.tracks.len(), initial_count);
    assert!(state.track(track_id(77)).is_none());
}

#[test]
fn remove_track_restores_clips() {
    let mut state = new_state();
    let tid = track_id(1);
    let track = state.track(tid).unwrap().clone();
    let track_clips: Vec<ClipState> = state.clips.iter().filter(|c| c.track_id == tid).cloned().collect();
    let track_idx = state.tracks.iter().position(|t| t.id == tid).unwrap();
    let initial_tracks = state.tracks.len();
    let initial_clips = state.clips.len();
    let track_clip_count = track_clips.len();
    let action = RemoveTrackAction { track, clips: track_clips, track_index: track_idx };
    action.apply(&mut state);
    assert_eq!(state.tracks.len(), initial_tracks - 1);
    assert!(state.track(tid).is_none());
    assert_eq!(state.clips.len(), initial_clips - track_clip_count);
    action.revert(&mut state);
    assert_eq!(state.tracks.len(), initial_tracks);
    assert!(state.track(tid).is_some());
    assert_eq!(state.clips.len(), initial_clips);
}

#[test]
fn rename_track_apply_and_revert() {
    let mut state = new_state();
    let tid = track_id(1);
    let old_name = state.track(tid).unwrap().name.clone();
    let action = RenameTrackAction { track_id: tid, old_name: old_name.clone(), new_name: "Renamed".into() };
    action.apply(&mut state);
    assert_eq!(state.track(tid).unwrap().name, "Renamed");
    action.revert(&mut state);
    assert_eq!(state.track(tid).unwrap().name, old_name);
}

#[test]
fn transpose_notes_apply_and_revert() {
    let mut state = new_state();
    let cid = clip_id(1);
    let original_pitches: Vec<(NoteId, u8)> =
        state.clip(cid).unwrap().notes.iter().map(|n| (n.id, n.pitch)).collect();
    let action = TransposeNotesAction { clip_id: cid, original_pitches: original_pitches.clone(), semitones: 5 };
    action.apply(&mut state);
    for (nid, orig_pitch) in &original_pitches {
        assert_eq!(find(&state, cid, *nid).pitch, orig_pitch + 5);
    }
    action.revert(&mut state);
    for (nid, orig_pitch) in &original_pitches {
        assert_eq!(find(&state, cid, *nid).pitch, *orig_pitch);
    }
}

#[test]
fn transpose_notes_clamp_boundary_is_invertible() {
    let mut state = new_state();
    let cid = clip_id(1);
    let clip = state.clip(cid).unwrap().clone();
    let note_id = clip.notes[0].id;
    let mut modified = clip.clone();
    modified.notes[0].pitch = 125;
    state.update_clip(modified);
    let original_pitches = vec![(note_id, 125u8)];
    let action = TransposeNotesAction { clip_id: cid, original_pitches, semitones: 5 };
    action.apply(&mut state);
    assert_eq!(find(&state, cid, note_id).pitch, 127);
    action.revert(&mut state);
    assert_eq!(find(&state, cid, note_id).pitch, 125);
}

#[test]
fn quantize_notes_apply_and_revert() {
    let mut state = new_state();
    let cid = clip_id(1);
    let clip = state.clip(cid).unwrap().clone();
    let mut modified = clip.clone();
    modified.notes[0].start_tick = 100;
    modified.notes[1].start_tick = 550;
    state.update_clip(modified);
    let original_starts: Vec<(NoteId, i64)> =
        state.clip(cid).unwrap().notes.iter().map(|n| (n.id, n.start_tick)).collect();
    let action = QuantizeNotesAction {
        clip_id: cid,
        original_starts: original_starts.clone(),
        quantize_grid: QuantizeGrid::Quarter,
    };
    action.apply(&mut state);
    assert_eq!(find(&state, cid, original_starts[0].0).start_tick, QuantizeGrid::Quarter.snap(100));
    action.revert(&mut state);
    for (nid, orig_start) in &original_starts {
        assert_eq!(find(&state, cid, *nid).start_tick, *orig_start);
    }
}

#[test]
fn full_undo_redo_cycle_with_manager() {
    let mut state = new_state();
    let mut mgr = UndoManager::new(100);
    let cid = clip_id(1);
    let original_start = state.clip(cid).unwrap().start_tick;
    let action = MoveClipAction { clip_id: cid, old_start_tick: original_start, new_start_tick: PPQN * 32 };
    action.apply(&mut state);
    mgr.push(UndoRecord::MoveClip(action));
    assert_eq!(state.clip(cid).unwrap().start_tick, PPQN * 32);
    mgr.undo(&mut state);
    assert_eq!(state.clip(cid).unwrap().start_tick, original_start);
    mgr.redo(&mut state);
    assert_eq!(state.clip(cid).unwrap().start_tick, PPQN * 32);
}

fn empty_clip(id: u64) -> ClipState {
    ClipState {
        id: clip_id(id),
        track_id: track_id(1),
        start_tick: 0,
        duration_ticks: 100,
        name: String::new(),
        notes: Vec::new(),
        audio_file: None,
        audio_length_samples: None,
        audio_sample_rate: None,
    }
}

#[test]
fn descriptions_are_non_empty() {
    let actions: Vec<UndoRecord> = vec![
        UndoRecord::MoveClip(MoveClipAction { clip_id: clip_id(1), old_start_tick: 0, new_start_tick: 100 }),
        UndoRecord::AddClip(AddClipAction { clip: empty_clip(99) }),
        UndoRecord::RemoveClip(RemoveClipAction { clip: empty_clip(99) }),
        UndoRecord::AddNote(AddNoteAction { clip_id: clip_id(1), note: make_note(1, 60, 0, 100) }),
        UndoRecord::RemoveNote(RemoveNoteAction { clip_id: clip_id(1), note: make_note(1, 60, 0, 100) }),
        UndoRecord::MoveNote(MoveNoteAction {
            clip_id: clip_id(1),
            note_id: NoteId(1),
            old_start: 0,
            old_pitch: 60,
            new_start: 100,
            new_pitch: 72,
        }),
        UndoRecord::ResizeNote(ResizeNoteAction { clip_id: clip_id(1), note_id: NoteId(1), old_duration: 100, new_duration: 200 }),
        UndoRecord::SetTrackVolume(SetTrackVolumeAction {
            track_id: track_id(1),
            old_volume_bits: 0.8f32.to_bits(),
            new_volume_bits: 0.5f32.to_bits(),
        }),
        UndoRecord::AddTrack(AddTrackAction { track: TrackState::new_midi(track_id(88), "T", [0, 0, 0]) }),
        UndoRecord::RemoveTrack(RemoveTrackAction {
            track: TrackState::new_midi(track_id(88), "T", [0, 0, 0]),
            clips: Vec::new(),
            track_index: 0,
        }),
        UndoRecord::RenameTrack(RenameTrackAction { track_id: track_id(1), old_name: "A".into(), new_name: "B".into() }),
        UndoRecord::TransposeNotes(TransposeNotesAction {
            clip_id: clip_id(1),
            original_pitches: vec![(NoteId(100), 60)],
            semitones: 3,
        }),
        UndoRecord::QuantizeNotes(QuantizeNotesAction {
            clip_id: clip_id(1),
            original_starts: vec![(NoteId(100), 0)],
            quantize_grid: QuantizeGrid::Quarter,
        }),
    ];
    for action in &actions {
        assert!(!action.description().is_empty(), "Action description should not be empty");
    }
}

#[test]
fn note_actions_report_engine_commands() {
    let mut state = new_state();
    let cid = clip_id(1);
    let note = make_note(999, 72, PPQN * 4, PPQN);
    let action = AddNoteAction { clip_id: cid, note };
    assert_eq!(action.apply(&mut state), vec![EngineCommand::AddNote { clip_id: cid, note }]);
    assert_eq!(action.revert(&mut state), vec![EngineCommand::RemoveNote { clip_id: cid, note_id: note.id }]);
    let missing = AddNoteAction { clip_id: clip_id(42), note };
    assert!(missing.apply(&mut state).is_empty());
}

#[test]
fn added_note_lands_in_start_order() {
    let mut state = new_state();
    let cid = clip_id(1);
    AddNoteAction { clip_id: cid, note: make_note(500, 70, 700, 10) }.apply(&mut state);
    let starts: Vec<i64> = state.clip(cid).unwrap().notes.iter().map(|n| n.start_tick).collect();
    assert_eq!(starts, vec![0, 480, 700, 960, 1920]);
}

#[test]
fn set_note_velocity_apply_and_revert() {
    let mut state = new_state();
    let cid = clip_id(1);
    let action = SetNoteVelocityAction { clip_id: cid, note_id: NoteId(101), old_velocity: 90, new_velocity: 12 };
    action.apply(&mut state);
    assert_eq!(find(&state, cid, NoteId(101)).velocity, 12);
    action.revert(&mut state);
    assert_eq!(find(&state, cid, NoteId(101)).velocity, 90);
}

#[test]
fn remove_notes_apply_and_revert() {
    let mut state = new_state();
    let cid = clip_id(1);
    let notes = vec![make_note(100, 60, 0, 480), make_note(102, 67, 960, 960)];
    let notes = vec![Note { velocity: 100, ..notes[0] }, Note { velocity: 110, ..notes[1] }];
    let action = RemoveNotesAction { clip_id: cid, notes };
    action.apply(&mut state);
    let ids: Vec<u64> = state.clip(cid).unwrap().notes.iter().map(|n| n.id.0).collect();
    assert_eq!(ids, vec![101, 103]);
    action.revert(&mut state);
    let ids: Vec<u64> = state.clip(cid).unwrap().notes.iter().map(|n| n.id.0).collect();
    assert_eq!(ids, vec![100, 101, 102, 103]);
}

#[test]
fn undo_manager_drops_oldest_beyond_depth() {
    let mut state = new_state();
    let mut mgr = UndoManager::new(2);
    let cid = clip_id(1);
    for k in 1..=3 {
        let a = MoveClipAction { clip_id: cid, old_start_tick: (k - 1) * 10, new_start_tick: k * 10 };
        a.apply(&mut state);
        mgr.push(UndoRecord::MoveClip(a));
    }
    mgr.undo(&mut state);
    mgr.undo(&mut state);
    assert!(!mgr.can_undo());
    assert_eq!(state.clip(cid).unwrap().start_tick, 10);
    assert!(mgr.can_redo());
    mgr.redo(&mut state);
    assert_eq!(state.clip(cid).unwrap().start_tick, 20);
}

#[test]
fn push_clears_redo_history() {
    let mut state = new_state();
    let mut mgr = UndoManager::new(10);
    let cid = clip_id(1);
    let a = MoveClipAction { clip_id: cid, old_start_tick: 0, new_start_tick: 5 };
    a.apply(&mut state);
    mgr.push(UndoRecord::MoveClip(a));
    mgr.undo(&mut state);
    assert!(mgr.can_redo());
    mgr.push(UndoRecord::MoveClip(MoveClipAction { clip_id: cid, old_start_tick: 0, new_start_tick: 7 }));
    assert!(!mgr.can_redo());
}
