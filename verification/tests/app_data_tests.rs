use ma_ui::app_control::BrowserActivation;
use ma_ui::app_data::AppData;
use ma_ui::browser::BrowserEntry;
use ma_ui::commands::EngineCommand;
use ma_ui::editor_state::{ActiveView, ClipResizeEdge, Effect, PianoRollTool};
use ma_ui::engine_clip::{audio_channel_count, midi_clip_for};
use ma_ui::ids::{ClipId, TrackId};
use ma_ui::interaction::resize_drag_bounds;
use ma_ui::midi::{MidiMessage, Note, NoteId};
use ma_ui::selection::ClipSelection;
use ma_ui::snap::SnapGrid;
use ma_ui::time::{QuantizeGrid, PPQN};
use ma_ui::track::TrackKind;

fn note(pitch: u8, start: i64, dur: i64) -> Note {
    Note { id: NoteId(0), pitch, start_tick: start, duration_ticks: dur, velocity: 100, channel: 0 }
}

fn with_open_clip(n: u128) -> AppData {
    let mut app = AppData::new();
    app.open_piano_roll(ClipId(n));
    app
}

fn note_ids(app: &AppData, clip: u128) -> Vec<u64> {
    app.clip(ClipId(clip)).unwrap().notes.iter().map(|n| n.id.0).collect()
}

#[test]
fn new_app_has_demo_project() {
    let app = AppData::new();
    assert_eq!(app.project.tracks.len(), 4);
    assert_eq!(app.project.clips.len(), 4);
    assert_eq!(app.piano_roll.next_note_id, 1000);
    assert_eq!(app.active_view, ActiveView::Arrangement);
    assert!(!app.can_undo() && !app.can_redo());
    assert_eq!(app.clips_for_track(TrackId(2)).len(), 1);
}

#[test]
fn add_note_without_open_clip_does_nothing() {
    let mut app = AppData::new();
    assert!(app.add_note(note(60, 0, 10)).is_empty());
    assert_eq!(app.piano_roll.next_note_id, 1000);
    assert!(!app.can_undo());
}

#[test]
fn add_note_gets_fresh_id_and_can_be_undone() {
    let mut app = with_open_clip(2);
    let fx = app.add_note(note(50, 960, 100));
    let added = Note { id: NoteId(1000), ..note(50, 960, 100) };
    assert_eq!(fx, vec![Effect::Send(EngineCommand::AddNote { clip_id: ClipId(2), note: added })]);
    assert_eq!(note_ids(&app, 2), vec![200, 1000, 201]);
    assert_eq!(app.piano_roll.next_note_id, 1001);
    let undo_fx = app.undo();
    assert_eq!(undo_fx, vec![Effect::Send(EngineCommand::RemoveNote { clip_id: ClipId(2), note_id: NoteId(1000) })]);
    assert_eq!(note_ids(&app, 2), vec![200, 201]);
    assert!(app.redo_fits());
    app.redo();
    assert_eq!(note_ids(&app, 2), vec![200, 1000, 201]);
}

#[test]
fn add_note_to_missing_clip_still_uses_an_id() {
    let mut app = with_open_clip(77);
    assert!(app.add_note(note(50, 0, 10)).is_empty());
    assert_eq!(app.piano_roll.next_note_id, 1001);
    assert!(!app.can_undo());
}

#[test]
fn remove_move_resize_note_record_undo() {
    let mut app = with_open_clip(1);
    app.move_note(NoteId(101), 1200, 70);
    let n = *app.clip(ClipId(1)).unwrap().notes.iter().find(|n| n.id == NoteId(101)).unwrap();
    assert_eq!((n.start_tick, n.pitch), (1200, 70));
    app.resize_note(NoteId(101), 33);
    assert_eq!(app.clip(ClipId(1)).unwrap().notes.iter().find(|n| n.id == NoteId(101)).unwrap().duration_ticks, 33);
    let fx = app.remove_note(NoteId(101));
    assert_eq!(fx, vec![Effect::Send(EngineCommand::RemoveNote { clip_id: ClipId(1), note_id: NoteId(101) })]);
    assert_eq!(note_ids(&app, 1), vec![100, 102, 103]);
    app.undo();
    app.undo();
    app.undo();
    let n = *app.clip(ClipId(1)).unwrap().notes.iter().find(|n| n.id == NoteId(101)).unwrap();
    assert_eq!((n.start_tick, n.pitch, n.duration_ticks), (480, 64, 480));
    assert!(app.remove_note(NoteId(4242)).is_empty());
}

#[test]
fn preview_and_quantize_need_an_open_clip() {
    let mut app = AppData::new();
    assert!(app.preview_note_on(60, 90).is_empty());
    app.set_quantize(QuantizeGrid::Quarter);
    assert_eq!(app.piano_roll.quantize, QuantizeGrid::Sixteenth);
    app.open_piano_roll(ClipId(1));
    assert_eq!(app.preview_note_on(60, 90), vec![Effect::Send(EngineCommand::NoteOn { channel: 0, note: 60, velocity: 90 })]);
    assert_eq!(app.preview_note_off(60), vec![Effect::Send(EngineCommand::NoteOff { channel: 0, note: 60, velocity: 0 })]);
    app.set_quantize(QuantizeGrid::Quarter);
    assert_eq!(app.piano_roll.quantize, QuantizeGrid::Quarter);
    app.set_piano_roll_tool(PianoRollTool::Erase);
    assert_eq!(app.piano_roll.tool, PianoRollTool::Erase);
}

#[test]
fn transpose_selected_notes_and_undo() {
    let mut app = with_open_clip(1);
    assert!(app.transpose_selected(3).is_empty());
    app.piano_roll.selected_notes = vec![NoteId(100), NoteId(103), NoteId(999)];
    let fx = app.transpose_selected(3);
    assert_eq!(fx.len(), 2);
    let pitches: Vec<u8> = app.clip(ClipId(1)).unwrap().notes.iter().map(|n| n.pitch).collect();
    assert_eq!(pitches, vec![63, 64, 67, 75]);
    app.undo();
    let pitches: Vec<u8> = app.clip(ClipId(1)).unwrap().notes.iter().map(|n| n.pitch).collect();
    assert_eq!(pitches, vec![60, 64, 67, 72]);
}

#[test]
fn quantize_selected_notes() {
    let mut app = with_open_clip(1);
    app.move_note(NoteId(101), 500, 64);
    app.piano_roll.quantize = QuantizeGrid::Quarter;
    app.piano_roll.selected_notes = vec![NoteId(101)];
    app.quantize_selected();
    assert_eq!(app.clip(ClipId(1)).unwrap().notes.iter().find(|n| n.id == NoteId(101)).unwrap().start_tick, 960);
    app.piano_roll.quantize = QuantizeGrid::Off;
    assert!(app.quantize_selected().is_empty());
}

#[test]
fn delete_selected_notes_clears_selection() {
    let mut app = with_open_clip(1);
    app.select_all_notes();
    assert_eq!(app.piano_roll.selected_notes, vec![NoteId(100), NoteId(101), NoteId(102), NoteId(103)]);
    app.piano_roll.selected_notes = vec![NoteId(101), NoteId(102)];
    let fx = app.delete_selected_notes();
    assert_eq!(fx.len(), 2);
    assert!(app.piano_roll.selected_notes.is_empty());
    assert_eq!(note_ids(&app, 1), vec![100, 103]);
    app.undo();
    assert_eq!(note_ids(&app, 1), vec![100, 101, 102, 103]);
}

#[test]
fn velocity_drag_sets_then_records() {
    let mut app = with_open_clip(1);
    app.set_note_velocity(NoteId(102), 5);
    assert_eq!(app.clip(ClipId(1)).unwrap().notes[2].velocity, 5);
    assert!(!app.can_undo());
    app.finish_velocity_drag(NoteId(102), 110, 5);
    assert!(app.can_undo());
    app.undo();
    assert_eq!(app.clip(ClipId(1)).unwrap().notes[2].velocity, 110);
    app.finish_velocity_drag(NoteId(102), 7, 7);
    assert!(!app.can_undo());
}

#[test]
fn mixer_flags_toggle_and_report() {
    let mut app = AppData::new();
    assert_eq!(app.toggle_mute(TrackId(2)), vec![Effect::Send(EngineCommand::SetTrackMute { track_id: TrackId(2), mute: true })]);
    assert_eq!(app.toggle_mute(TrackId(2)), vec![Effect::Send(EngineCommand::SetTrackMute { track_id: TrackId(2), mute: false })]);
    assert_eq!(app.toggle_solo(TrackId(3)), vec![Effect::Send(EngineCommand::SetTrackSolo { track_id: TrackId(3), solo: true })]);
    assert_eq!(app.toggle_record_arm(TrackId(1)), vec![Effect::Send(EngineCommand::ArmTrack { track_id: TrackId(1), armed: true })]);
    assert!(app.toggle_mute(TrackId(99)).is_empty());
    let pan = (-0.5f32).to_bits();
    assert_eq!(app.set_track_pan(TrackId(1), pan), vec![Effect::Send(EngineCommand::SetTrackPan { track_id: TrackId(1), pan_bits: pan })]);
    assert_eq!(app.track(TrackId(1)).unwrap().pan_bits, pan);
}

#[test]
fn set_track_volume_is_undoable_and_always_sent() {
    let mut app = AppData::new();
    let original = app.track(TrackId(1)).unwrap().volume_bits;
    let fx = app.set_track_volume(TrackId(1), 0.25f32.to_bits());
    assert_eq!(fx, vec![Effect::Send(EngineCommand::SetTrackVolume { track_id: TrackId(1), volume_bits: 0.25f32.to_bits() })]);
    app.undo();
    assert_eq!(app.track(TrackId(1)).unwrap().volume_bits, original);
    assert_eq!(app.set_track_volume(TrackId(9), 1).len(), 1);
    assert!(!app.can_undo());
}

#[test]
fn transport_toggles() {
    let mut app = AppData::new();
    assert_eq!(app.toggle_play_pause(), vec![Effect::Send(EngineCommand::Play)]);
    app.transport_update(480, true, false);
    assert_eq!(app.toggle_play_pause(), vec![Effect::Send(EngineCommand::Pause)]);
    app.toggle_loop();
    assert!(app.transport.loop_enabled);
    app.set_loop_region(100, 200);
    assert_eq!((app.transport.loop_start, app.transport.loop_end, app.transport.loop_enabled), (100, 200, true));
    app.toggle_metronome();
    assert!(app.transport.metronome_enabled);
    app.toggle_follow_playhead();
    assert!(!app.transport.follow_playhead);
    assert_eq!(app.set_position(5), vec![Effect::Send(EngineCommand::SetPosition(5))]);
    assert_eq!(app.stop(), vec![Effect::Send(EngineCommand::Stop)]);
}

#[test]
fn recording_starts_on_armed_tracks_and_stops() {
    let mut app = AppData::new();
    assert!(app.start_recording().is_empty());
    app.toggle_record_arm(TrackId(3));
    app.toggle_record_arm(TrackId(1));
    app.transport_update(960, true, false);
    let fx = app.start_recording();
    assert_eq!(fx, vec![
        Effect::Send(EngineCommand::Record),
        Effect::StartDiskRecording { track_id: TrackId(1) },
        Effect::StartDiskRecording { track_id: TrackId(3) },
    ]);
    assert_eq!(app.transport.record_start_position, Some(960));
    app.transport_update(1920, true, true);
    let id = app.add_recorded_clip(TrackId(3), "take", "/rec/take.wav", 44100, 48000, 0);
    let c = app.clip(id).unwrap();
    assert_eq!((c.start_tick, c.duration_ticks, c.track_id), (960, 1, TrackId(3)));
    assert_eq!(app.transport.recording_tracks, vec![TrackId(1)]);
    let fx = app.stop();
    assert_eq!(fx, vec![
        Effect::StopDiskRecording { track_id: TrackId(1) },
        Effect::Send(EngineCommand::StopRecord),
        Effect::Send(EngineCommand::Stop),
    ]);
    assert!(app.transport.recording_tracks.is_empty());
}

#[test]
fn move_clips_clamps_start_and_track() {
    let mut app = AppData::new();
    app.select_clips(ClipSelection::from_ids(&vec![ClipId(1), ClipId(4)]));
    let fx = app.move_clips(-5000, 2);
    assert_eq!(fx.len(), 4);
    let c1 = app.clip(ClipId(1)).unwrap();
    assert_eq!((c1.start_tick, c1.track_id), (0, TrackId(3)));
    let c4 = app.clip(ClipId(4)).unwrap();
    assert_eq!((c4.start_tick, c4.track_id), (0, TrackId(4)));
    assert_eq!(app.clip(ClipId(2)).unwrap().start_tick, 0);
    app.move_clips(100, -9);
    assert_eq!(app.clip(ClipId(4)).unwrap().track_id, TrackId(1));
    assert_eq!(app.clip(ClipId(4)).unwrap().start_tick, 100);
}

#[test]
fn resize_clip_trims_midi_notes() {
    let mut app = AppData::new();
    let fx = app.resize_clip(ClipId(1), 0, 700);
    assert_eq!(fx, vec![
        Effect::RemoveClipFromEngine { clip_id: ClipId(1), track_id: TrackId(1), is_audio: false },
        Effect::InstallClipInEngine { clip_id: ClipId(1) },
    ]);
    let c = app.clip(ClipId(1)).unwrap();
    assert_eq!(c.duration_ticks, 700);
    let notes: Vec<(u64, i64, i64)> = c.notes.iter().map(|n| (n.id.0, n.start_tick, n.duration_ticks)).collect();
    assert_eq!(notes, vec![(100, 0, 480), (101, 480, 220)]);
    assert!(app.resize_clip(ClipId(50), 0, 1).is_empty());
}

#[test]
fn split_at_playhead_makes_left_and_right() {
    let mut app = AppData::new();
    app.select_clips(ClipSelection::from_ids(&vec![ClipId(1), ClipId(4)]));
    app.transport_update(1200, false, false);
    let fx = app.split_clips_at_playhead();
    assert_eq!(app.project.clips.len(), 5);
    let left = app.clip(ClipId(1)).unwrap();
    assert_eq!(left.duration_ticks, 1200);
    let l: Vec<(u64, i64, i64)> = left.notes.iter().map(|n| (n.id.0, n.start_tick, n.duration_ticks)).collect();
    assert_eq!(l, vec![(100, 0, 480), (101, 480, 480), (102, 960, 240)]);
    let right = &app.project.clips[4];
    assert_eq!(right.name, "Melody A (R)");
    assert_eq!((right.start_tick, right.duration_ticks), (1200, 7680 - 1200));
    let r: Vec<(u64, i64, i64)> = right.notes.iter().map(|n| (n.id.0, n.start_tick, n.duration_ticks)).collect();
    assert_eq!(r, vec![(102, 0, 720), (103, 720, 1920)]);
    assert_eq!(fx.len(), 3);
    assert!(app.arrangement.selected_clips.contains(&right.id));
    assert!(app.arrangement.selected_clips.contains(&ClipId(1)));
    assert_eq!(app.arrangement.selected_clips.len(), 3);
}

#[test]
fn split_outside_clip_does_nothing() {
    let mut app = AppData::new();
    app.select_clips(ClipSelection::select_single(ClipId(4)));
    app.transport_update(3840, false, false);
    assert!(app.split_clips_at_playhead().is_empty());
    assert_eq!(app.project.clips.len(), 4);
}

#[test]
fn duplicate_places_copy_after_source() {
    let mut app = AppData::new();
    app.select_clips(ClipSelection::select_single(ClipId(2)));
    let fx = app.duplicate_selected_clips();
    assert_eq!(app.project.clips.len(), 5);
    let dup = &app.project.clips[4];
    assert_eq!(dup.name, "Bass Line (copy)");
    assert_eq!(dup.start_tick, 7680);
    assert_eq!(dup.notes.iter().map(|n| n.id.0).collect::<Vec<_>>(), vec![1000, 1001]);
    assert_eq!(app.piano_roll.next_note_id, 1002);
    assert_eq!(fx, vec![Effect::ShareAudio { from: ClipId(2), to: dup.id }, Effect::InstallClipInEngine { clip_id: dup.id }]);
    assert_eq!(app.arrangement.selected_clips.len(), 1);
    assert!(app.arrangement.selected_clips.contains(&dup.id));
}

#[test]
fn delete_selected_clips_removes_them() {
    let mut app = AppData::new();
    app.select_clips(ClipSelection::from_ids(&vec![ClipId(3), ClipId(99)]));
    let fx = app.delete_selected_clips();
    assert_eq!(fx, vec![
        Effect::RemoveClipFromEngine { clip_id: ClipId(3), track_id: TrackId(3), is_audio: false },
        Effect::ForgetAudio { clip_id: ClipId(3) },
    ]);
    assert!(app.clip(ClipId(3)).is_none());
    assert_eq!(app.project.clips.len(), 3);
    assert!(app.arrangement.selected_clips.is_empty());
}

#[test]
fn copy_and_paste_at_playhead() {
    let mut app = AppData::new();
    app.select_clips(ClipSelection::from_ids(&vec![ClipId(4), ClipId(2)]));
    app.copy_selected_clips();
    assert_eq!(app.arrangement.clipboard.entries.len(), 2);
    assert_eq!(app.arrangement.clipboard.entries[0].clip.id, ClipId(2));
    assert_eq!(app.arrangement.clipboard.entries[1].tick_offset, 3840);
    assert_eq!(app.arrangement.clipboard.entries[1].track_index_offset, 2);
    app.select_track(TrackId(3));
    app.transport_update(100, false, false);
    let fx = app.paste_clips();
    assert_eq!(fx.len(), 4);
    assert_eq!(app.project.clips.len(), 6);
    let a = &app.project.clips[4];
    let b = &app.project.clips[5];
    assert_eq!((a.start_tick, a.track_id), (100, TrackId(3)));
    assert_eq!((b.start_tick, b.track_id), (3940, TrackId(4)));
    assert_eq!(a.notes.iter().map(|n| n.id.0).collect::<Vec<_>>(), vec![1000, 1001]);
    assert_eq!(app.arrangement.selected_clips.len(), 2);
}

#[test]
fn paste_with_empty_clipboard_does_nothing() {
    let mut app = AppData::new();
    assert!(app.paste_clips().is_empty());
    assert_eq!(app.project.clips.len(), 4);
}

#[test]
fn select_all_clips_selects_every_clip() {
    let mut app = AppData::new();
    app.select_all_clips();
    assert_eq!(app.arrangement.selected_clips.len(), 4);
    app.set_snap_grid(SnapGrid::Bar);
    assert_eq!(app.arrangement.snap_grid, SnapGrid::Bar);
}

#[test]
fn add_track_is_undoable() {
    let mut app = AppData::new();
    let id = app.add_track(TrackKind::Audio);
    let t = app.track(id).unwrap();
    assert_eq!((t.name.as_str(), t.kind, t.color), ("Audio", TrackKind::Audio, [80, 220, 120]));
    app.add_track_with_id(TrackKind::Midi, TrackId(42));
    assert_eq!(app.track(TrackId(42)).unwrap().name, "MIDI");
    app.undo();
    app.undo();
    assert_eq!(app.project.tracks.len(), 4);
}

#[test]
fn imported_clips_go_to_the_right_tracks() {
    let mut app = AppData::new();
    let (cid, tid) = app.load_midi_clip_into_track(1920, "song").unwrap();
    assert_eq!(tid, TrackId(1));
    assert_eq!(app.clip(cid).unwrap().duration_ticks, 1920);
    assert_eq!(app.audio_target_track(), Some(TrackId(3)));
    app.select_track(TrackId(2));
    assert_eq!(app.audio_target_track(), Some(TrackId(3)));
    let (aid, atid) = app.load_audio_clip_into_track("kick", "/s/kick.wav", 1000, 44100, 7).unwrap();
    assert_eq!(atid, TrackId(3));
    let c = app.clip(aid).unwrap();
    assert_eq!(c.audio_file.as_deref(), Some("/s/kick.wav"));
    assert_eq!(c.duration_ticks, 7);
}

#[test]
fn browser_activation_enters_dirs_and_loads_files() {
    let mut app = AppData::new();
    app.browser.apply_listing(&vec![
        BrowserEntry { name: "sub".into(), path: "/x/sub".into(), is_dir: true, extension: "".into() },
        BrowserEntry { name: "a.mid".into(), path: "/x/a.mid".into(), is_dir: false, extension: "mid".into() },
        BrowserEntry { name: "b.wav".into(), path: "/x/b.wav".into(), is_dir: false, extension: "wav".into() },
    ]);
    match app.browser_activate(1) {
        BrowserActivation::LoadMidi { path, name } => assert_eq!((path.as_str(), name.as_str()), ("/x/a.mid", "a.mid")),
        _ => panic!("expected a MIDI file"),
    }
    assert!(matches!(app.browser_activate(2), BrowserActivation::LoadAudio { .. }));
    assert!(matches!(app.browser_activate(9), BrowserActivation::Nothing));
    assert!(matches!(app.browser_activate(0), BrowserActivation::EnteredDir));
    assert_eq!(app.browser.current_dir, "/x/sub");
    assert!(app.browser.entries.is_empty());
}

#[test]
fn view_switching() {
    let mut app = AppData::new();
    assert!(app.toggle_browser());
    assert_eq!(app.active_view, ActiveView::Browser);
    assert!(!app.toggle_browser());
    assert_eq!(app.active_view, ActiveView::Arrangement);
    app.switch_view(ActiveView::Mixer);
    assert_eq!(app.active_view, ActiveView::Mixer);
    app.set_show_preferences(true);
    assert!(app.show_preferences);
    app.open_piano_roll(ClipId(4));
    assert_eq!(app.active_view, ActiveView::PianoRoll);
    assert_eq!(app.piano_roll.active_clip_id, Some(ClipId(4)));
}

#[test]
fn resize_drag_right_and_left_edges() {
    assert_eq!(resize_drag_bounds(SnapGrid::Quarter, 4, ClipResizeEdge::Right, 2000, 960, 960), (960, 960));
    assert_eq!(resize_drag_bounds(SnapGrid::Quarter, 4, ClipResizeEdge::Right, 900, 960, 960), (960, 60));
    assert_eq!(resize_drag_bounds(SnapGrid::Quarter, 4, ClipResizeEdge::Left, 100, 960, 960), (0, 1920));
    assert_eq!(resize_drag_bounds(SnapGrid::Off, 4, ClipResizeEdge::Left, 5000, 960, 960), (1860, 60));
}

#[test]
fn clip_drag_deltas_snap_and_count_tracks() {
    let app = AppData::new();
    assert_eq!(app.clip_drag_deltas(2500, 100, 960, TrackId(2), 3), (960, 2));
    assert_eq!(app.clip_drag_deltas(0, 0, 0, TrackId(77), 0), (0, 0));
}

#[test]
fn engine_clip_has_note_events() {
    let app = AppData::new();
    let mc = midi_clip_for(app.clip(ClipId(2)).unwrap());
    assert_eq!(mc.event_count(), 4);
    assert_eq!(mc.duration_ticks(), PPQN * 8);
    assert_eq!(mc.events()[3].tick, 3840);
    assert_eq!(mc.events()[3].message, MidiMessage::NoteOff { channel: 0, note: 40, velocity: 0 });
    assert_eq!(audio_channel_count(2000, 1000), 2);
    assert_eq!(audio_channel_count(500, 1000), 1);
    assert_eq!(audio_channel_count(500, 0), 2);
}
