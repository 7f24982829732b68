use ma_ui::app_data::AppData;
use ma_ui::app_event::AppEvent;
use ma_ui::commands::EngineCommand;
use ma_ui::editor_state::{ActiveView, Effect, PianoRollInteraction};
use ma_ui::ids::{ClipId, TrackId};
use ma_ui::midi::{Note, NoteId};
use ma_ui::mock_engine::{MockState, UNITY_GAIN_BITS};
use ma_ui::selection::ClipSelection;
use ma_ui::track::TrackKind;

#[test]
fn transport_events_send_engine_commands() {
    let mut app = AppData::new();
    assert_eq!(app.event(AppEvent::Play), vec![Effect::Send(EngineCommand::Play)]);
    assert_eq!(app.event(AppEvent::SetPosition(960)), vec![Effect::Send(EngineCommand::SetPosition(960))]);
    app.transport_update(960, true, false);
    assert_eq!(app.event(AppEvent::TogglePlayPause), vec![Effect::Send(EngineCommand::Pause)]);
    assert_eq!(app.event(AppEvent::Stop), vec![Effect::Send(EngineCommand::Stop)]);
    // Nothing is armed: recording does not start.
    assert!(app.event(AppEvent::Record).is_empty());
    assert_eq!(app.transport.record_start_position, None);
}

#[test]
fn toggle_events_flip_transport_flags() {
    let mut app = AppData::new();
    assert!(app.event(AppEvent::ToggleLoop).is_empty());
    assert!(app.transport.loop_enabled);
    app.event(AppEvent::ToggleMetronome);
    assert!(app.transport.metronome_enabled);
    app.event(AppEvent::ToggleFollowPlayhead);
    assert!(!app.transport.follow_playhead);
    app.event(AppEvent::SetLoopRegion { start: 100, end: 200 });
    assert_eq!((app.transport.loop_start, app.transport.loop_end), (100, 200));
}

#[test]
fn view_and_preference_events() {
    let mut app = AppData::new();
    app.event(AppEvent::ShowPreferences);
    assert!(app.show_preferences);
    app.event(AppEvent::HidePreferences);
    assert!(!app.show_preferences);
    app.event(AppEvent::SwitchView(ActiveView::Mixer));
    assert_eq!(app.active_view, ActiveView::Mixer);
    app.event(AppEvent::OpenPianoRoll(ClipId(2)));
    assert_eq!(app.active_view, ActiveView::PianoRoll);
    assert_eq!(app.piano_roll.active_clip_id, Some(ClipId(2)));
    app.event(AppEvent::SelectTrack(TrackId(3)));
    assert_eq!(app.arrangement.selected_track, Some(TrackId(3)));
}

#[test]
fn mixer_events_reach_tracks_and_engine() {
    let mut app = AppData::new();
    let fx = app.event(AppEvent::ToggleMute(TrackId(1)));
    assert_eq!(fx, vec![Effect::Send(EngineCommand::SetTrackMute { track_id: TrackId(1), mute: true })]);
    assert!(app.track(TrackId(1)).unwrap().mute);
    let bits = 0.5f32.to_bits();
    app.event(AppEvent::SetTrackVolume { track_id: TrackId(2), volume_bits: bits });
    assert_eq!(app.track(TrackId(2)).unwrap().volume_bits, bits);
    assert!(app.can_undo());
    let before = app.track(TrackId(3)).unwrap().volume_bits;
    app.event(AppEvent::SetTrackVolume { track_id: TrackId(3), volume_bits: 0.25f32.to_bits() });
    app.event(AppEvent::Undo);
    assert_eq!(app.track(TrackId(3)).unwrap().volume_bits, before);
    // Unknown track: the mute is not sent.
    assert!(app.event(AppEvent::ToggleSolo(TrackId(99))).is_empty());
}

#[test]
fn piano_roll_events_need_an_open_clip() {
    let mut app = AppData::new();
    let note = Note { id: NoteId(0), pitch: 60, start_tick: 0, duration_ticks: 240, velocity: 100, channel: 0 };
    assert!(app.event(AppEvent::AddNote(note)).is_empty());
    assert!(app.event(AppEvent::PreviewNoteOn { note: 60, velocity: 90 }).is_empty());
    let drawing = PianoRollInteraction::DrawingNote { start_tick: 0, pitch: 60, velocity: 100, current_end_tick: 240 };
    app.event(AppEvent::UpdateInteraction(drawing));
    assert_eq!(app.piano_roll.interaction, PianoRollInteraction::Idle);
    app.event(AppEvent::OpenPianoRoll(ClipId(2)));
    app.event(AppEvent::UpdateInteraction(drawing));
    assert_eq!(app.piano_roll.interaction, drawing);
    assert_eq!(
        app.event(AppEvent::PreviewNoteOn { note: 60, velocity: 90 }),
        vec![Effect::Send(EngineCommand::NoteOn { channel: 0, note: 60, velocity: 90 })]
    );
    let before: Vec<Note> = app.clip(ClipId(2)).unwrap().notes.clone();
    app.event(AppEvent::AddNote(note));
    assert_eq!(app.clip(ClipId(2)).unwrap().notes.len(), 3);
    app.event(AppEvent::Undo);
    assert_eq!(app.clip(ClipId(2)).unwrap().notes, before);
}

#[test]
fn piano_roll_scrolls_within_the_midi_range() {
    let mut app = AppData::new();
    let start = app.piano_roll.scroll_y;
    app.event(AppEvent::ScrollPianoRollY(-5));
    assert_eq!(app.piano_roll.scroll_y, start - 5);
    app.event(AppEvent::ScrollPianoRollY(127));
    app.event(AppEvent::ScrollPianoRollY(127));
    assert_eq!(app.piano_roll.scroll_y, 127);
    app.event(AppEvent::ScrollPianoRollY(-128));
    app.event(AppEvent::ScrollPianoRollY(-128));
    assert_eq!(app.piano_roll.scroll_y, 0);
}

#[test]
fn clip_events_edit_the_arrangement() {
    let mut app = AppData::new();
    app.event(AppEvent::SelectClips(ClipSelection::select_single(ClipId(4))));
    let fx = app.event(AppEvent::MoveClips { delta_tick: 960, delta_track_index: -1 });
    assert_eq!(fx.len(), 2);
    let c = app.clip(ClipId(4)).unwrap();
    assert_eq!((c.start_tick, c.track_id), (4800, TrackId(3)));
    app.event(AppEvent::CopySelectedClips);
    assert_eq!(app.arrangement.clipboard.entries.len(), 1);
    app.event(AppEvent::DeleteSelectedClips);
    assert!(app.clip(ClipId(4)).is_none());
    app.event(AppEvent::SelectAllClips);
    assert_eq!(app.arrangement.selected_clips.len(), 3);
}

#[test]
fn track_events_add_tracks() {
    let mut app = AppData::new();
    app.event(AppEvent::AddMidiTrack);
    app.event(AppEvent::AddAudioTrack);
    assert_eq!(app.project.tracks.len(), 6);
    assert_eq!(app.project.tracks[4].kind, TrackKind::Midi);
    assert_eq!(app.project.tracks[5].kind, TrackKind::Audio);
    app.event(AppEvent::Undo);
    assert_eq!(app.project.tracks.len(), 5);
}

#[test]
fn browser_events() {
    let mut app = AppData::new();
    let visible = app.browser.visible;
    app.event(AppEvent::ToggleBrowser);
    assert_eq!(app.browser.visible, !visible);
    app.event(AppEvent::BrowserSelect(2));
    assert_eq!(app.browser.selected_index, Some(2));
}

#[test]
fn fit_checks_refuse_overflowing_events() {
    let mut app = AppData::new();
    app.event(AppEvent::SelectClips(ClipSelection::select_single(ClipId(4))));
    assert!(app.event_fits_check(&AppEvent::MoveClips { delta_tick: 960, delta_track_index: 1 }));
    assert!(!app.event_fits_check(&AppEvent::MoveClips { delta_tick: i64::MAX, delta_track_index: 0 }));
    assert!(!app.event_fits_check(&AppEvent::MoveClips { delta_tick: 0, delta_track_index: i32::MAX }));
    assert!(app.event_fits_check(&AppEvent::SplitClipAtPlayhead));
    assert!(app.event_fits_check(&AppEvent::DuplicateSelectedClips));
    assert!(app.event_fits_check(&AppEvent::CopySelectedClips));
    assert!(app.event_fits_check(&AppEvent::PasteClips));
    assert!(app.event_fits_check(&AppEvent::Play));
    assert!(app.event_fits_check(&AppEvent::ResizeClip { clip_id: ClipId(1), new_start: 0, new_duration: 960 }));
    // A note reaching past the end of time cannot be cut.
    app.project.clips[0].notes[0].duration_ticks = i64::MAX;
    app.project.clips[0].notes[0].start_tick = 10;
    assert!(!app.event_fits_check(&AppEvent::ResizeClip { clip_id: ClipId(1), new_start: 0, new_duration: 960 }));
    // The audio clip has no notes to cut.
    assert!(app.event_fits_check(&AppEvent::ResizeClip { clip_id: ClipId(3), new_start: 0, new_duration: 960 }));
}

#[test]
fn copy_check_measures_the_spread_of_starts() {
    let mut app = AppData::new();
    app.project.clips[0].start_tick = i64::MAX - 10;
    app.project.clips[1].start_tick = -11;
    app.event(AppEvent::SelectClips(ClipSelection::select_single(ClipId(1))));
    assert!(app.copy_fits_check());
    app.event(AppEvent::SelectClips(ClipSelection::from_ids(&vec![ClipId(1), ClipId(2)])));
    // Starts i64::MAX - 10 and -11: the spread does not fit.
    assert!(!app.copy_fits_check());
    // With -10 the spread is exactly i64::MAX.
    app.project.clips[1].start_tick = -10;
    assert!(app.copy_fits_check());
}

#[test]
fn mock_engine_follows_transport_commands() {
    let ids = vec![TrackId(1), TrackId(2)];
    let mut m = MockState::new(&ids);
    assert!(!m.is_playing && m.position == 0);
    assert_eq!(m.track_states[1].volume_bits, UNITY_GAIN_BITS);
    m.advance(100);
    assert_eq!(m.position, 0);
    m.handle_command(EngineCommand::Record);
    assert!(m.is_playing && m.is_recording);
    m.handle_command(EngineCommand::Play);
    assert!(m.is_playing && !m.is_recording);
    m.advance(480);
    assert_eq!(m.position, 480);
    m.handle_command(EngineCommand::Pause);
    m.advance(480);
    assert_eq!(m.position, 480);
    m.handle_command(EngineCommand::SetPosition(960));
    assert_eq!(m.position, 960);
    m.handle_command(EngineCommand::Stop);
    assert!(!m.is_playing && m.position == 0);
}

#[test]
fn mock_engine_solo_silences_other_tracks() {
    let ids = vec![TrackId(1), TrackId(2), TrackId(3)];
    let mut m = MockState::new(&ids);
    m.handle_command(EngineCommand::Play);
    assert!(m.audible(0) && m.audible(1) && m.audible(2));
    m.handle_command(EngineCommand::SetTrackSolo { track_id: TrackId(2), solo: true });
    assert!(!m.audible(0) && m.audible(1) && !m.audible(2));
    m.handle_command(EngineCommand::SetTrackMute { track_id: TrackId(2), mute: true });
    assert!(!m.audible(1));
    m.handle_command(EngineCommand::SetTrackVolume { track_id: TrackId(9), volume_bits: 0 });
    assert_eq!(m.track_states.iter().filter(|t| t.volume_bits == 0).count(), 0);
    m.handle_command(EngineCommand::Pause);
    assert!(!m.audible(1) && !m.audible(0));
}

#[test]
fn fresh_ids_are_version_4_uuids() {
    let c = ClipId::new().0;
    let t = TrackId::new().0;
    for v in [c, t] {
        assert_eq!((v >> 76) & 0xF, 4);
        assert_eq!((v >> 62) & 0x3, 2);
    }
    assert_ne!(ClipId::new(), ClipId::new());
}

#[test]
fn new_app_starts_with_the_demo_project_and_defaults() {
    let app = AppData::new();
    let names: Vec<&str> = app.project.clips.iter().map(|c| c.name.as_str()).collect();
    assert_eq!(names, vec!["Melody A", "Bass Line", "Drum Loop", "Pad Chords"]);
    let ids: Vec<u128> = app.project.clips.iter().map(|c| c.id.0).collect();
    assert_eq!(ids, vec![1, 2, 3, 4]);
    let c4 = &app.project.clips[3];
    assert_eq!((c4.start_tick, c4.duration_ticks, c4.notes.len()), (3840, 11520, 3));
    assert!(app.project.clips.iter().all(|c| c.audio_file.is_none()));
    assert_eq!((app.transport.position, app.transport.loop_end), (0, 7680));
    assert!(app.transport.follow_playhead && !app.transport.loop_enabled);
    assert_eq!(app.piano_roll.scroll_y, 84);
    assert!(app.arrangement.selected_clips.is_empty() && app.arrangement.selected_track.is_none());
    assert!(!app.browser.visible && app.browser.entries.is_empty());
}

#[test]
fn fresh_clips_and_tracks_get_version_4_ids() {
    let mut app = AppData::new();
    app.event(AppEvent::SelectClips(ClipSelection::select_single(ClipId(1))));
    app.event(AppEvent::DuplicateSelectedClips);
    app.event(AppEvent::AddMidiTrack);
    let c = app.project.clips[4].id.0;
    let t = app.project.tracks[4].id.0;
    for v in [c, t] {
        assert_eq!((v >> 76) & 0xF, 4);
        assert_eq!((v >> 62) & 0x3, 2);
    }
}
