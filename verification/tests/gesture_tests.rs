use ma_ui::app_data::AppData;
use ma_ui::clip_gestures::ClipInteraction;
use ma_ui::commands::EngineCommand;
use ma_ui::editor_state::{ActiveView, ClipHitZone, ClipResizeEdge, Effect, PianoRollInteraction, PianoRollTool, ResizeEdge};
use ma_ui::ids::{ClipId, TrackId};
use ma_ui::midi::NoteId;
use ma_ui::selection::{ClipSelection, SelectionRect};
use ma_ui::shortcuts::{handle_key_event, Key, Shortcut};
use ma_ui::interaction::resize_drag_fits_check;
use ma_ui::snap::SnapGrid;

fn open(n: u128) -> AppData {
    let mut app = AppData::new();
    app.open_piano_roll(ClipId(n));
    app
}

fn selected(app: &AppData) -> Vec<u128> {
    let mut v: Vec<u128> = app.arrangement.selected_clips.ids().iter().map(|c| c.0).collect();
    v.sort();
    v
}

#[test]
fn piano_roll_shortcuts() {
    let v = ActiveView::PianoRoll;
    assert_eq!(handle_key_event(v, Key::Q, true, false), Some(Shortcut::QuantizeSelectedNotes));
    assert_eq!(handle_key_event(v, Key::ArrowUp, false, false), Some(Shortcut::TransposeSelectedNotes(1)));
    assert_eq!(handle_key_event(v, Key::ArrowDown, false, true), Some(Shortcut::TransposeSelectedNotes(-12)));
    assert_eq!(handle_key_event(v, Key::E, false, false), Some(Shortcut::SetPianoRollTool(PianoRollTool::Erase)));
    assert_eq!(handle_key_event(v, Key::A, true, false), Some(Shortcut::SelectAllNotes));
    assert_eq!(handle_key_event(v, Key::Backspace, false, false), Some(Shortcut::DeleteSelectedNotes));
    // Ctrl+Arrow is no piano-roll shortcut, nor a global one.
    assert_eq!(handle_key_event(v, Key::ArrowUp, true, false), None);
    // Zoom goes to the piano roll here.
    assert_eq!(handle_key_event(v, Key::Equal, false, false), Some(Shortcut::ZoomIn(true)));
}

#[test]
fn arrangement_shortcuts_take_precedence() {
    let v = ActiveView::Arrangement;
    assert_eq!(handle_key_event(v, Key::E, true, false), Some(Shortcut::SplitClipAtPlayhead));
    assert_eq!(handle_key_event(v, Key::D, true, false), Some(Shortcut::DuplicateSelectedClips));
    assert_eq!(handle_key_event(v, Key::Delete, false, false), Some(Shortcut::DeleteSelectedClips));
    // Plain E is no arrangement shortcut.
    assert_eq!(handle_key_event(v, Key::E, false, false), None);
    assert_eq!(handle_key_event(v, Key::Minus, false, false), Some(Shortcut::ZoomOut(false)));
}

#[test]
fn global_shortcuts_in_every_view() {
    for v in [ActiveView::Arrangement, ActiveView::Mixer, ActiveView::PianoRoll, ActiveView::Browser] {
        assert_eq!(handle_key_event(v, Key::Space, false, false), Some(Shortcut::TogglePlayPause));
        assert_eq!(handle_key_event(v, Key::Z, true, false), Some(Shortcut::Undo));
        assert_eq!(handle_key_event(v, Key::Z, true, true), Some(Shortcut::Redo));
        assert_eq!(handle_key_event(v, Key::T, true, true), Some(Shortcut::AddMidiTrack));
        assert_eq!(handle_key_event(v, Key::T, true, false), Some(Shortcut::AddAudioTrack));
        assert_eq!(handle_key_event(v, Key::R, true, false), None);
        assert_eq!(handle_key_event(v, Key::Other, false, false), None);
    }
    assert_eq!(handle_key_event(ActiveView::Mixer, Key::Delete, false, false), None);
}

#[test]
fn drawing_a_note_adds_it_on_release() {
    let mut app = open(2);
    let fx = app.piano_mouse_down(None, 500, 70);
    assert_eq!(fx, vec![Effect::Send(EngineCommand::NoteOn { channel: 0, note: 70, velocity: 100 })]);
    assert_eq!(
        app.piano_roll.interaction,
        PianoRollInteraction::DrawingNote { start_tick: 480, pitch: 70, velocity: 100, current_end_tick: 720 }
    );
    assert!(app.piano_mouse_move(1000, 70).is_empty());
    assert_eq!(
        app.piano_roll.interaction,
        PianoRollInteraction::DrawingNote { start_tick: 480, pitch: 70, velocity: 100, current_end_tick: 960 }
    );
    let fx = app.piano_mouse_up();
    assert_eq!(fx.last(), Some(&Effect::Send(EngineCommand::NoteOff { channel: 0, note: 70, velocity: 0 })));
    assert_eq!(app.piano_roll.interaction, PianoRollInteraction::Idle);
    let clip = app.clip(ClipId(2)).unwrap();
    let added = clip.notes.iter().find(|n| n.id == NoteId(1000)).unwrap();
    assert_eq!((added.pitch, added.start_tick, added.duration_ticks), (70, 480, 480));
    assert!(app.can_undo());
}

#[test]
fn a_click_draws_one_grid_step() {
    let mut app = open(2);
    app.piano_mouse_down(None, 250, 50);
    app.piano_mouse_up();
    let clip = app.clip(ClipId(2)).unwrap();
    let added = clip.notes.iter().find(|n| n.id == NoteId(1000)).unwrap();
    assert_eq!((added.start_tick, added.duration_ticks), (240, 240));
}

#[test]
fn dragging_a_note_moves_it_snapped() {
    let mut app = open(2);
    let n = app.clip(ClipId(2)).unwrap().notes[1];
    assert_eq!(n.id, NoteId(201));
    let fx = app.piano_mouse_down(Some((n, false)), 2000, 40);
    assert_eq!(fx, vec![Effect::Send(EngineCommand::NoteOn { channel: 0, note: 40, velocity: 110 })]);
    app.piano_mouse_move(2500, 45);
    let moved = *app.clip(ClipId(2)).unwrap().notes.iter().find(|n| n.id == NoteId(201)).unwrap();
    assert_eq!((moved.start_tick, moved.pitch), (2400, 45));
    let fx = app.piano_mouse_up();
    assert_eq!(fx, vec![Effect::Send(EngineCommand::NoteOff { channel: 0, note: 40, velocity: 0 })]);
    assert_eq!(app.piano_roll.interaction, PianoRollInteraction::Idle);
}

#[test]
fn resizing_a_note_by_its_right_edge() {
    let mut app = open(2);
    let n = app.clip(ClipId(2)).unwrap().notes[0];
    assert!(app.piano_mouse_down(Some((n, true)), 1900, 36).is_empty());
    assert_eq!(
        app.piano_roll.interaction,
        PianoRollInteraction::ResizingNote { note_id: NoteId(200), original_duration: 1920, edge: ResizeEdge::Right }
    );
    app.piano_mouse_move(1010, 36);
    let r = *app.clip(ClipId(2)).unwrap().notes.iter().find(|n| n.id == NoteId(200)).unwrap();
    assert_eq!((r.start_tick, r.duration_ticks), (0, 960));
    assert!(app.piano_mouse_up().is_empty());
}

#[test]
fn piano_mouse_does_nothing_without_open_clip() {
    let mut app = AppData::new();
    assert!(app.piano_mouse_down(None, 500, 70).is_empty());
    assert_eq!(app.piano_roll.interaction, PianoRollInteraction::Idle);
    assert!(app.piano_mouse_up().is_empty());
}

#[test]
fn body_drag_selects_the_clip_and_moves() {
    let mut app = AppData::new();
    let g = app.start_clip_drag(ClipId(4), ClipHitZone::Body, 4000);
    assert_eq!(
        g,
        Some(ClipInteraction::MovingClips {
            anchor_clip_id: ClipId(4),
            anchor_original_start: 3840,
            anchor_original_track: TrackId(4),
            grab_offset_tick: 160,
            delta_tick: 0,
            delta_track_index: 0,
        })
    );
    assert_eq!(selected(&app), vec![4]);
    let fx = app.clip_mouse_up(
        ClipInteraction::MovingClips {
            anchor_clip_id: ClipId(4),
            anchor_original_start: 3840,
            anchor_original_track: TrackId(4),
            grab_offset_tick: 160,
            delta_tick: 960,
            delta_track_index: 0,
        },
        false,
    );
    assert_eq!(app.clip(ClipId(4)).unwrap().start_tick, 4800);
    assert_eq!(
        fx,
        vec![
            Effect::RemoveClipFromEngine { clip_id: ClipId(4), track_id: TrackId(4), is_audio: false },
            Effect::InstallClipInEngine { clip_id: ClipId(4) },
        ]
    );
}

#[test]
fn body_drag_keeps_an_existing_selection() {
    let mut app = AppData::new();
    app.select_clips(ClipSelection::from_ids(&vec![ClipId(1), ClipId(4)]));
    app.start_clip_drag(ClipId(4), ClipHitZone::Body, 3840);
    assert_eq!(selected(&app), vec![1, 4]);
}

#[test]
fn edge_drag_starts_a_resize() {
    let mut app = AppData::new();
    assert_eq!(
        app.start_clip_drag(ClipId(1), ClipHitZone::RightEdge, 7600),
        Some(ClipInteraction::ResizingClip { clip_id: ClipId(1), edge: ClipResizeEdge::Right, original_start: 0, original_duration: 7680 })
    );
    assert_eq!(
        app.start_clip_drag(ClipId(4), ClipHitZone::LeftEdge, 3850),
        Some(ClipInteraction::ResizingClip { clip_id: ClipId(4), edge: ClipResizeEdge::Left, original_start: 3840, original_duration: 11520 })
    );
    assert!(app.arrangement.selected_clips.is_empty());
    assert_eq!(app.start_clip_drag(ClipId(99), ClipHitZone::Body, 0), None);
}

#[test]
fn releasing_a_resize_trims_the_clip() {
    let mut app = AppData::new();
    let fx = app.clip_mouse_up(
        ClipInteraction::ResizingClip { clip_id: ClipId(1), edge: ClipResizeEdge::Right, original_start: 0, original_duration: 1920 },
        false,
    );
    let c = app.clip(ClipId(1)).unwrap();
    assert_eq!((c.start_tick, c.duration_ticks), (0, 1920));
    let ids: Vec<u64> = c.notes.iter().map(|n| n.id.0).collect();
    assert_eq!(ids, vec![100, 101, 102]);
    assert_eq!(fx.len(), 2);
}

#[test]
fn click_selects_and_shift_click_toggles() {
    let mut app = AppData::new();
    let press = |id: u128| ClipInteraction::PendingDrag { clip_id: ClipId(id), track_id: TrackId(id), click_tick: 0, hit_zone: ClipHitZone::Body };
    assert!(app.clip_mouse_up(press(2), false).is_empty());
    assert_eq!(selected(&app), vec![2]);
    app.clip_mouse_up(press(3), true);
    assert_eq!(selected(&app), vec![2, 3]);
    app.clip_mouse_up(press(2), true);
    assert_eq!(selected(&app), vec![3]);
    app.clip_mouse_up(press(1), false);
    assert_eq!(selected(&app), vec![1]);
}

#[test]
fn release_without_movement_changes_nothing() {
    let mut app = AppData::new();
    app.select_clips(ClipSelection::select_single(ClipId(4)));
    let g = ClipInteraction::MovingClips {
        anchor_clip_id: ClipId(4),
        anchor_original_start: 3840,
        anchor_original_track: TrackId(4),
        grab_offset_tick: 0,
        delta_tick: 0,
        delta_track_index: 0,
    };
    assert!(app.clip_mouse_up(g, false).is_empty());
    assert_eq!(app.clip(ClipId(4)).unwrap().start_tick, 3840);
    assert!(app.clip_mouse_up(ClipInteraction::RubberBand, false).is_empty());
    assert!(app.clip_mouse_up(ClipInteraction::default(), false).is_empty());
    assert_eq!(selected(&app), vec![4]);
}

#[test]
fn pressing_on_a_clip_selects_its_track() {
    let mut app = AppData::new();
    app.select_clips(ClipSelection::select_single(ClipId(1)));
    let g = app.clip_mouse_down(3, Some((ClipId(4), ClipHitZone::Body)), 4000, false);
    assert_eq!(
        g,
        Some(ClipInteraction::PendingDrag { clip_id: ClipId(4), track_id: TrackId(4), click_tick: 4000, hit_zone: ClipHitZone::Body })
    );
    assert_eq!(app.arrangement.selected_track, Some(TrackId(4)));
    assert_eq!(selected(&app), vec![1]);
}

#[test]
fn pressing_beside_clips_starts_a_rectangle() {
    let mut app = AppData::new();
    app.select_clips(ClipSelection::select_single(ClipId(1)));
    assert_eq!(app.clip_mouse_down(0, None, 20000, true), Some(ClipInteraction::RubberBand));
    assert_eq!(selected(&app), vec![1]);
    assert_eq!(app.clip_mouse_down(1, None, 20000, false), Some(ClipInteraction::RubberBand));
    assert!(app.arrangement.selected_clips.is_empty());
    assert_eq!(app.arrangement.selected_track, Some(TrackId(2)));
    // No track at that position: nothing happens.
    assert_eq!(app.clip_mouse_down(9, None, 0, false), None);
    assert_eq!(app.arrangement.selected_track, Some(TrackId(2)));
}

#[test]
fn rectangle_selects_overlapping_clips() {
    let mut app = AppData::new();
    // Ticks 4000..5000 over the tracks at positions 1 to 3: clips 2, 3, 4.
    app.select_clips_in_rect(SelectionRect { tick_start: 4000, tick_end: 5000, track_start: 1, track_end: 3 });
    assert_eq!(selected(&app), vec![2, 3, 4]);
    // Ticks 0..3840 miss clip 4, which starts at 3840.
    app.select_clips_in_rect(SelectionRect { tick_start: 0, tick_end: 3840, track_start: 3, track_end: 3 });
    assert!(app.arrangement.selected_clips.is_empty());
    app.select_clips_in_rect(SelectionRect { tick_start: 0, tick_end: 1, track_start: 0, track_end: 0 });
    assert_eq!(selected(&app), vec![1]);
}

#[test]
fn gesture_fit_checks() {
    let mut app = AppData::new();
    assert!(app.clip_ends_fit_check());
    assert!(app.drag_start_fits_check(ClipId(4), ClipHitZone::Body, 4000));
    assert!(!app.drag_start_fits_check(ClipId(4), ClipHitZone::Body, i64::MIN));
    assert!(app.drag_start_fits_check(ClipId(4), ClipHitZone::LeftEdge, i64::MIN));
    assert!(app.clip_drag_fits_check(5000, 160, 3840, 2));
    assert!(!app.clip_drag_fits_check(i64::MAX, -10, 0, 2));
    assert!(resize_drag_fits_check(SnapGrid::Quarter, 4, ClipResizeEdge::Right, 5000, 0, 7680));
    assert!(!resize_drag_fits_check(SnapGrid::Quarter, 4, ClipResizeEdge::Right, i64::MAX, 0, 7680));
    assert!(!resize_drag_fits_check(SnapGrid::Bar, 0, ClipResizeEdge::Left, 100, 0, 7680));
    assert!(!resize_drag_fits_check(SnapGrid::Quarter, 4, ClipResizeEdge::Left, 100, i64::MIN, 10));
    app.open_piano_roll(ClipId(2));
    assert!(app.mouse_down_fits_check(None, 500));
    assert!(!app.mouse_down_fits_check(None, i64::MAX));
    assert!(app.mouse_up_fits_check());
    assert!(app.mouse_move_fits_check(i64::MAX));
    app.piano_mouse_down(None, 500, 70);
    assert!(!app.mouse_move_fits_check(i64::MAX));
    assert!(app.mouse_move_fits_check(1000));
    app.project.clips[1].duration_ticks = i64::MAX;
    app.project.clips[1].start_tick = 1;
    assert!(!app.clip_ends_fit_check());
}
