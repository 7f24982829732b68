//! The events the user interface sends to the application state, and the
//! handling of each: the new state and the effects for the application to
//! carry out. Scrolling and zooming in pixels, the tempo, devices, files and
//! the engine's reports are handled by the application around this.

use vstd::prelude::*;
use crate::app_control::{
    add_track_result, browser_select_result, browser_set_filter_result, open_piano_roll_result,
    redo_result, select_clips_result, select_track_result, set_loop_region_result,
    set_show_preferences_result, set_snap_grid_result, start_recording_result, stop_result,
    switch_view_result, toggle_browser_result, toggle_follow_playhead_result, toggle_loop_result,
    toggle_metronome_result, undo_result,
};
use crate::app_data::{
    AppData, add_note_result, move_note_result, preview_note_off_result, preview_note_on_result,
    remove_note_result, resize_note_result, set_piano_roll_tool_result, set_quantize_result,
    set_track_pan_result, set_track_volume_result, toggle_mute_result, toggle_record_arm_result,
    toggle_solo_result,
};
use crate::browser::{BrowserFilter, go_up_result, path_parent};
use crate::clip_ops::{
    copy_fits, copy_selected_clips_result, delete_selected_clips_result, duplicate_fits,
    duplicate_selected_clips_result, move_clips_result, move_fits, paste_clips_result, paste_fits,
    resize_clip_result, resize_fits, select_all_clips_result, split_clips_at_playhead_result,
    split_fits,
};
use crate::commands::EngineCommand;
use crate::editor_state::{ActiveView, Effect, PianoRollInteraction, PianoRollTool, scroll_by_result};
use crate::ids::{ClipId, TrackId};
use crate::midi::{Note, NoteId};
use crate::project::{clip_pos, track_pos};
use crate::track::sorted_by_start;
use crate::undo::{UndoRecord, lemma_undo_after_push};
use crate::undo_actions::{AddNoteAction, SetTrackVolumeAction};
use crate::app_data::with_note_id;
use crate::note_selection::{
    delete_selected_notes_result, finish_velocity_drag_result, quantize_selected_result,
    select_all_notes_result, selected_quantize_fits, set_note_velocity_result,
    transpose_selected_result,
};
use crate::piano_mouse::with_interaction;
use crate::selection::ClipSelection;
use crate::snap::SnapGrid;
use crate::time::QuantizeGrid;
use crate::track::TrackKind;

verus! {

/// What the user asked for.
#[derive(Debug)]
pub enum AppEvent {
    // Transport
    Play,
    Stop,
    Record,
    Pause,
    TogglePlayPause,
    SetPosition(i64),
    ToggleLoop,
    ToggleMetronome,
    ToggleFollowPlayhead,
    SetLoopRegion { start: i64, end: i64 },
    // Preferences
    ShowPreferences,
    HidePreferences,
    // Views and selection
    SwitchView(ActiveView),
    OpenPianoRoll(ClipId),
    SelectTrack(TrackId),
    // Mixer (gain and pan as the bit patterns of their single-precision values)
    SetTrackVolume { track_id: TrackId, volume_bits: u32 },
    SetTrackPan { track_id: TrackId, pan_bits: u32 },
    ToggleMute(TrackId),
    ToggleSolo(TrackId),
    ToggleRecordArm(TrackId),
    // Piano roll editing
    TransposeSelectedNotes { semitones: i8 },
    QuantizeSelectedNotes,
    SelectAllNotes,
    DeleteSelectedNotes,
    SetPianoRollTool(PianoRollTool),
    SetNoteVelocity { note_id: NoteId, velocity: u8 },
    FinishVelocityDrag { note_id: NoteId, original_velocity: u8, new_velocity: u8 },
    AddNote(Note),
    RemoveNote(NoteId),
    MoveNote { note_id: NoteId, new_start: i64, new_pitch: u8 },
    ResizeNote { note_id: NoteId, new_duration: i64 },
    PreviewNoteOn { note: u8, velocity: u8 },
    PreviewNoteOff { note: u8 },
    UpdateInteraction(PianoRollInteraction),
    SetQuantize(QuantizeGrid),
    ScrollPianoRollY(i8),
    // Undo and redo
    Undo,
    Redo,
    // Browser
    BrowserGoUp,
    BrowserSelect(usize),
    BrowserSetFilter(BrowserFilter),
    ToggleBrowser,
    // Arrangement clips
    SelectClips(ClipSelection),
    MoveClips { delta_tick: i64, delta_track_index: i32 },
    ResizeClip { clip_id: ClipId, new_start: i64, new_duration: i64 },
    SplitClipAtPlayhead,
    DuplicateSelectedClips,
    DeleteSelectedClips,
    CopySelectedClips,
    PasteClips,
    SetSnapGrid(SnapGrid),
    SelectAllClips,
    // Tracks
    AddAudioTrack,
    AddMidiTrack,
}

/// Handling `e` in state `a` stays within machine integers (and a redo
/// applies to the project it finds).
pub open spec fn event_fits(a: AppData, e: AppEvent) -> bool {
    match e {
        AppEvent::AddNote(_) => a.piano_roll.active_clip_id is Some ==> a.piano_roll.next_note_id < u64::MAX,
        AppEvent::QuantizeSelectedNotes => selected_quantize_fits(a),
        AppEvent::Redo => a.undo_manager.redo_seq().len() > 0 ==> a.undo_manager.redo_seq().last().can_apply(a.project@),
        AppEvent::MoveClips { delta_tick, delta_track_index } => move_fits(a, delta_tick, delta_track_index),
        AppEvent::ResizeClip { clip_id, new_duration, .. } => resize_fits(a.project@, clip_id, new_duration),
        AppEvent::SplitClipAtPlayhead => split_fits(a),
        AppEvent::DuplicateSelectedClips => duplicate_fits(a),
        AppEvent::CopySelectedClips => copy_fits(a),
        AppEvent::PasteClips => paste_fits(a),
        _ => true,
    }
}

/// How handling `e` changes the state `a` into `b`, with effects `fx`.
pub open spec fn event_result(a: AppData, b: AppData, e: AppEvent, fx: Seq<Effect>) -> bool {
    match e {
        AppEvent::Play => b == a && fx == seq![Effect::Send(EngineCommand::Play)],
        AppEvent::Stop => stop_result(a, b, fx),
        AppEvent::Record => start_recording_result(a, b, fx),
        AppEvent::Pause => b == a && fx == seq![Effect::Send(EngineCommand::Pause)],
        AppEvent::TogglePlayPause => b == a && fx == seq![
            Effect::Send(if a.transport.is_playing { EngineCommand::Pause } else { EngineCommand::Play }),
        ],
        AppEvent::SetPosition(tick) => b == a && fx == seq![Effect::Send(EngineCommand::SetPosition(tick))],
        AppEvent::ToggleLoop => toggle_loop_result(a, b) && fx.len() == 0,
        AppEvent::ToggleMetronome => toggle_metronome_result(a, b) && fx.len() == 0,
        AppEvent::ToggleFollowPlayhead => toggle_follow_playhead_result(a, b) && fx.len() == 0,
        AppEvent::SetLoopRegion { start, end } => set_loop_region_result(a, b, start, end) && fx.len() == 0,
        AppEvent::ShowPreferences => set_show_preferences_result(a, b, true) && fx.len() == 0,
        AppEvent::HidePreferences => set_show_preferences_result(a, b, false) && fx.len() == 0,
        AppEvent::SwitchView(view) => switch_view_result(a, b, view) && fx.len() == 0,
        AppEvent::OpenPianoRoll(clip_id) => open_piano_roll_result(a, b, clip_id) && fx.len() == 0,
        AppEvent::SelectTrack(id) => select_track_result(a, b, id) && fx.len() == 0,
        AppEvent::SetTrackVolume { track_id, volume_bits } => set_track_volume_result(a, b, track_id, volume_bits, fx),
        AppEvent::SetTrackPan { track_id, pan_bits } => set_track_pan_result(a, b, track_id, pan_bits, fx),
        AppEvent::ToggleMute(id) => toggle_mute_result(a, b, id, fx),
        AppEvent::ToggleSolo(id) => toggle_solo_result(a, b, id, fx),
        AppEvent::ToggleRecordArm(id) => toggle_record_arm_result(a, b, id, fx),
        AppEvent::TransposeSelectedNotes { semitones } => transpose_selected_result(a, b, semitones, fx),
        AppEvent::QuantizeSelectedNotes => quantize_selected_result(a, b, fx),
        AppEvent::SelectAllNotes => select_all_notes_result(a, b) && fx.len() == 0,
        AppEvent::DeleteSelectedNotes => delete_selected_notes_result(a, b, fx),
        AppEvent::SetPianoRollTool(tool) => set_piano_roll_tool_result(a, b, tool) && fx.len() == 0,
        AppEvent::SetNoteVelocity { note_id, velocity } => set_note_velocity_result(a, b, note_id, velocity) && fx.len() == 0,
        AppEvent::FinishVelocityDrag { note_id, original_velocity, new_velocity } =>
            finish_velocity_drag_result(a, b, note_id, original_velocity, new_velocity) && fx.len() == 0,
        AppEvent::AddNote(note) => add_note_result(a, b, note, fx),
        AppEvent::RemoveNote(note_id) => remove_note_result(a, b, note_id, fx),
        AppEvent::MoveNote { note_id, new_start, new_pitch } => move_note_result(a, b, note_id, new_start, new_pitch, fx),
        AppEvent::ResizeNote { note_id, new_duration } => resize_note_result(a, b, note_id, new_duration, fx),
        AppEvent::PreviewNoteOn { note, velocity } => preview_note_on_result(a, b, note, velocity, fx),
        AppEvent::PreviewNoteOff { note } => preview_note_off_result(a, b, note, fx),
        AppEvent::UpdateInteraction(i) => fx.len() == 0
            && b == if a.piano_roll.active_clip_id is Some { with_interaction(a, i) } else { a },
        AppEvent::SetQuantize(grid) => set_quantize_result(a, b, grid) && fx.len() == 0,
        AppEvent::ScrollPianoRollY(dy) => fx.len() == 0 && b == (AppData { piano_roll: b.piano_roll, ..a })
            && scroll_by_result(a.piano_roll, b.piano_roll, dy),
        AppEvent::Undo => undo_result(a, b, fx),
        AppEvent::Redo => redo_result(a, b, fx),
        AppEvent::BrowserGoUp => fx.len() == 0 && b == (AppData { browser: b.browser, ..a })
            && go_up_result(a.browser, b.browser, path_parent(a.browser.current_dir@) is Some),
        AppEvent::BrowserSelect(index) => browser_select_result(a, b, index) && fx.len() == 0,
        AppEvent::BrowserSetFilter(filter) => browser_set_filter_result(a, b, filter) && fx.len() == 0,
        AppEvent::ToggleBrowser => toggle_browser_result(a, b, !a.browser.visible) && fx.len() == 0,
        AppEvent::SelectClips(selection) => select_clips_result(a, b, selection) && fx.len() == 0,
        AppEvent::MoveClips { delta_tick, delta_track_index } => move_clips_result(a, b, delta_tick, delta_track_index, fx),
        AppEvent::ResizeClip { clip_id, new_start, new_duration } => resize_clip_result(a, b, clip_id, new_start, new_duration, fx),
        AppEvent::SplitClipAtPlayhead => split_clips_at_playhead_result(a, b, fx),
        AppEvent::DuplicateSelectedClips => duplicate_selected_clips_result(a, b, fx),
        AppEvent::DeleteSelectedClips => delete_selected_clips_result(a, b, fx),
        AppEvent::CopySelectedClips => copy_selected_clips_result(a, b) && fx.len() == 0,
        AppEvent::PasteClips => paste_clips_result(a, b, fx),
        AppEvent::SetSnapGrid(grid) => set_snap_grid_result(a, b, grid) && fx.len() == 0,
        AppEvent::SelectAllClips => select_all_clips_result(a, b) && fx.len() == 0,
        AppEvent::AddAudioTrack => fx.len() == 0 && exists|t: TrackId| add_track_result(a, b, TrackKind::Audio, t),
        AppEvent::AddMidiTrack => fx.len() == 0 && exists|t: TrackId| add_track_result(a, b, TrackKind::Midi, t),
    }
}

impl AppData {
    /// Whether handling `e` now meets the condition `event` asks for.
    pub fn event_fits_check(&self, e: &AppEvent) -> (r: bool)
        ensures
            r == event_fits(*self, *e),
    {
        match e {
            AppEvent::AddNote(_) => self.piano_roll.active_clip_id.is_none() || self.piano_roll.next_note_id < u64::MAX,
            AppEvent::QuantizeSelectedNotes => self.selected_quantize_fits_check(),
            AppEvent::Redo => self.redo_fits(),
            AppEvent::MoveClips { delta_tick, delta_track_index } => self.move_fits_check(*delta_tick, *delta_track_index),
            AppEvent::ResizeClip { clip_id, new_duration, .. } => self.resize_fits_check(*clip_id, *new_duration),
            AppEvent::SplitClipAtPlayhead => self.split_fits_check(),
            AppEvent::DuplicateSelectedClips => self.duplicate_fits_check(),
            AppEvent::CopySelectedClips => self.copy_fits_check(),
            AppEvent::PasteClips => self.paste_fits_check(),
            _ => true,
        }
    }

    /// Handle one event: update the state and return the effects to carry
    /// out, in order.
    pub fn event(&mut self, e: AppEvent) -> (fx: Vec<Effect>)
        requires
            event_fits(*old(self), e),
        ensures
            event_result(*old(self), *final(self), e, fx@),
    {
        match e {
            AppEvent::Play => self.play(),
            AppEvent::Stop => self.stop(),
            AppEvent::Record => self.start_recording(),
            AppEvent::Pause => self.pause(),
            AppEvent::TogglePlayPause => self.toggle_play_pause(),
            AppEvent::SetPosition(tick) => self.set_position(tick),
            AppEvent::ToggleLoop => {
                self.toggle_loop();
                Vec::new()
            },
            AppEvent::ToggleMetronome => {
                self.toggle_metronome();
                Vec::new()
            },
            AppEvent::ToggleFollowPlayhead => {
                self.toggle_follow_playhead();
                Vec::new()
            },
            AppEvent::SetLoopRegion { start, end } => {
                self.set_loop_region(start, end);
                Vec::new()
            },
            AppEvent::ShowPreferences => {
                self.set_show_preferences(true);
                Vec::new()
            },
            AppEvent::HidePreferences => {
                self.set_show_preferences(false);
                Vec::new()
            },
            AppEvent::SwitchView(view) => {
                self.switch_view(view);
                Vec::new()
            },
            AppEvent::OpenPianoRoll(clip_id) => {
                self.open_piano_roll(clip_id);
                Vec::new()
            },
            AppEvent::SelectTrack(id) => {
                self.select_track(id);
                Vec::new()
            },
            AppEvent::SetTrackVolume { track_id, volume_bits } => self.set_track_volume(track_id, volume_bits),
            AppEvent::SetTrackPan { track_id, pan_bits } => self.set_track_pan(track_id, pan_bits),
            AppEvent::ToggleMute(id) => self.toggle_mute(id),
            AppEvent::ToggleSolo(id) => self.toggle_solo(id),
            AppEvent::ToggleRecordArm(id) => self.toggle_record_arm(id),
            AppEvent::TransposeSelectedNotes { semitones } => self.transpose_selected(semitones),
            AppEvent::QuantizeSelectedNotes => self.quantize_selected(),
            AppEvent::SelectAllNotes => {
                self.select_all_notes();
                Vec::new()
            },
            AppEvent::DeleteSelectedNotes => self.delete_selected_notes(),
            AppEvent::SetPianoRollTool(tool) => {
                self.set_piano_roll_tool(tool);
                Vec::new()
            },
            AppEvent::SetNoteVelocity { note_id, velocity } => {
                self.set_note_velocity(note_id, velocity);
                Vec::new()
            },
            AppEvent::FinishVelocityDrag { note_id, original_velocity, new_velocity } => {
                self.finish_velocity_drag(note_id, original_velocity, new_velocity);
                Vec::new()
            },
            AppEvent::AddNote(note) => self.add_note(note),
            AppEvent::RemoveNote(note_id) => self.remove_note(note_id),
            AppEvent::MoveNote { note_id, new_start, new_pitch } => self.move_note(note_id, new_start, new_pitch),
            AppEvent::ResizeNote { note_id, new_duration } => self.resize_note(note_id, new_duration),
            AppEvent::PreviewNoteOn { note, velocity } => self.preview_note_on(note, velocity),
            AppEvent::PreviewNoteOff { note } => self.preview_note_off(note),
            AppEvent::UpdateInteraction(i) => {
                if self.piano_roll.active_clip_id.is_some() {
                    self.piano_roll.interaction = i;
                }
                Vec::new()
            },
            AppEvent::SetQuantize(grid) => {
                self.set_quantize(grid);
                Vec::new()
            },
            AppEvent::ScrollPianoRollY(dy) => {
                self.piano_roll.scroll_by(dy);
                Vec::new()
            },
            AppEvent::Undo => self.undo(),
            AppEvent::Redo => self.redo(),
            AppEvent::BrowserGoUp => {
                self.browser.go_up();
                Vec::new()
            },
            AppEvent::BrowserSelect(index) => {
                self.browser_select(index);
                Vec::new()
            },
            AppEvent::BrowserSetFilter(filter) => {
                self.browser_set_filter(filter);
                Vec::new()
            },
            AppEvent::ToggleBrowser => {
                self.toggle_browser();
                Vec::new()
            },
            AppEvent::SelectClips(selection) => {
                self.select_clips(selection);
                Vec::new()
            },
            AppEvent::MoveClips { delta_tick, delta_track_index } => self.move_clips(delta_tick, delta_track_index),
            AppEvent::ResizeClip { clip_id, new_start, new_duration } => self.resize_clip(clip_id, new_start, new_duration),
            AppEvent::SplitClipAtPlayhead => self.split_clips_at_playhead(),
            AppEvent::DuplicateSelectedClips => self.duplicate_selected_clips(),
            AppEvent::DeleteSelectedClips => self.delete_selected_clips(),
            AppEvent::CopySelectedClips => {
                self.copy_selected_clips();
                Vec::new()
            },
            AppEvent::PasteClips => self.paste_clips(),
            AppEvent::SetSnapGrid(grid) => {
                self.set_snap_grid(grid);
                Vec::new()
            },
            AppEvent::SelectAllClips => {
                self.select_all_clips();
                Vec::new()
            },
            AppEvent::AddAudioTrack => {
                self.add_track(TrackKind::Audio);
                Vec::new()
            },
            AppEvent::AddMidiTrack => {
                self.add_track(TrackKind::Midi);
                Vec::new()
            },
        }
    }
}

/// Law: changing an existing track's gain and then undoing gives back the
/// project as it was.
pub proof fn lemma_volume_change_undone(
    a: AppData,
    b: AppData,
    c: AppData,
    track_id: TrackId,
    volume_bits: u32,
    fx1: Seq<Effect>,
    fx2: Seq<Effect>,
)
    requires
        event_result(a, b, AppEvent::SetTrackVolume { track_id, volume_bits }, fx1),
        event_result(b, c, AppEvent::Undo, fx2),
        a.undo_manager.depth() > 0,
        track_pos(a.project@.tracks, track_id) is Some,
    ensures
        c.project@ == a.project@,
{
    let i = track_pos(a.project@.tracks, track_id)->0;
    let act = SetTrackVolumeAction { track_id, old_volume_bits: a.project@.tracks[i].volume_bits, new_volume_bits: volume_bits };
    lemma_undo_after_push(a.undo_manager, b.undo_manager, UndoRecord::SetTrackVolume(act));
    act.lemma_revert_undoes_apply(a.project@);
}

/// Law: adding a note to the open clip (whose notes are in start order and
/// none of which has the id the new note gets) and then undoing gives back
/// the project as it was.
pub proof fn lemma_added_note_undone(a: AppData, b: AppData, c: AppData, note: Note, fx1: Seq<Effect>, fx2: Seq<Effect>)
    requires
        event_result(a, b, AppEvent::AddNote(note), fx1),
        event_result(b, c, AppEvent::Undo, fx2),
        a.undo_manager.depth() > 0,
        a.piano_roll.active_clip_id matches Some(cid) && clip_pos(a.project@.clips, cid) matches Some(i)
            && sorted_by_start(a.project@.clips[i].notes)
            && forall|k: int| 0 <= k < a.project@.clips[i].notes.len()
                ==> a.project@.clips[i].notes[k].id != NoteId(a.piano_roll.next_note_id),
    ensures
        c.project@ == a.project@,
{
    let cid = a.piano_roll.active_clip_id->0;
    let act = AddNoteAction { clip_id: cid, note: with_note_id(note, a.piano_roll.next_note_id) };
    lemma_undo_after_push(a.undo_manager, b.undo_manager, UndoRecord::AddNote(act));
    act.lemma_revert_undoes_apply(a.project@);
}

} // verus!
