//! The application's editing state and what each user action does to it.
//!
//! `AppData` holds the project, the undo history and the editor settings.
//! Each handler changes the state and returns the effects the application
//! must carry out (engine commands, clip (re)installs, disk recording).

use vstd::prelude::*;
use crate::browser::BrowserState;
use crate::commands::EngineCommand;
use crate::demo_data::{demo_clips, demo_tracks};
use crate::editor_state::{
    ActiveView, ArrangementState, Effect, PianoRollState, PianoRollTool, TransportState, send_all,
    sends,
};
use crate::ids::{ClipId, TrackId};
use crate::midi::{Note, NoteId};
use crate::project::{Project, ProjectView, clip_pos, on_track, track_pos};
use crate::time::QuantizeGrid;
use crate::track::{ClipState, TrackState, TrackView};
use crate::undo::{UndoManager, UndoRecord, pushed};
use crate::undo_actions::{
    AddNoteAction, MoveNoteAction, RemoveNoteAction, ResizeNoteAction, SetTrackVolumeAction,
    find_note, note_pos, tracks_edited, volume_set, with_tracks, lemma_track_edit_round_trip,
    lemma_track_pos_facts,
};

verus! {

/// Most actions kept in the undo history.
pub const UNDO_MAX_DEPTH: usize = 100;

/// The application's editing state.
pub struct AppData {
    pub transport: TransportState,
    pub arrangement: ArrangementState,
    pub piano_roll: PianoRollState,
    pub project: Project,
    pub active_view: ActiveView,
    pub browser: BrowserState,
    pub show_preferences: bool,
    pub undo_manager: UndoManager,
}

/// Transport, arrangement, view, browser and preferences are unchanged.
pub open spec fn rest_same(a: AppData, b: AppData) -> bool {
    &&& b.transport == a.transport
    &&& b.arrangement == a.arrangement
    &&& b.active_view == a.active_view
    &&& b.browser == a.browser
    &&& b.show_preferences == a.show_preferences
}

/// Only the next note id of the piano roll may differ.
pub open spec fn piano_same_but_next_id(a: PianoRollState, b: PianoRollState) -> bool {
    &&& b.active_clip_id == a.active_clip_id
    &&& b.scroll_y == a.scroll_y
    &&& b.quantize == a.quantize
    &&& b.default_velocity == a.default_velocity
    &&& b.selected_notes == a.selected_notes
    &&& b.tool == a.tool
    &&& b.interaction == a.interaction
}

/// Nothing but the project changed.
pub open spec fn only_project_changed(a: AppData, b: AppData) -> bool {
    &&& rest_same(a, b)
    &&& b.piano_roll == a.piano_roll
    &&& b.undo_manager == a.undo_manager
}

/// Nothing but the transport changed.
pub open spec fn only_transport_changed(a: AppData, b: AppData) -> bool {
    &&& b.arrangement == a.arrangement
    &&& b.active_view == a.active_view
    &&& b.browser == a.browser
    &&& b.show_preferences == a.show_preferences
    &&& b.piano_roll == a.piano_roll
    &&& b.undo_manager == a.undo_manager
    &&& b.project == a.project
}

/// A track with its mute flag flipped.
pub open spec fn mute_flipped() -> spec_fn(TrackView) -> TrackView {
    |t: TrackView| TrackView { mute: !t.mute, ..t }
}

/// A track with its solo flag flipped.
pub open spec fn solo_flipped() -> spec_fn(TrackView) -> TrackView {
    |t: TrackView| TrackView { solo: !t.solo, ..t }
}

/// A track with its record-arm flag flipped.
pub open spec fn arm_flipped() -> spec_fn(TrackView) -> TrackView {
    |t: TrackView| TrackView { record_armed: !t.record_armed, ..t }
}

/// A track with a new pan position.
pub open spec fn pan_set(bits: u32) -> spec_fn(TrackView) -> TrackView {
    |t: TrackView| TrackView { pan_bits: bits, ..t }
}

/// The ids of the record-armed tracks, in track order.
pub open spec fn armed_ids(tracks: Seq<TrackView>) -> Seq<TrackId> {
    tracks.filter(|t: TrackView| t.record_armed).map_values(|t: TrackView| t.id)
}

/// The note an added note becomes: it gets the next id.
pub open spec fn with_note_id(note: Note, id: u64) -> Note {
    Note { id: NoteId(id), ..note }
}

/// What `add_note` does: state `a` becomes `b` with effects `fx`.
pub open spec fn add_note_result(a: AppData, b: AppData, note: Note, fx: Seq<Effect>) -> bool {
    match a.piano_roll.active_clip_id {
        None => b == a && fx.len() == 0,
        Some(cid) => {
            let act = AddNoteAction { clip_id: cid, note: with_note_id(note, a.piano_roll.next_note_id) };
            &&& b.piano_roll.next_note_id == a.piano_roll.next_note_id + 1
            &&& piano_same_but_next_id(a.piano_roll, b.piano_roll)
            &&& rest_same(a, b)
            &&& if clip_pos(a.project@.clips, cid) is Some {
                &&& b.project@ == act.applied(a.project@)
                &&& fx == sends(act.apply_commands(a.project@))
                &&& pushed(a.undo_manager, b.undo_manager, UndoRecord::AddNote(act))
            } else {
                &&& b.project == a.project
                &&& fx.len() == 0
                &&& b.undo_manager == a.undo_manager
            }
        },
    }
}

/// What `remove_note` does: state `a` becomes `b` with effects `fx`.
pub open spec fn remove_note_result(a: AppData, b: AppData, note_id: NoteId, fx: Seq<Effect>) -> bool {
    match a.piano_roll.active_clip_id {
        Some(cid) if clip_pos(a.project@.clips, cid) is Some
            && note_pos(a.project@.clips[clip_pos(a.project@.clips, cid)->0].notes, note_id) is Some => {
            let c = a.project@.clips[clip_pos(a.project@.clips, cid)->0];
            let act = RemoveNoteAction { clip_id: cid, note: c.notes[note_pos(c.notes, note_id)->0] };
            &&& b.project@ == act.applied(a.project@)
            &&& fx == sends(act.apply_commands(a.project@))
            &&& pushed(a.undo_manager, b.undo_manager, UndoRecord::RemoveNote(act))
            &&& b.piano_roll == a.piano_roll
            &&& rest_same(a, b)
        },
        _ => b == a && fx.len() == 0,
    }
}

/// What `move_note` does: state `a` becomes `b` with effects `fx`.
pub open spec fn move_note_result(a: AppData, b: AppData, note_id: NoteId, new_start: i64, new_pitch: u8, fx: Seq<Effect>) -> bool {
    match a.piano_roll.active_clip_id {
        Some(cid) if clip_pos(a.project@.clips, cid) is Some
            && note_pos(a.project@.clips[clip_pos(a.project@.clips, cid)->0].notes, note_id) is Some => {
            let c = a.project@.clips[clip_pos(a.project@.clips, cid)->0];
            let n = c.notes[note_pos(c.notes, note_id)->0];
            let act = MoveNoteAction {
                clip_id: cid,
                note_id,
                old_start: n.start_tick,
                old_pitch: n.pitch,
                new_start,
                new_pitch,
            };
            &&& b.project@ == act.applied(a.project@)
            &&& fx == sends(act.commands_for(a.project@, new_start, new_pitch))
            &&& pushed(a.undo_manager, b.undo_manager, UndoRecord::MoveNote(act))
            &&& b.piano_roll == a.piano_roll
            &&& rest_same(a, b)
        },
        _ => b == a && fx.len() == 0,
    }
}

/// What `resize_note` does: state `a` becomes `b` with effects `fx`.
pub open spec fn resize_note_result(a: AppData, b: AppData, note_id: NoteId, new_duration: i64, fx: Seq<Effect>) -> bool {
    match a.piano_roll.active_clip_id {
        Some(cid) if clip_pos(a.project@.clips, cid) is Some
            && note_pos(a.project@.clips[clip_pos(a.project@.clips, cid)->0].notes, note_id) is Some => {
            let c = a.project@.clips[clip_pos(a.project@.clips, cid)->0];
            let n = c.notes[note_pos(c.notes, note_id)->0];
            let act = ResizeNoteAction { clip_id: cid, note_id, old_duration: n.duration_ticks, new_duration };
            &&& b.project@ == act.applied(a.project@)
            &&& fx == sends(act.commands_for(a.project@, new_duration))
            &&& pushed(a.undo_manager, b.undo_manager, UndoRecord::ResizeNote(act))
            &&& b.piano_roll == a.piano_roll
            &&& rest_same(a, b)
        },
        _ => b == a && fx.len() == 0,
    }
}

impl AppData {
    /// Application state with the demo tracks and clips.
    pub fn new() -> (r: Self)
        ensures
            r.project@.tracks == crate::demo_data::demo_track_views(),
            r.project@.clips == crate::demo_data::demo_clip_views(),
            crate::editor_state::transport_at_start(r.transport),
            crate::editor_state::arrangement_at_start(r.arrangement),
            crate::editor_state::piano_roll_settings_at_start(r.piano_roll),
            r.piano_roll.next_note_id == 1000,
            crate::browser::browser_at_start(r.browser),
            r.browser.current_dir@.len() > 0,
            r.active_view == ActiveView::Arrangement,
            !r.show_preferences,
            r.undo_manager.undo_seq().len() == 0,
            r.undo_manager.redo_seq().len() == 0,
            r.undo_manager.depth() == UNDO_MAX_DEPTH,
    {
        let tracks = demo_tracks();
        let clips = demo_clips();
        let mut piano_roll = PianoRollState::default();
        piano_roll.next_note_id = 1000;
        let project = Project { tracks, clips };
        proof {
            assert(project@.tracks =~= crate::demo_data::demo_track_views());
        }
        AppData {
            transport: TransportState::default(),
            arrangement: ArrangementState::default(),
            piano_roll,
            project,
            active_view: ActiveView::Arrangement,
            browser: BrowserState::default(),
            show_preferences: false,
            undo_manager: UndoManager::new(UNDO_MAX_DEPTH),
        }
    }

    /// Find a track by id.
    pub fn track(&self, id: TrackId) -> (r: Option<&TrackState>)
        ensures
            match track_pos(self.project@.tracks, id) {
                Some(i) => r matches Some(t) && t@ == self.project@.tracks[i],
                None => r is None,
            },
    {
        self.project.track(id)
    }

    /// Find a clip by id.
    pub fn clip(&self, id: ClipId) -> (r: Option<&ClipState>)
        ensures
            match clip_pos(self.project@.clips, id) {
                Some(i) => r matches Some(c) && c@ == self.project@.clips[i],
                None => r is None,
            },
    {
        self.project.clip(id)
    }

    /// The clips of a track, in project order.
    pub fn clips_for_track(&self, track_id: TrackId) -> (r: Vec<&ClipState>)
        ensures
            r@.map_values(|c: &ClipState| c@) == self.project@.clips.filter(on_track(track_id)),
    {
        self.project.clips_for_track(track_id)
    }

    /// Whether there is an action to undo.
    pub fn can_undo(&self) -> (r: bool)
        ensures
            r == (self.undo_manager.undo_seq().len() > 0),
    {
        self.undo_manager.can_undo()
    }

    /// Whether there is an action to redo.
    pub fn can_redo(&self) -> (r: bool)
        ensures
            r == (self.undo_manager.redo_seq().len() > 0),
    {
        self.undo_manager.can_redo()
    }

    /// Replace the first clip with `updated`'s id; no change if there is none.
    pub fn update_clip(&mut self, updated: ClipState)
        ensures
            final(self).project@ == (ProjectView {
                clips: crate::project::clips_with_update(old(self).project@.clips, updated@),
                ..old(self).project@
            }),
            only_project_changed(*old(self), *final(self)),
    {
        self.project.update_clip(updated);
    }

    // -----------------------------------------------------------------------
    // Piano roll note editing
    // -----------------------------------------------------------------------

    /// Add a note to the open clip. The note gets a fresh id; the edit is
    /// recorded for undo. Without an open clip nothing happens.
    pub fn add_note(&mut self, note: Note) -> (fx: Vec<Effect>)
        requires
            old(self).piano_roll.active_clip_id is Some ==> old(self).piano_roll.next_note_id < u64::MAX,
        ensures
            add_note_result(*old(self), *final(self), note, fx@),

    {
        let cid = match self.piano_roll.active_clip_id {
            Some(id) => id,
            None => return Vec::new(),
        };
        let id = self.piano_roll.alloc_note_id();
        let note = Note { id, ..note };
        if self.project.clip_index(cid).is_some() {
            let action = AddNoteAction { clip_id: cid, note };
            let cmds = action.apply(&mut self.project);
            self.undo_manager.push(UndoRecord::AddNote(action));
            send_all(cmds)
        } else {
            Vec::new()
        }
    }

    /// Remove a note (the first with this id) from the open clip, recording
    /// the removed note for undo. Nothing happens without an open clip or
    /// when the clip or note is missing.
    pub fn remove_note(&mut self, note_id: NoteId) -> (fx: Vec<Effect>)
        ensures
            remove_note_result(*old(self), *final(self), note_id, fx@),

    {
        let cid = match self.piano_roll.active_clip_id {
            Some(id) => id,
            None => return Vec::new(),
        };
        let i = match self.project.clip_index(cid) {
            Some(i) => i,
            None => return Vec::new(),
        };
        let k = match find_note(&self.project.clips[i].notes, note_id) {
            Some(k) => k,
            None => return Vec::new(),
        };
        let saved = self.project.clips[i].notes[k];
        proof {
            assert(self.project.clips@[i as int]@ == self.project@.clips[i as int]);
        }
        let action = RemoveNoteAction { clip_id: cid, note: saved };
        let cmds = action.apply(&mut self.project);
        self.undo_manager.push(UndoRecord::RemoveNote(action));
        send_all(cmds)
    }

    /// Move a note of the open clip to a new start and pitch, recording the
    /// old ones for undo. Nothing happens without an open clip or when the
    /// clip or note is missing.
    pub fn move_note(&mut self, note_id: NoteId, new_start: i64, new_pitch: u8) -> (fx: Vec<Effect>)
        ensures
            move_note_result(*old(self), *final(self), note_id, new_start, new_pitch, fx@),

    {
        let cid = match self.piano_roll.active_clip_id {
            Some(id) => id,
            None => return Vec::new(),
        };
        let i = match self.project.clip_index(cid) {
            Some(i) => i,
            None => return Vec::new(),
        };
        let k = match find_note(&self.project.clips[i].notes, note_id) {
            Some(k) => k,
            None => return Vec::new(),
        };
        let n = self.project.clips[i].notes[k];
        proof {
            assert(self.project.clips@[i as int]@ == self.project@.clips[i as int]);
        }
        let action = MoveNoteAction {
            clip_id: cid,
            note_id,
            old_start: n.start_tick,
            old_pitch: n.pitch,
            new_start,
            new_pitch,
        };
        let cmds = action.apply(&mut self.project);
        self.undo_manager.push(UndoRecord::MoveNote(action));
        send_all(cmds)
    }

    /// Give a note of the open clip a new length, recording the old one for
    /// undo. Nothing happens without an open clip or when the clip or note
    /// is missing.
    pub fn resize_note(&mut self, note_id: NoteId, new_duration: i64) -> (fx: Vec<Effect>)
        ensures
            resize_note_result(*old(self), *final(self), note_id, new_duration, fx@),

    {
        let cid = match self.piano_roll.active_clip_id {
            Some(id) => id,
            None => return Vec::new(),
        };
        let i = match self.project.clip_index(cid) {
            Some(i) => i,
            None => return Vec::new(),
        };
        let k = match find_note(&self.project.clips[i].notes, note_id) {
            Some(k) => k,
            None => return Vec::new(),
        };
        let n = self.project.clips[i].notes[k];
        proof {
            assert(self.project.clips@[i as int]@ == self.project@.clips[i as int]);
        }
        let action = ResizeNoteAction { clip_id: cid, note_id, old_duration: n.duration_ticks, new_duration };
        let cmds = action.apply(&mut self.project);
        self.undo_manager.push(UndoRecord::ResizeNote(action));
        send_all(cmds)
    }
}

/// How sounding a note changes the state `a` into `b` with effects `fx`: it
/// sounds only while a clip is open.
pub open spec fn preview_note_on_result(a: AppData, b: AppData, note: u8, velocity: u8, fx: Seq<Effect>) -> bool {
    &&& b == a
    &&& a.piano_roll.active_clip_id is Some ==> fx =~= seq![
        Effect::Send(EngineCommand::NoteOn { channel: 0, note, velocity }),
    ]
    &&& a.piano_roll.active_clip_id is None ==> fx.len() == 0
}

impl AppData {
    /// Sound a note while editing (only with an open clip).
    pub fn preview_note_on(&mut self, note: u8, velocity: u8) -> (fx: Vec<Effect>)
        ensures
            preview_note_on_result(*old(self), *final(self), note, velocity, fx@),
    {
        if self.piano_roll.active_clip_id.is_none() {
            return Vec::new();
        }
        vec![Effect::Send(EngineCommand::NoteOn { channel: 0, note, velocity })]
    }
}

/// How silencing a note changes the state `a` into `b` with effects `fx`.
pub open spec fn preview_note_off_result(a: AppData, b: AppData, note: u8, fx: Seq<Effect>) -> bool {
    &&& b == a
    &&& a.piano_roll.active_clip_id is Some ==> fx =~= seq![
        Effect::Send(EngineCommand::NoteOff { channel: 0, note, velocity: 0 }),
    ]
    &&& a.piano_roll.active_clip_id is None ==> fx.len() == 0
}

impl AppData {
    /// Stop a previewed note (only with an open clip).
    pub fn preview_note_off(&mut self, note: u8) -> (fx: Vec<Effect>)
        ensures
            preview_note_off_result(*old(self), *final(self), note, fx@),
    {
        if self.piano_roll.active_clip_id.is_none() {
            return Vec::new();
        }
        vec![Effect::Send(EngineCommand::NoteOff { channel: 0, note, velocity: 0 })]
    }
}

/// How choosing the quantisation grid changes the state `a` into `b`: only while a clip is open.
pub open spec fn set_quantize_result(a: AppData, b: AppData, grid: QuantizeGrid) -> bool {
    &&& a.piano_roll.active_clip_id is Some ==> b.piano_roll.quantize == grid
    &&& a.piano_roll.active_clip_id is None ==> b.piano_roll.quantize == a.piano_roll.quantize
    &&& b.piano_roll.active_clip_id == a.piano_roll.active_clip_id
    &&& b.piano_roll.scroll_y == a.piano_roll.scroll_y
    &&& b.piano_roll.default_velocity == a.piano_roll.default_velocity
    &&& b.piano_roll.selected_notes == a.piano_roll.selected_notes
    &&& b.piano_roll.next_note_id == a.piano_roll.next_note_id
    &&& b.piano_roll.tool == a.piano_roll.tool
    &&& b.piano_roll.interaction == a.piano_roll.interaction
    &&& b.project == a.project
    &&& b.undo_manager == a.undo_manager
    &&& rest_same(a, b)
}

impl AppData {
    /// Choose the quantisation grid (only with an open clip).
    pub fn set_quantize(&mut self, grid: QuantizeGrid)
        ensures
            set_quantize_result(*old(self), *final(self), grid),
    {
        if self.piano_roll.active_clip_id.is_some() {
            self.piano_roll.quantize = grid;
        }
    }
}

/// How choosing the piano-roll tool changes the state `a` into `b`.
pub open spec fn set_piano_roll_tool_result(a: AppData, b: AppData, tool: PianoRollTool) -> bool {
    &&& b.piano_roll.tool == tool
    &&& b.piano_roll.interaction == a.piano_roll.interaction
    &&& b.piano_roll.active_clip_id == a.piano_roll.active_clip_id
    &&& b.piano_roll.scroll_y == a.piano_roll.scroll_y
    &&& b.piano_roll.quantize == a.piano_roll.quantize
    &&& b.piano_roll.default_velocity == a.piano_roll.default_velocity
    &&& b.piano_roll.selected_notes == a.piano_roll.selected_notes
    &&& b.piano_roll.next_note_id == a.piano_roll.next_note_id
    &&& b.project == a.project
    &&& b.undo_manager == a.undo_manager
    &&& rest_same(a, b)
}

impl AppData {
    /// Choose the piano roll's editing tool.
    pub fn set_piano_roll_tool(&mut self, tool: PianoRollTool)
        ensures
            set_piano_roll_tool_result(*old(self), *final(self), tool),
    {
        self.piano_roll.tool = tool;
    }
}

// ---------------------------------------------------------------------------
// Mixer
// ---------------------------------------------------------------------------

/// How setting a track's volume changes the state `a` into `b` with effects `fx`.
pub open spec fn set_track_volume_result(a: AppData, b: AppData, track_id: TrackId, volume_bits: u32, fx: Seq<Effect>) -> bool {
    &&& b.project@ == with_tracks(a.project@, tracks_edited(a.project@.tracks, track_id, volume_set(volume_bits)))
    &&& fx =~= seq![Effect::Send(EngineCommand::SetTrackVolume { track_id, volume_bits })]
    &&& match track_pos(a.project@.tracks, track_id) {
        Some(i) => pushed(a.undo_manager, b.undo_manager, UndoRecord::SetTrackVolume(
            SetTrackVolumeAction { track_id, old_volume_bits: a.project@.tracks[i].volume_bits, new_volume_bits: volume_bits },
        )),
        None => b.undo_manager == a.undo_manager,
    }
    &&& b.piano_roll == a.piano_roll
    &&& rest_same(a, b)
}

impl AppData {
    /// Set a track's gain (the bit pattern of its single-precision value).
    /// The engine is always told; the change is recorded for undo when the
    /// track exists.
    pub fn set_track_volume(&mut self, track_id: TrackId, volume_bits: u32) -> (fx: Vec<Effect>)
        ensures
            set_track_volume_result(*old(self), *final(self), track_id, volume_bits, fx@),
    {
        let found = self.project.track_index(track_id);
        match found {
            Some(i) => {
                let old_bits = self.project.tracks[i].volume_bits;
                proof {
                    assert(self.project.tracks@[i as int]@ == self.project@.tracks[i as int]);
                }
                let action = SetTrackVolumeAction { track_id, old_volume_bits: old_bits, new_volume_bits: volume_bits };
                action.apply(&mut self.project);
                self.undo_manager.push(UndoRecord::SetTrackVolume(action));
            },
            None => {
                proof {
                    assert(tracks_edited(self.project@.tracks, track_id, volume_set(volume_bits)) == self.project@.tracks);
                    assert(with_tracks(self.project@, self.project@.tracks) == self.project@);
                }
            },
        }
        vec![Effect::Send(EngineCommand::SetTrackVolume { track_id, volume_bits })]
    }

    /// Edit the first track of this id; returns the edited flag's new value
    /// (`true` for a pan change) when the track exists.
    fn edit_track(&mut self, track_id: TrackId, f: TrackField) -> (r: Option<bool>)
        ensures
            final(self).project@ == with_tracks(old(self).project@, tracks_edited(old(self).project@.tracks, track_id, field_fn(f))),
            match track_pos(old(self).project@.tracks, track_id) {
                Some(i) => r == Some(field_value(field_fn(f)(old(self).project@.tracks[i]), f)),
                None => r is None,
            },
            only_project_changed(*old(self), *final(self)),
    {
        match self.project.track_index(track_id) {
            Some(i) => {
                let mut t = self.project.tracks[i].clone();
                let v = match f {
                    TrackField::Pan(bits) => {
                        t.pan_bits = bits;
                        true
                    },
                    TrackField::Mute => {
                        t.mute = !t.mute;
                        t.mute
                    },
                    TrackField::Solo => {
                        t.solo = !t.solo;
                        t.solo
                    },
                    TrackField::Arm => {
                        t.record_armed = !t.record_armed;
                        t.record_armed
                    },
                };
                proof {
                    assert(self.project.tracks@[i as int]@ == self.project@.tracks[i as int]);
                    assert(t@ == field_fn(f)(self.project@.tracks[i as int]));
                }
                self.project.set_track(i, t);
                Some(v)
            },
            None => {
                proof {
                    assert(with_tracks(self.project@, self.project@.tracks) == self.project@);
                }
                None
            },
        }
    }
}

/// How setting a track's pan changes the state `a` into `b` with effects `fx`.
pub open spec fn set_track_pan_result(a: AppData, b: AppData, track_id: TrackId, pan_bits: u32, fx: Seq<Effect>) -> bool {
    &&& b.project@ == with_tracks(a.project@, tracks_edited(a.project@.tracks, track_id, pan_set(pan_bits)))
    &&& fx =~= seq![Effect::Send(EngineCommand::SetTrackPan { track_id, pan_bits })]
    &&& only_project_changed(a, b)
}

impl AppData {
    /// Set a track's pan position (the bit pattern of its single-precision
    /// value). The engine is always told.
    pub fn set_track_pan(&mut self, track_id: TrackId, pan_bits: u32) -> (fx: Vec<Effect>)
        ensures
            set_track_pan_result(*old(self), *final(self), track_id, pan_bits, fx@),
    {
        self.edit_track(track_id, TrackField::Pan(pan_bits));
        vec![Effect::Send(EngineCommand::SetTrackPan { track_id, pan_bits })]
    }
}

/// How flipping a track's mute flag changes the state `a` into `b` with effects `fx`.
pub open spec fn toggle_mute_result(a: AppData, b: AppData, track_id: TrackId, fx: Seq<Effect>) -> bool {
    &&& b.project@ == with_tracks(a.project@, tracks_edited(a.project@.tracks, track_id, mute_flipped()))
    &&& fx =~= match track_pos(a.project@.tracks, track_id) {
        Some(i) => seq![Effect::Send(EngineCommand::SetTrackMute { track_id, mute: !a.project@.tracks[i].mute })],
        None => Seq::<Effect>::empty(),
    }
    &&& only_project_changed(a, b)
}

impl AppData {
    /// Flip a track's mute flag and tell the engine (when the track exists).
    pub fn toggle_mute(&mut self, track_id: TrackId) -> (fx: Vec<Effect>)
        ensures
            toggle_mute_result(*old(self), *final(self), track_id, fx@),
    {
        match self.edit_track(track_id, TrackField::Mute) {
            Some(mute) => vec![Effect::Send(EngineCommand::SetTrackMute { track_id, mute })],
            None => Vec::new(),
        }
    }
}

/// How flipping a track's solo flag changes the state `a` into `b` with effects `fx`.
pub open spec fn toggle_solo_result(a: AppData, b: AppData, track_id: TrackId, fx: Seq<Effect>) -> bool {
    &&& b.project@ == with_tracks(a.project@, tracks_edited(a.project@.tracks, track_id, solo_flipped()))
    &&& fx =~= match track_pos(a.project@.tracks, track_id) {
        Some(i) => seq![Effect::Send(EngineCommand::SetTrackSolo { track_id, solo: !a.project@.tracks[i].solo })],
        None => Seq::<Effect>::empty(),
    }
    &&& only_project_changed(a, b)
}

impl AppData {
    /// Flip a track's solo flag and tell the engine (when the track exists).
    pub fn toggle_solo(&mut self, track_id: TrackId) -> (fx: Vec<Effect>)
        ensures
            toggle_solo_result(*old(self), *final(self), track_id, fx@),
    {
        match self.edit_track(track_id, TrackField::Solo) {
            Some(solo) => vec![Effect::Send(EngineCommand::SetTrackSolo { track_id, solo })],
            None => Vec::new(),
        }
    }
}

/// How flipping a track's record arm changes the state `a` into `b` with effects `fx`.
pub open spec fn toggle_record_arm_result(a: AppData, b: AppData, track_id: TrackId, fx: Seq<Effect>) -> bool {
    &&& b.project@ == with_tracks(a.project@, tracks_edited(a.project@.tracks, track_id, arm_flipped()))
    &&& fx =~= match track_pos(a.project@.tracks, track_id) {
        Some(i) => seq![Effect::Send(EngineCommand::ArmTrack { track_id, armed: !a.project@.tracks[i].record_armed })],
        None => Seq::<Effect>::empty(),
    }
    &&& only_project_changed(a, b)
}

impl AppData {
    /// Flip a track's record-arm flag and tell the engine (when the track
    /// exists).
    pub fn toggle_record_arm(&mut self, track_id: TrackId) -> (fx: Vec<Effect>)
        ensures
            toggle_record_arm_result(*old(self), *final(self), track_id, fx@),
    {
        match self.edit_track(track_id, TrackField::Arm) {
            Some(armed) => vec![Effect::Send(EngineCommand::ArmTrack { track_id, armed })],
            None => Vec::new(),
        }
    }
}

/// A per-track setting a mixer action changes.
#[derive(Clone, Copy)]
pub enum TrackField {
    Pan(u32),
    Mute,
    Solo,
    Arm,
}

/// The track edit a setting change stands for.
pub open spec fn field_fn(f: TrackField) -> spec_fn(TrackView) -> TrackView {
    match f {
        TrackField::Pan(bits) => pan_set(bits),
        TrackField::Mute => mute_flipped(),
        TrackField::Solo => solo_flipped(),
        TrackField::Arm => arm_flipped(),
    }
}

/// The flag a setting change reports (`true` for pan).
pub open spec fn field_value(t: TrackView, f: TrackField) -> bool {
    match f {
        TrackField::Pan(_) => true,
        TrackField::Mute => t.mute,
        TrackField::Solo => t.solo,
        TrackField::Arm => t.record_armed,
    }
}

/// Law: flipping a track's mute, solo or record-arm flag twice leaves the
/// tracks as they were.
pub proof fn lemma_flip_twice(tracks: Seq<TrackView>, id: TrackId, f: TrackField)
    requires
        !(f is Pan),
    ensures
        tracks_edited(tracks_edited(tracks, id, field_fn(f)), id, field_fn(f)) == tracks,
{
    match track_pos(tracks, id) {
        Some(i) => {
            lemma_track_pos_facts(tracks, id);
            let t = tracks[i];
            assert(field_fn(f)(field_fn(f)(t)) == t);
            lemma_track_edit_round_trip(tracks, id, field_fn(f), field_fn(f));
        },
        None => {},
    }
}

} // verus!
