//! Piano-roll actions on the selected notes of the open clip: transpose,
//! quantise, delete, select all, and velocity edits.

use vstd::prelude::*;
use crate::app_data::{AppData, rest_same};
use crate::editor_state::{Effect, send_all, sends};
use crate::midi::{Note, NoteId};
use crate::project::clip_pos;
use crate::time::{QuantizeGrid, quantize_ticks, snap_nearest_fits};
use crate::track::{ClipView, with_notes};
use crate::undo::{UndoRecord, pushed};
use crate::undo_actions::{QuantizeNotesAction, RemoveNotesAction, SetNoteVelocityAction, TransposeNotesAction, clips_edited, note_pos, pair_pos_i64, with_clips, find_note, lemma_pair_pos_i64_facts, quantize_fits};
use crate::editor_state::PianoRollState;

verus! {

/// Notes whose id is among `sel`.
pub open spec fn in_selection(sel: Seq<NoteId>) -> spec_fn(Note) -> bool {
    |n: Note| sel.contains(n.id)
}

/// The (id, pitch) of each selected note, in note order.
pub open spec fn selected_pitches(notes: Seq<Note>, sel: Seq<NoteId>) -> Seq<(NoteId, u8)> {
    notes.filter(in_selection(sel)).map_values(|n: Note| (n.id, n.pitch))
}

/// The (id, start) of each selected note, in note order.
pub open spec fn selected_starts(notes: Seq<Note>, sel: Seq<NoteId>) -> Seq<(NoteId, i64)> {
    notes.filter(in_selection(sel)).map_values(|n: Note| (n.id, n.start_tick))
}

/// The notes of the open clip, if there is an open clip and it exists.
pub open spec fn open_clip(a: AppData) -> Option<ClipView> {
    match a.piano_roll.active_clip_id {
        Some(cid) => match clip_pos(a.project@.clips, cid) {
            Some(i) => Some(a.project@.clips[i]),
            None => None,
        },
        None => None,
    }
}

/// Whether an id is in a list.
pub fn id_listed(sel: &Vec<NoteId>, id: NoteId) -> (r: bool)
    ensures
        r == sel@.contains(id),
{
    let n = sel.len();
    for k in 0..n
        invariant
            n == sel@.len(),
            forall|j: int| 0 <= j < k ==> sel@[j] != id,
    {
        if sel[k] == id {
            proof {
                assert(sel@[k as int] == id);
            }
            return true;
        }
    }
    false
}

/// The notes whose id is selected, in note order.
pub fn selected_notes_of(notes: &Vec<Note>, sel: &Vec<NoteId>) -> (r: Vec<Note>)
    ensures
        r@ == notes@.filter(in_selection(sel@)),
{
    let ghost pred = in_selection(sel@);
    let mut r: Vec<Note> = Vec::new();
    let n = notes.len();
    for k in 0..n
        invariant
            n == notes@.len(),
            pred == in_selection(sel@),
            r@ == notes@.take(k as int).filter(pred),
    {
        proof {
            assert(notes@.take(k as int + 1) == notes@.take(k as int).push(notes@[k as int]));
            notes@.take(k as int).lemma_filter_push(notes@[k as int], pred);
        }
        if id_listed(sel, notes[k].id) {
            r.push(notes[k]);
        }
    }
    proof {
        assert(notes@.take(n as int) == notes@);
    }
    r
}

/// (id, pitch) of each note.
fn pitch_pairs(v: &Vec<Note>) -> (r: Vec<(NoteId, u8)>)
    ensures
        r@ == v@.map_values(|n: Note| (n.id, n.pitch)),
{
    let mut r: Vec<(NoteId, u8)> = Vec::new();
    let n = v.len();
    for k in 0..n
        invariant
            n == v@.len(),
            r@ == v@.take(k as int).map_values(|n: Note| (n.id, n.pitch)),
    {
        r.push((v[k].id, v[k].pitch));
        proof {
            assert(v@.take(k as int + 1) == v@.take(k as int).push(v@[k as int]));
            assert(r@ =~= v@.take(k as int + 1).map_values(|n: Note| (n.id, n.pitch)));
        }
    }
    proof {
        assert(v@.take(n as int) == v@);
    }
    r
}

/// (id, start) of each note.
fn start_pairs(v: &Vec<Note>) -> (r: Vec<(NoteId, i64)>)
    ensures
        r@ == v@.map_values(|n: Note| (n.id, n.start_tick)),
{
    let mut r: Vec<(NoteId, i64)> = Vec::new();
    let n = v.len();
    for k in 0..n
        invariant
            n == v@.len(),
            r@ == v@.take(k as int).map_values(|n: Note| (n.id, n.start_tick)),
    {
        r.push((v[k].id, v[k].start_tick));
        proof {
            assert(v@.take(k as int + 1) == v@.take(k as int).push(v@[k as int]));
            assert(r@ =~= v@.take(k as int + 1).map_values(|n: Note| (n.id, n.start_tick)));
        }
    }
    proof {
        assert(v@.take(n as int) == v@);
    }
    r
}

/// The ids of the notes, in order.
fn note_ids(v: &Vec<Note>) -> (r: Vec<NoteId>)
    ensures
        r@ == v@.map_values(|n: Note| n.id),
{
    let mut r: Vec<NoteId> = Vec::new();
    let n = v.len();
    for k in 0..n
        invariant
            n == v@.len(),
            r@ == v@.take(k as int).map_values(|n: Note| n.id),
    {
        r.push(v[k].id);
        proof {
            assert(v@.take(k as int + 1) == v@.take(k as int).push(v@[k as int]));
            assert(r@ =~= v@.take(k as int + 1).map_values(|n: Note| n.id));
        }
    }
    proof {
        assert(v@.take(n as int) == v@);
    }
    r
}

/// Snapping every selected note of the open clip stays in range.
pub open spec fn selected_quantize_fits(a: AppData) -> bool {
    open_clip(a) matches Some(c) ==> forall|k: int| 0 <= k < c.notes.len()
        && a.piano_roll.selected_notes@.contains(#[trigger] c.notes[k].id)
        ==> snap_nearest_fits(c.notes[k].start_tick as int, quantize_ticks(a.piano_roll.quantize))
}

/// With no note selected, no note of the open clip is selected.
proof fn lemma_empty_selection(a: AppData)
    requires
        a.piano_roll.selected_notes@.len() == 0,
    ensures
        open_clip(a) matches Some(c) ==> c.notes.filter(in_selection(a.piano_roll.selected_notes@)).len() == 0,
{
    broadcast use vstd::seq_lib::group_filter_ensures;
    if open_clip(a) is Some {
        let c = open_clip(a)->0;
        let f = c.notes.filter(in_selection(a.piano_roll.selected_notes@));
        if f.len() > 0 {
            assert(in_selection(a.piano_roll.selected_notes@)(f[0]));
        }
    }
}

/// How transposing the selected notes changes the state `a` into `b` with effects `fx`.
pub open spec fn transpose_selected_result(a: AppData, b: AppData, semitones: i8, fx: Seq<Effect>) -> bool {
    &&& match open_clip(a) {
        Some(c) if selected_pitches(c.notes, a.piano_roll.selected_notes@).len() > 0 => {
            &&& exists|act: TransposeNotesAction| {
                &&& act.clip_id == a.piano_roll.active_clip_id->0
                &&& act.original_pitches@ == selected_pitches(c.notes, a.piano_roll.selected_notes@)
                &&& act.semitones == semitones
                &&& b.project@ == act.applied(a.project@)
                &&& fx =~= sends(act.apply_commands(a.project@))
                &&& #[trigger] pushed(a.undo_manager, b.undo_manager, UndoRecord::TransposeNotes(act))
            }
            &&& b.piano_roll == a.piano_roll
            &&& rest_same(a, b)
        },
        _ => b == a && fx.len() == 0,
    }
}

impl AppData {
    /// Transpose the selected notes of the open clip by `semitones`
    /// (clamped to the MIDI range), recording their pitches for undo.
    /// Nothing happens without an open clip, a selection, or selected
    /// notes in the clip.
    pub fn transpose_selected(&mut self, semitones: i8) -> (fx: Vec<Effect>)
        ensures
            transpose_selected_result(*old(self), *final(self), semitones, fx@),
    {
        let cid = match self.piano_roll.active_clip_id {
            Some(id) => id,
            None => return Vec::new(),
        };
        if self.piano_roll.selected_notes.len() == 0 {
            proof {
                lemma_empty_selection(*old(self));
            }
            return Vec::new();
        }
        let i = match self.project.clip_index(cid) {
            Some(i) => i,
            None => return Vec::new(),
        };
        let chosen = selected_notes_of(&self.project.clips[i].notes, &self.piano_roll.selected_notes);
        let pairs = pitch_pairs(&chosen);
        proof {
            assert(self.project.clips@[i as int]@ == self.project@.clips[i as int]);
        }
        if pairs.len() == 0 {
            return Vec::new();
        }
        let action = TransposeNotesAction { clip_id: cid, original_pitches: pairs, semitones };
        let cmds = action.apply(&mut self.project);
        let ghost witness = action;
        self.undo_manager.push(UndoRecord::TransposeNotes(action));
        proof {
            assert(pushed(old(self).undo_manager, self.undo_manager, UndoRecord::TransposeNotes(witness)));
        }
        send_all(cmds)
    }
}

/// A recorded start belongs to a selected note.
proof fn lemma_selected_start_listed(notes: Seq<Note>, sel: Seq<NoteId>, id: NoteId)
    requires
        pair_pos_i64(selected_starts(notes, sel), id) is Some,
    ensures
        sel.contains(id),
{
    broadcast use vstd::seq_lib::group_filter_ensures;
    let pairs = selected_starts(notes, sel);
    lemma_pair_pos_i64_facts(pairs, id);
    let k = pair_pos_i64(pairs, id)->0;
    let f = notes.filter(in_selection(sel));
    assert(pairs[k] == (f[k].id, f[k].start_tick));
    assert(in_selection(sel)(f[k]));
}

/// Only the note selection of the piano roll may differ.
pub open spec fn piano_same_but_selection(a: PianoRollState, b: PianoRollState) -> bool {
    &&& b.active_clip_id == a.active_clip_id
    &&& b.scroll_y == a.scroll_y
    &&& b.quantize == a.quantize
    &&& b.default_velocity == a.default_velocity
    &&& b.next_note_id == a.next_note_id
    &&& b.tool == a.tool
    &&& b.interaction == a.interaction
}

/// The clip with the velocity of its first note of this id changed.
pub open spec fn velocity_set_first(nid: NoteId, velocity: u8) -> spec_fn(ClipView) -> ClipView {
    |c: ClipView| match note_pos(c.notes, nid) {
        Some(k) => with_notes(c, c.notes.update(k, Note { velocity, ..c.notes[k] })),
        None => c,
    }
}

/// How quantising the selected notes changes the state `a` into `b` with effects `fx`.
pub open spec fn quantize_selected_result(a: AppData, b: AppData, fx: Seq<Effect>) -> bool {
    &&& match open_clip(a) {
        Some(c) if a.piano_roll.quantize != QuantizeGrid::Off
            && selected_starts(c.notes, a.piano_roll.selected_notes@).len() > 0 => {
            &&& exists|act: QuantizeNotesAction| {
                &&& act.clip_id == a.piano_roll.active_clip_id->0
                &&& act.original_starts@ == selected_starts(c.notes, a.piano_roll.selected_notes@)
                &&& act.quantize_grid == a.piano_roll.quantize
                &&& b.project@ == act.applied(a.project@)
                &&& fx =~= sends(act.apply_commands(a.project@))
                &&& #[trigger] pushed(a.undo_manager, b.undo_manager, UndoRecord::QuantizeNotes(act))
            }
            &&& b.piano_roll == a.piano_roll
            &&& rest_same(a, b)
        },
        _ => b == a && fx.len() == 0,
    }
}

impl AppData {
    /// Snap the starts of the selected notes of the open clip to the
    /// quantisation grid, recording them for undo. Nothing happens without
    /// an open clip, with the grid off, or with no selected note in the clip.
    pub fn quantize_selected(&mut self) -> (fx: Vec<Effect>)
        requires
            selected_quantize_fits(*old(self)),
        ensures
            quantize_selected_result(*old(self), *final(self), fx@),
    {
        let cid = match self.piano_roll.active_clip_id {
            Some(id) => id,
            None => return Vec::new(),
        };
        let grid = self.piano_roll.quantize;
        if grid == QuantizeGrid::Off {
            return Vec::new();
        }
        if self.piano_roll.selected_notes.len() == 0 {
            proof {
                lemma_empty_selection(*old(self));
            }
            return Vec::new();
        }
        let i = match self.project.clip_index(cid) {
            Some(i) => i,
            None => return Vec::new(),
        };
        let chosen = selected_notes_of(&self.project.clips[i].notes, &self.piano_roll.selected_notes);
        let pairs = start_pairs(&chosen);
        proof {
            assert(self.project.clips@[i as int]@ == self.project@.clips[i as int]);
        }
        if pairs.len() == 0 {
            return Vec::new();
        }
        let action = QuantizeNotesAction { clip_id: cid, original_starts: pairs, quantize_grid: grid };
        proof {
            let c = self.project@.clips[i as int];
            let sel = self.piano_roll.selected_notes@;
            assert forall|k: int| 0 <= k < c.notes.len()
                && pair_pos_i64(action.original_starts@, #[trigger] c.notes[k].id) is Some
                implies snap_nearest_fits(c.notes[k].start_tick as int, quantize_ticks(grid)) by {
                lemma_selected_start_listed(c.notes, sel, c.notes[k].id);
            }
            assert(quantize_fits(self.project@, cid, action.original_starts@, grid));
        }
        let cmds = action.apply(&mut self.project);
        let ghost witness = action;
        self.undo_manager.push(UndoRecord::QuantizeNotes(action));
        proof {
            assert(pushed(old(self).undo_manager, self.undo_manager, UndoRecord::QuantizeNotes(witness)));
        }
        send_all(cmds)
    }
}

/// How deleting the selected notes changes the state `a` into `b` with effects `fx`.
pub open spec fn delete_selected_notes_result(a: AppData, b: AppData, fx: Seq<Effect>) -> bool {
    &&& match a.piano_roll.active_clip_id {
        None => b == a && fx.len() == 0,
        Some(cid) => {
            &&& b.piano_roll.selected_notes@.len() == 0
            &&& piano_same_but_selection(a.piano_roll, b.piano_roll)
            &&& rest_same(a, b)
            &&& match open_clip(a) {
                Some(c) if c.notes.filter(in_selection(a.piano_roll.selected_notes@)).len() > 0 => {
                    exists|act: RemoveNotesAction| {
                        &&& act.clip_id == cid
                        &&& act.notes@ == c.notes.filter(in_selection(a.piano_roll.selected_notes@))
                        &&& b.project@ == act.applied(a.project@)
                        &&& fx =~= sends(act.apply_commands(a.project@))
                        &&& #[trigger] pushed(a.undo_manager, b.undo_manager, UndoRecord::RemoveNotes(act))
                    }
                },
                _ => {
                    &&& b.project == a.project
                    &&& b.undo_manager == a.undo_manager
                    &&& fx.len() == 0
                },
            }
        },
    }
}

impl AppData {
    /// Delete the selected notes of the open clip, recording them for undo.
    /// With an open clip the selection is cleared in any case.
    pub fn delete_selected_notes(&mut self) -> (fx: Vec<Effect>)
        ensures
            delete_selected_notes_result(*old(self), *final(self), fx@),
    {
        let cid = match self.piano_roll.active_clip_id {
            Some(id) => id,
            None => return Vec::new(),
        };
        let mut selected: Vec<NoteId> = Vec::new();
        std::mem::swap(&mut selected, &mut self.piano_roll.selected_notes);
        if selected.len() == 0 {
            proof {
                lemma_empty_selection(*old(self));
            }
            return Vec::new();
        }
        let i = match self.project.clip_index(cid) {
            Some(i) => i,
            None => return Vec::new(),
        };
        let notes = selected_notes_of(&self.project.clips[i].notes, &selected);
        proof {
            assert(self.project.clips@[i as int]@ == self.project@.clips[i as int]);
        }
        if notes.len() == 0 {
            return Vec::new();
        }
        let action = RemoveNotesAction { clip_id: cid, notes };
        let cmds = action.apply(&mut self.project);
        let ghost witness = action;
        self.undo_manager.push(UndoRecord::RemoveNotes(action));
        proof {
            assert(pushed(old(self).undo_manager, self.undo_manager, UndoRecord::RemoveNotes(witness)));
        }
        send_all(cmds)
    }
}

/// How selecting every note of the open clip changes the state `a` into `b`.
pub open spec fn select_all_notes_result(a: AppData, b: AppData) -> bool {
    &&& match open_clip(a) {
        Some(c) => {
            &&& b.piano_roll.selected_notes@ == c.notes.map_values(|n: Note| n.id)
            &&& piano_same_but_selection(a.piano_roll, b.piano_roll)
            &&& b.project == a.project
            &&& b.undo_manager == a.undo_manager
            &&& rest_same(a, b)
        },
        None => b == a,
    }
}

impl AppData {
    /// Select every note of the open clip (no change without one).
    pub fn select_all_notes(&mut self)
        ensures
            select_all_notes_result(*old(self), *final(self)),
    {
        if let Some(cid) = self.piano_roll.active_clip_id {
            if let Some(i) = self.project.clip_index(cid) {
                let ids = note_ids(&self.project.clips[i].notes);
                proof {
                    assert(self.project.clips@[i as int]@ == self.project@.clips[i as int]);
                }
                self.piano_roll.selected_notes = ids;
            }
        }
    }
}

/// How setting a note's velocity while dragging changes the state `a` into `b`.
pub open spec fn set_note_velocity_result(a: AppData, b: AppData, note_id: NoteId, velocity: u8) -> bool {
    &&& match a.piano_roll.active_clip_id {
        Some(cid) => {
            &&& b.project@ == with_clips(a.project@, clips_edited(a.project@.clips, cid, velocity_set_first(note_id, velocity)))
            &&& b.piano_roll == a.piano_roll
            &&& b.undo_manager == a.undo_manager
            &&& rest_same(a, b)
        },
        None => b == a,
    }
}

impl AppData {
    /// Set the velocity of a note of the open clip while dragging (not
    /// recorded for undo; see `finish_velocity_drag`).
    pub fn set_note_velocity(&mut self, note_id: NoteId, velocity: u8)
        ensures
            set_note_velocity_result(*old(self), *final(self), note_id, velocity),
    {
        let cid = match self.piano_roll.active_clip_id {
            Some(id) => id,
            None => return,
        };
        match self.project.clip_index(cid) {
            Some(i) => {
                let mut c = self.project.clips[i].clone();
                proof {
                    assert(self.project.clips@[i as int]@ == self.project@.clips[i as int]);
                }
                match find_note(&c.notes, note_id) {
                    Some(k) => {
                        let n = c.notes[k];
                        c.notes.set(k, Note { velocity, ..n });
                    },
                    None => {},
                }
                proof {
                    assert(c@ =~= velocity_set_first(note_id, velocity)(self.project@.clips[i as int]));
                }
                self.project.set_clip(i, c);
            },
            None => {
                proof {
                    assert(with_clips(self.project@, self.project@.clips) == self.project@);
                }
            },
        }
    }
}

/// How finishing a velocity drag changes the state `a` into `b`.
pub open spec fn finish_velocity_drag_result(a: AppData, b: AppData, note_id: NoteId, original_velocity: u8, new_velocity: u8) -> bool {
    &&& match a.piano_roll.active_clip_id {
        Some(cid) if original_velocity != new_velocity => {
            &&& pushed(a.undo_manager, b.undo_manager, UndoRecord::SetNoteVelocity(
                SetNoteVelocityAction { clip_id: cid, note_id, old_velocity: original_velocity, new_velocity },
            ))
            &&& b.project == a.project
            &&& b.piano_roll == a.piano_roll
            &&& rest_same(a, b)
        },
        _ => b == a,
    }
}

impl AppData {
    /// End a velocity drag: a change is recorded for undo (the velocity is
    /// already in place).
    pub fn finish_velocity_drag(&mut self, note_id: NoteId, original_velocity: u8, new_velocity: u8)
        ensures
            finish_velocity_drag_result(*old(self), *final(self), note_id, original_velocity, new_velocity),
    {
        if original_velocity != new_velocity {
            if let Some(cid) = self.piano_roll.active_clip_id {
                self.undo_manager.push(UndoRecord::SetNoteVelocity(
                    SetNoteVelocityAction { clip_id: cid, note_id, old_velocity: original_velocity, new_velocity },
                ));
            }
        }
    }
}

} // verus!
