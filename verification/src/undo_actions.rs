//! Undoable editing operations.
//!
//! Each action captures enough state to perform both the forward (apply /
//! redo) and backward (revert / undo) change to the project, and returns
//! the commands the audio engine must receive for it.

use vstd::prelude::*;
use crate::commands::EngineCommand;
use crate::ids::{ClipId, TrackId};
use crate::midi::{Note, NoteId};
use crate::project::{
    Project, ProjectView, clip_pos, track_pos, first_match, is_first_match, lemma_first_match,
    clips_view, tracks_view, retain_clips, other_clip, clips_without, lemma_no_match,
    tracks_without, on_track,
};
use crate::seq_facts::{lemma_filter_all, lemma_remove_one_then_push, lemma_filter_one_out, lemma_filter_partition};
use crate::time::{QuantizeGrid, quantize_ticks, snap_nearest, snap_nearest_fits, snap_fits};
use crate::track::{
    ClipState, ClipView, TrackState, TrackView, sort_by_start, sorted_by_start, insert_by_start,
    notes_without, notes_replaced, with_notes, copy_notes, sort_notes_by_start,
    lemma_sort_of_sorted, lemma_sort_sorted, lemma_insert_then_remove,
};

verus! {

broadcast use vstd::seq_lib::group_to_multiset_ensures;

/// The project with its clip list replaced.
pub open spec fn with_clips(p: ProjectView, clips: Seq<ClipView>) -> ProjectView {
    ProjectView { clips, ..p }
}

/// The project with its track list replaced.
pub open spec fn with_tracks(p: ProjectView, tracks: Seq<TrackView>) -> ProjectView {
    ProjectView { tracks, ..p }
}

/// The clips of `a` and `b` are the same up to order, and the tracks equal.
pub open spec fn same_up_to_clip_order(a: ProjectView, b: ProjectView) -> bool {
    &&& a.tracks == b.tracks
    &&& a.clips.to_multiset() == b.clips.to_multiset()
}

/// Exactly one clip has this id and it equals `c`.
pub open spec fn holds_clip_once(clips: Seq<ClipView>, c: ClipView) -> bool {
    exists|i: int|
        0 <= i < clips.len() && clips[i] == c && forall|j: int|
            0 <= j < clips.len() && j != i ==> clips[j].id != c.id
}

/// No clip has this id.
pub open spec fn lacks_clip(clips: Seq<ClipView>, id: ClipId) -> bool {
    forall|i: int| 0 <= i < clips.len() ==> clips[i].id != id
}

impl Project {
    /// Replace the clip at `i`.
    pub fn set_clip(&mut self, i: usize, c: ClipState)
        requires
            i < old(self).clips@.len(),
        ensures
            final(self)@ == with_clips(old(self)@, old(self)@.clips.update(i as int, c@)),
    {
        self.clips.set(i, c);
        proof {
            assert(clips_view(self.clips@) =~= clips_view(old(self).clips@).update(i as int, c@));
        }
    }

    /// Replace the track at `i`.
    pub fn set_track(&mut self, i: usize, t: TrackState)
        requires
            i < old(self).tracks@.len(),
        ensures
            final(self)@ == with_tracks(old(self)@, old(self)@.tracks.update(i as int, t@)),
    {
        self.tracks.set(i, t);
        proof {
            assert(tracks_view(self.tracks@) =~= tracks_view(old(self).tracks@).update(i as int, t@));
        }
    }

    /// Append a clip.
    pub fn push_clip(&mut self, c: ClipState)
        ensures
            final(self)@ == with_clips(old(self)@, old(self)@.clips.push(c@)),
    {
        self.clips.push(c);
        proof {
            assert(clips_view(self.clips@) =~= clips_view(old(self).clips@).push(c@));
        }
    }

    /// Drop every clip whose id is `id` or, when given, `also`.
    pub fn remove_clips_with_id(&mut self, id: ClipId, also: Option<ClipId>)
        ensures
            final(self)@ == with_clips(old(self)@, old(self)@.clips.filter(other_clip(id, also))),
    {
        retain_clips(&mut self.clips, id, also);
    }
}

/// The clip list with the first clip of this id moved to `start`.
pub open spec fn clips_moved(clips: Seq<ClipView>, id: ClipId, start: i64) -> Seq<ClipView> {
    match clip_pos(clips, id) {
        Some(i) => clips.update(i, ClipView { start_tick: start, ..clips[i] }),
        None => clips,
    }
}

/// Replacing the element at the first match by one with the same key keeps
/// it the first match.
pub proof fn lemma_clip_pos_after_update(clips: Seq<ClipView>, id: ClipId, c: ClipView)
    requires
        clip_pos(clips, id) is Some,
        c.id == id,
    ensures
        clip_pos(clips.update(clip_pos(clips, id)->0, c), id) == clip_pos(clips, id),
{
    let i = clip_pos(clips, id)->0;
    let p = |x: ClipView| x.id == id;
    lemma_clip_pos_facts(clips, id);
    assert(is_first_match(clips, p, i));
    assert(is_first_match(clips.update(i, c), p, i));
    lemma_first_match(clips.update(i, c), p, i);
}

pub proof fn lemma_track_pos_after_update(tracks: Seq<TrackView>, id: TrackId, t: TrackView)
    requires
        track_pos(tracks, id) is Some,
        t.id == id,
    ensures
        track_pos(tracks.update(track_pos(tracks, id)->0, t), id) == track_pos(tracks, id),
{
    let i = track_pos(tracks, id)->0;
    let p = |x: TrackView| x.id == id;
    lemma_track_pos_facts(tracks, id);
    assert(is_first_match(tracks, p, i));
    assert(is_first_match(tracks.update(i, t), p, i));
    lemma_first_match(tracks.update(i, t), p, i);
}

/// `clip_pos` names a position holding a clip of that id, preceded by none.
pub proof fn lemma_clip_pos_facts(clips: Seq<ClipView>, id: ClipId)
    ensures
        match clip_pos(clips, id) {
            Some(i) => is_first_match(clips, |c: ClipView| c.id == id, i),
            None => lacks_clip(clips, id),
        },
{
    let p = |c: ClipView| c.id == id;
    if exists|i: int| 0 <= i < clips.len() && p(clips[i]) {
        let w = lemma_some_first_match(clips, p);
        lemma_first_match(clips, p, w);
    }
}

pub proof fn lemma_track_pos_facts(tracks: Seq<TrackView>, id: TrackId)
    ensures
        match track_pos(tracks, id) {
            Some(i) => is_first_match(tracks, |t: TrackView| t.id == id, i),
            None => forall|j: int| 0 <= j < tracks.len() ==> tracks[j].id != id,
        },
{
    let p = |t: TrackView| t.id == id;
    if exists|i: int| 0 <= i < tracks.len() && p(tracks[i]) {
        let w = lemma_some_first_match(tracks, p);
        lemma_first_match(tracks, p, w);
    }
}

/// Whenever something matches, there is a first match.
pub proof fn lemma_some_first_match<A>(s: Seq<A>, p: spec_fn(A) -> bool) -> (w: int)
    requires
        exists|i: int| 0 <= i < s.len() && p(s[i]),
    ensures
        is_first_match(s, p, w),
    decreases s.len(),
{
    if exists|i: int| 0 <= i < s.len() - 1 && p(s.drop_last()[i]) {
        let w = lemma_some_first_match(s.drop_last(), p);
        assert forall|j: int| 0 <= j < w implies !p(s[j]) by {
            assert(s[j] == s.drop_last()[j]);
        }
        w
    } else {
        let w = s.len() - 1;
        assert forall|j: int| 0 <= j < w implies !p(s[j]) by {
            assert(s[j] == s.drop_last()[j]);
        }
        w
    }
}

// ---------------------------------------------------------------------------
// 1. MoveClipAction
// ---------------------------------------------------------------------------

pub struct MoveClipAction {
    pub clip_id: ClipId,
    pub old_start_tick: i64,
    pub new_start_tick: i64,
}

impl MoveClipAction {
    pub fn description(&self) -> (r: &'static str)
        ensures
            r@ == "Move Clip"@,
    {
        "Move Clip"
    }

    pub open spec fn applied(&self, p: ProjectView) -> ProjectView {
        with_clips(p, clips_moved(p.clips, self.clip_id, self.new_start_tick))
    }

    pub open spec fn reverted(&self, p: ProjectView) -> ProjectView {
        with_clips(p, clips_moved(p.clips, self.clip_id, self.old_start_tick))
    }

    fn move_to(&self, state: &mut Project, start: i64)
        ensures
            final(state)@ == with_clips(old(state)@, clips_moved(old(state)@.clips, self.clip_id, start)),
    {
        if let Some(i) = state.clip_index(self.clip_id) {
            let mut c = state.clips[i].clone();
            c.start_tick = start;
            state.set_clip(i, c);
        }
    }

    pub fn apply(&self, state: &mut Project)
        ensures
            final(state)@ == self.applied(old(state)@),
    {
        self.move_to(state, self.new_start_tick);
    }

    pub fn revert(&self, state: &mut Project)
        ensures
            final(state)@ == self.reverted(old(state)@),
    {
        self.move_to(state, self.old_start_tick);
    }

    /// Law: moving a clip that starts at `old_start_tick` and moving it back
    /// restores the project.
    pub proof fn lemma_revert_undoes_apply(&self, p: ProjectView)
        requires
            clip_pos(p.clips, self.clip_id) matches Some(i)
                && p.clips[i].start_tick == self.old_start_tick,
        ensures
            self.reverted(self.applied(p)) == p,
    {
        let i = clip_pos(p.clips, self.clip_id)->0;
        lemma_clip_pos_facts(p.clips, self.clip_id);
        let c = ClipView { start_tick: self.new_start_tick, ..p.clips[i] };
        lemma_clip_pos_after_update(p.clips, self.clip_id, c);
        assert(p.clips.update(i, c).update(i, ClipView { start_tick: self.old_start_tick, ..c })
            =~= p.clips);
    }
}

// ---------------------------------------------------------------------------
// 2. AddClipAction
// ---------------------------------------------------------------------------

pub struct AddClipAction {
    pub clip: ClipState,
}

impl AddClipAction {
    pub fn description(&self) -> (r: &'static str)
        ensures
            r@ == "Add Clip"@,
    {
        "Add Clip"
    }

    pub open spec fn applied(&self, p: ProjectView) -> ProjectView {
        with_clips(p, p.clips.push(self.clip@))
    }

    pub open spec fn reverted(&self, p: ProjectView) -> ProjectView {
        with_clips(p, clips_without(p.clips, self.clip.id))
    }

    pub fn apply(&self, state: &mut Project)
        ensures
            final(state)@ == self.applied(old(state)@),
    {
        state.push_clip(self.clip.clone());
    }

    pub fn revert(&self, state: &mut Project)
        ensures
            final(state)@ == self.reverted(old(state)@),
    {
        state.remove_clips_with_id(self.clip.id, None);
        proof {
            assert(other_clip(self.clip.id, None) == |c: ClipView| c.id != self.clip.id);
        }
    }

    /// Law: adding a clip whose id is not yet used and removing it again
    /// restores the project.
    pub proof fn lemma_revert_undoes_apply(&self, p: ProjectView)
        requires
            lacks_clip(p.clips, self.clip.id),
        ensures
            self.reverted(self.applied(p)) == p,
    {
        lemma_add_then_remove(p.clips, self.clip@);
    }
}

/// Appending a clip with a fresh id and filtering that id out gives the
/// original list back.
pub proof fn lemma_add_then_remove(clips: Seq<ClipView>, c: ClipView)
    requires
        lacks_clip(clips, c.id),
    ensures
        clips_without(clips.push(c), c.id) == clips,
{
    let p = |x: ClipView| x.id != c.id;
    lemma_filter_all(clips, p);
    clips.lemma_filter_push(c, p);
}

/// Filtering out the only clip of an id and appending it again gives the
/// same clips up to order.
pub proof fn lemma_remove_then_add(clips: Seq<ClipView>, c: ClipView)
    requires
        holds_clip_once(clips, c),
    ensures
        clips_without(clips, c.id).push(c).to_multiset() == clips.to_multiset(),
{
    let i = choose|i: int|
        0 <= i < clips.len() && clips[i] == c && forall|j: int|
            0 <= j < clips.len() && j != i ==> clips[j].id != c.id;
    lemma_remove_one_then_push(clips, |x: ClipView| x.id != c.id, i);
}

// ---------------------------------------------------------------------------
// 3. RemoveClipAction
// ---------------------------------------------------------------------------

pub struct RemoveClipAction {
    pub clip: ClipState,
}

impl RemoveClipAction {
    pub fn description(&self) -> (r: &'static str)
        ensures
            r@ == "Remove Clip"@,
    {
        "Remove Clip"
    }

    pub open spec fn applied(&self, p: ProjectView) -> ProjectView {
        with_clips(p, clips_without(p.clips, self.clip.id))
    }

    pub open spec fn reverted(&self, p: ProjectView) -> ProjectView {
        with_clips(p, p.clips.push(self.clip@))
    }

    pub fn apply(&self, state: &mut Project)
        ensures
            final(state)@ == self.applied(old(state)@),
    {
        state.remove_clips_with_id(self.clip.id, None);
        proof {
            assert(other_clip(self.clip.id, None) == |c: ClipView| c.id != self.clip.id);
        }
    }

    pub fn revert(&self, state: &mut Project)
        ensures
            final(state)@ == self.reverted(old(state)@),
    {
        state.push_clip(self.clip.clone());
    }

    /// Law: removing the project's only clip with this id (equal to the
    /// stored clip) and restoring it gives the same clips, up to order.
    pub proof fn lemma_revert_undoes_apply(&self, p: ProjectView)
        requires
            holds_clip_once(p.clips, self.clip@),
        ensures
            same_up_to_clip_order(self.reverted(self.applied(p)), p),
    {
        lemma_remove_then_add(p.clips, self.clip@);
    }
}

// ---------------------------------------------------------------------------
// 4. SplitClipAction
// ---------------------------------------------------------------------------

pub struct SplitClipAction {
    pub original_clip: ClipState,
    pub left_clip: ClipState,
    pub right_clip: ClipState,
}

impl SplitClipAction {
    pub fn description(&self) -> (r: &'static str)
        ensures
            r@ == "Split Clip"@,
    {
        "Split Clip"
    }

    pub open spec fn applied(&self, p: ProjectView) -> ProjectView {
        with_clips(
            p,
            clips_without(p.clips, self.original_clip.id).push(self.left_clip@).push(self.right_clip@),
        )
    }

    pub open spec fn reverted(&self, p: ProjectView) -> ProjectView {
        with_clips(
            p,
            p.clips.filter(other_clip(self.left_clip.id, Some(self.right_clip.id))).push(
                self.original_clip@,
            ),
        )
    }

    pub fn apply(&self, state: &mut Project)
        ensures
            final(state)@ == self.applied(old(state)@),
    {
        state.remove_clips_with_id(self.original_clip.id, None);
        proof {
            assert(other_clip(self.original_clip.id, None) == |c: ClipView| c.id != self.original_clip.id);
        }
        state.push_clip(self.left_clip.clone());
        state.push_clip(self.right_clip.clone());
    }

    pub fn revert(&self, state: &mut Project)
        ensures
            final(state)@ == self.reverted(old(state)@),
    {
        state.remove_clips_with_id(self.left_clip.id, Some(self.right_clip.id));
        state.push_clip(self.original_clip.clone());
    }

    /// Law: splitting the project's only clip with the original id into a
    /// left half that keeps that id and a right half with a fresh id, then
    /// undoing, gives the same clips up to order.
    pub proof fn lemma_revert_undoes_apply(&self, p: ProjectView)
        requires
            holds_clip_once(p.clips, self.original_clip@),
            self.left_clip.id == self.original_clip.id,
            lacks_clip(p.clips, self.right_clip.id),
        ensures
            same_up_to_clip_order(self.reverted(self.applied(p)), p),
    {
        let oid = self.original_clip.id;
        let rid = self.right_clip.id;
        let base = clips_without(p.clips, oid);
        let q = other_clip(oid, Some(rid));
        let after = base.push(self.left_clip@).push(self.right_clip@);
        assert(rid != oid) by {
            let i = choose|i: int|
                0 <= i < p.clips.len() && p.clips[i] == self.original_clip@ && forall|j: int|
                    0 <= j < p.clips.len() && j != i ==> p.clips[j].id != oid;
            assert(p.clips[i].id == oid);
        }
        assert forall|k: int| 0 <= k < base.len() implies q(base[k]) by {
            let pr = |c: ClipView| c.id != oid;
            assert(base.contains(base[k]));
            p.clips.lemma_filter_contains_rev(pr, base[k]);
            assert(pr(base[k]));
            assert(p.clips.contains(base[k]));
        }
        lemma_filter_all(base, q);
        base.lemma_filter_push(self.left_clip@, q);
        base.push(self.left_clip@).lemma_filter_push(self.right_clip@, q);
        lemma_remove_then_add(p.clips, self.original_clip@);
    }
}

// ---------------------------------------------------------------------------
// 5. DuplicateClipAction
// ---------------------------------------------------------------------------

pub struct DuplicateClipAction {
    pub new_clip: ClipState,
}

impl DuplicateClipAction {
    pub fn description(&self) -> (r: &'static str)
        ensures
            r@ == "Duplicate Clip"@,
    {
        "Duplicate Clip"
    }

    pub open spec fn applied(&self, p: ProjectView) -> ProjectView {
        with_clips(p, p.clips.push(self.new_clip@))
    }

    pub open spec fn reverted(&self, p: ProjectView) -> ProjectView {
        with_clips(p, clips_without(p.clips, self.new_clip.id))
    }

    pub fn apply(&self, state: &mut Project)
        ensures
            final(state)@ == self.applied(old(state)@),
    {
        state.push_clip(self.new_clip.clone());
    }

    pub fn revert(&self, state: &mut Project)
        ensures
            final(state)@ == self.reverted(old(state)@),
    {
        state.remove_clips_with_id(self.new_clip.id, None);
        proof {
            assert(other_clip(self.new_clip.id, None) == |c: ClipView| c.id != self.new_clip.id);
        }
    }

    /// Law: duplicating into a fresh id and undoing restores the project.
    pub proof fn lemma_revert_undoes_apply(&self, p: ProjectView)
        requires
            lacks_clip(p.clips, self.new_clip.id),
        ensures
            self.reverted(self.applied(p)) == p,
    {
        lemma_add_then_remove(p.clips, self.new_clip@);
    }
}

// ---------------------------------------------------------------------------
// Editing the notes of one clip
// ---------------------------------------------------------------------------

/// The clip list with the first clip of this id transformed by `f`.
pub open spec fn clips_edited(clips: Seq<ClipView>, id: ClipId, f: spec_fn(ClipView) -> ClipView) -> Seq<ClipView> {
    match clip_pos(clips, id) {
        Some(i) => clips.update(i, f(clips[i])),
        None => clips,
    }
}

/// Position of the first note with this id.
pub open spec fn note_pos(notes: Seq<Note>, id: NoteId) -> Option<int> {
    first_match(notes, |n: Note| n.id == id)
}

/// Exactly one note has this id.
pub open spec fn note_id_unique(notes: Seq<Note>, id: NoteId) -> bool {
    exists|k: int| 0 <= k < notes.len() && notes[k].id == id
        && forall|j: int| 0 <= j < notes.len() && j != k ==> notes[j].id != id
}

pub proof fn lemma_note_pos_facts(notes: Seq<Note>, id: NoteId)
    ensures
        match note_pos(notes, id) {
            Some(k) => is_first_match(notes, |n: Note| n.id == id, k),
            None => forall|j: int| 0 <= j < notes.len() ==> notes[j].id != id,
        },
{
    let p = |n: Note| n.id == id;
    if exists|i: int| 0 <= i < notes.len() && p(notes[i]) {
        let w = lemma_some_first_match(notes, p);
        lemma_first_match(notes, p, w);
    }
}

/// Position of the first note with this id in a note list.
pub fn find_note(notes: &Vec<Note>, id: NoteId) -> (r: Option<usize>)
    ensures
        match r {
            Some(k) => k < notes@.len() && notes@[k as int].id == id && note_pos(notes@, id) == Some(k as int),
            None => note_pos(notes@, id) == None::<int>,
        },
{
    let n = notes.len();
    for k in 0..n
        invariant
            n == notes@.len(),
            forall|j: int| 0 <= j < k ==> notes@[j].id != id,
    {
        if notes[k].id == id {
            proof {
                lemma_first_match(notes@, |x: Note| x.id == id, k as int);
            }
            return Some(k);
        }
    }
    proof {
        lemma_no_match(notes@, |x: Note| x.id == id);
    }
    None
}

/// With a unique id, replacing by id is replacing at its position.
pub proof fn lemma_replace_unique(notes: Seq<Note>, k: int, u: Note)
    requires
        0 <= k < notes.len(),
        notes[k].id == u.id,
        forall|j: int| 0 <= j < notes.len() && j != k ==> notes[j].id != u.id,
    ensures
        notes_replaced(notes, u) == notes.update(k, u),
{
    assert(notes_replaced(notes, u) =~= notes.update(k, u));
}

// ---------------------------------------------------------------------------
// 6. AddNoteAction
// ---------------------------------------------------------------------------

pub struct AddNoteAction {
    pub clip_id: ClipId,
    pub note: Note,
}

/// The clip with a note added, notes in start order.
pub open spec fn note_added(note: Note) -> spec_fn(ClipView) -> ClipView {
    |c: ClipView| with_notes(c, sort_by_start(c.notes.push(note)))
}

/// The clip with every note of this id removed.
pub open spec fn note_removed(id: NoteId) -> spec_fn(ClipView) -> ClipView {
    |c: ClipView| with_notes(c, notes_without(c.notes, id))
}

/// One engine command when the clip exists, none otherwise.
pub open spec fn if_clip(clips: Seq<ClipView>, id: ClipId, cmd: EngineCommand) -> Seq<EngineCommand> {
    if clip_pos(clips, id) is Some {
        seq![cmd]
    } else {
        Seq::empty()
    }
}

impl Project {
    /// Apply `with_note_added` to the clip at `i`.
    fn add_note_at(&mut self, i: usize, note: Note)
        requires
            i < old(self).clips@.len(),
        ensures
            final(self)@ == with_clips(old(self)@, old(self)@.clips.update(i as int, note_added(note)(old(self)@.clips[i as int]))),
    {
        let c = self.clips[i].with_note_added(note);
        self.set_clip(i, c);
    }

    /// Apply `with_note_removed` to the clip at `i`.
    fn remove_note_at(&mut self, i: usize, id: NoteId)
        requires
            i < old(self).clips@.len(),
        ensures
            final(self)@ == with_clips(old(self)@, old(self)@.clips.update(i as int, note_removed(id)(old(self)@.clips[i as int]))),
    {
        let c = self.clips[i].with_note_removed(id);
        self.set_clip(i, c);
    }
}

impl AddNoteAction {
    pub fn description(&self) -> (r: &'static str)
        ensures
            r@ == "Add Note"@,
    {
        "Add Note"
    }

    pub open spec fn applied(&self, p: ProjectView) -> ProjectView {
        with_clips(p, clips_edited(p.clips, self.clip_id, note_added(self.note)))
    }

    pub open spec fn apply_commands(&self, p: ProjectView) -> Seq<EngineCommand> {
        if_clip(p.clips, self.clip_id, EngineCommand::AddNote { clip_id: self.clip_id, note: self.note })
    }

    pub open spec fn reverted(&self, p: ProjectView) -> ProjectView {
        with_clips(p, clips_edited(p.clips, self.clip_id, note_removed(self.note.id)))
    }

    pub open spec fn revert_commands(&self, p: ProjectView) -> Seq<EngineCommand> {
        if_clip(p.clips, self.clip_id, EngineCommand::RemoveNote { clip_id: self.clip_id, note_id: self.note.id })
    }

    pub fn apply(&self, state: &mut Project) -> (cmds: Vec<EngineCommand>)
        ensures
            final(state)@ == self.applied(old(state)@),
            cmds@ == self.apply_commands(old(state)@),
    {
        let mut cmds: Vec<EngineCommand> = Vec::new();
        if let Some(i) = state.clip_index(self.clip_id) {
            state.add_note_at(i, self.note);
            cmds.push(EngineCommand::AddNote { clip_id: self.clip_id, note: self.note });
        }
        proof {
            assert(cmds@ =~= self.apply_commands(old(state)@));
        }
        cmds
    }

    pub fn revert(&self, state: &mut Project) -> (cmds: Vec<EngineCommand>)
        ensures
            final(state)@ == self.reverted(old(state)@),
            cmds@ == self.revert_commands(old(state)@),
    {
        let mut cmds: Vec<EngineCommand> = Vec::new();
        if let Some(i) = state.clip_index(self.clip_id) {
            state.remove_note_at(i, self.note.id);
            cmds.push(EngineCommand::RemoveNote { clip_id: self.clip_id, note_id: self.note.id });
        }
        proof {
            assert(cmds@ =~= self.revert_commands(old(state)@));
        }
        cmds
    }

    /// Law: adding a note with a new id to a clip whose notes are in start
    /// order, then undoing, restores the project.
    pub proof fn lemma_revert_undoes_apply(&self, p: ProjectView)
        requires
            clip_pos(p.clips, self.clip_id) matches Some(i)
                && sorted_by_start(p.clips[i].notes)
                && (forall|k: int| 0 <= k < p.clips[i].notes.len() ==> p.clips[i].notes[k].id != self.note.id),
        ensures
            self.reverted(self.applied(p)) == p,
    {
        let i = clip_pos(p.clips, self.clip_id)->0;
        lemma_clip_pos_facts(p.clips, self.clip_id);
        let c = p.clips[i];
        let c2 = note_added(self.note)(c);
        lemma_clip_pos_after_update(p.clips, self.clip_id, c2);
        lemma_sort_of_sorted(c.notes);
        assert(c.notes.push(self.note).drop_last() == c.notes);
        assert(sort_by_start(c.notes.push(self.note)) == insert_by_start(c.notes, self.note));
        lemma_insert_then_remove(c.notes, self.note);
        assert(note_removed(self.note.id)(c2) == c);
        assert(p.clips.update(i, c2).update(i, c) =~= p.clips);
    }
}

// ---------------------------------------------------------------------------
// 7. RemoveNoteAction
// ---------------------------------------------------------------------------

pub struct RemoveNoteAction {
    pub clip_id: ClipId,
    pub note: Note,
}

impl RemoveNoteAction {
    pub fn description(&self) -> (r: &'static str)
        ensures
            r@ == "Remove Note"@,
    {
        "Remove Note"
    }

    pub open spec fn applied(&self, p: ProjectView) -> ProjectView {
        with_clips(p, clips_edited(p.clips, self.clip_id, note_removed(self.note.id)))
    }

    pub open spec fn apply_commands(&self, p: ProjectView) -> Seq<EngineCommand> {
        if_clip(p.clips, self.clip_id, EngineCommand::RemoveNote { clip_id: self.clip_id, note_id: self.note.id })
    }

    pub open spec fn reverted(&self, p: ProjectView) -> ProjectView {
        with_clips(p, clips_edited(p.clips, self.clip_id, note_added(self.note)))
    }

    pub open spec fn revert_commands(&self, p: ProjectView) -> Seq<EngineCommand> {
        if_clip(p.clips, self.clip_id, EngineCommand::AddNote { clip_id: self.clip_id, note: self.note })
    }

    pub fn apply(&self, state: &mut Project) -> (cmds: Vec<EngineCommand>)
        ensures
            final(state)@ == self.applied(old(state)@),
            cmds@ == self.apply_commands(old(state)@),
    {
        let mut cmds: Vec<EngineCommand> = Vec::new();
        if let Some(i) = state.clip_index(self.clip_id) {
            state.remove_note_at(i, self.note.id);
            cmds.push(EngineCommand::RemoveNote { clip_id: self.clip_id, note_id: self.note.id });
        }
        proof {
            assert(cmds@ =~= self.apply_commands(old(state)@));
        }
        cmds
    }

    pub fn revert(&self, state: &mut Project) -> (cmds: Vec<EngineCommand>)
        ensures
            final(state)@ == self.reverted(old(state)@),
            cmds@ == self.revert_commands(old(state)@),
    {
        let mut cmds: Vec<EngineCommand> = Vec::new();
        if let Some(i) = state.clip_index(self.clip_id) {
            state.add_note_at(i, self.note);
            cmds.push(EngineCommand::AddNote { clip_id: self.clip_id, note: self.note });
        }
        proof {
            assert(cmds@ =~= self.revert_commands(old(state)@));
        }
        cmds
    }

    /// Law: removing a clip's only note with this id (equal to the stored
    /// note) and undoing leaves every other clip as it was and gives that
    /// clip the same notes, in start order.
    pub proof fn lemma_revert_undoes_apply(&self, p: ProjectView)
        requires
            clip_pos(p.clips, self.clip_id) matches Some(i)
                && (exists|k: int| 0 <= k < p.clips[i].notes.len() && p.clips[i].notes[k] == self.note
                    && forall|j: int| 0 <= j < p.clips[i].notes.len() && j != k ==> p.clips[i].notes[j].id != self.note.id),
        ensures
            ({
                let q = self.reverted(self.applied(p));
                let i = clip_pos(p.clips, self.clip_id)->0;
                &&& q.tracks == p.tracks
                &&& q.clips == p.clips.update(i, with_notes(p.clips[i], q.clips[i].notes))
                &&& q.clips[i].notes.to_multiset() == p.clips[i].notes.to_multiset()
                &&& sorted_by_start(q.clips[i].notes)
            }),
    {
        let i = clip_pos(p.clips, self.clip_id)->0;
        lemma_clip_pos_facts(p.clips, self.clip_id);
        let c = p.clips[i];
        let c2 = note_removed(self.note.id)(c);
        lemma_clip_pos_after_update(p.clips, self.clip_id, c2);
        let k = choose|k: int| 0 <= k < c.notes.len() && c.notes[k] == self.note
            && forall|j: int| 0 <= j < c.notes.len() && j != k ==> c.notes[j].id != self.note.id;
        crate::seq_facts::lemma_remove_one_then_push(c.notes, |n: Note| n.id != self.note.id, k);
        lemma_sort_sorted(c2.notes.push(self.note));
        let q = self.reverted(self.applied(p));
        assert(q.clips =~= p.clips.update(i, with_notes(p.clips[i], q.clips[i].notes)));
    }
}

// ---------------------------------------------------------------------------
// 8. MoveNoteAction
// ---------------------------------------------------------------------------

pub struct MoveNoteAction {
    pub clip_id: ClipId,
    pub note_id: NoteId,
    pub old_start: i64,
    pub old_pitch: u8,
    pub new_start: i64,
    pub new_pitch: u8,
}

/// Result of editing one note of one clip: the new clip list and whether the
/// note was found.
pub open spec fn note_edit(clips: Seq<ClipView>, cid: ClipId, nid: NoteId, f: spec_fn(Note) -> Note) -> Option<Seq<ClipView>> {
    match clip_pos(clips, cid) {
        Some(i) => match note_pos(clips[i].notes, nid) {
            Some(k) => Some(clips.update(
                i,
                with_notes(clips[i], notes_replaced(clips[i].notes, f(clips[i].notes[k]))),
            )),
            None => None,
        },
        None => None,
    }
}

/// A note placed at a new start and pitch.
pub open spec fn placed(start: i64, pitch: u8) -> spec_fn(Note) -> Note {
    |n: Note| Note { start_tick: start, pitch, ..n }
}

/// A note with a new length.
pub open spec fn resized(duration: i64) -> spec_fn(Note) -> Note {
    |n: Note| Note { duration_ticks: duration, ..n }
}

/// A note with a new velocity.
pub open spec fn with_velocity(velocity: u8) -> spec_fn(Note) -> Note {
    |n: Note| Note { velocity, ..n }
}

/// The project after editing one note (unchanged when clip or note is missing).
pub open spec fn project_note_edit(p: ProjectView, cid: ClipId, nid: NoteId, f: spec_fn(Note) -> Note) -> ProjectView {
    match note_edit(p.clips, cid, nid, f) {
        Some(clips) => with_clips(p, clips),
        None => p,
    }
}

/// A change to one note.
#[derive(Clone, Copy)]
pub enum NoteEdit {
    Place { start: i64, pitch: u8 },
    Resize { duration: i64 },
    Velocity { velocity: u8 },
}

/// The note transformation a change stands for.
pub open spec fn edit_fn(e: NoteEdit) -> spec_fn(Note) -> Note {
    match e {
        NoteEdit::Place { start, pitch } => placed(start, pitch),
        NoteEdit::Resize { duration } => resized(duration),
        NoteEdit::Velocity { velocity } => with_velocity(velocity),
    }
}

impl Project {
    /// Replace every note of `nid` in the first clip of `cid` by the first
    /// such note with `e` applied; returns whether it was found.
    pub fn edit_note(&mut self, cid: ClipId, nid: NoteId, e: NoteEdit) -> (found: bool)
        ensures
            found == (note_edit(old(self)@.clips, cid, nid, edit_fn(e)) is Some),
            final(self)@ == project_note_edit(old(self)@, cid, nid, edit_fn(e)),
    {
        if let Some(i) = self.clip_index(cid) {
            if let Some(k) = find_note(&self.clips[i].notes, nid) {
                let n = self.clips[i].notes[k];
                let updated = match e {
                    NoteEdit::Place { start, pitch } => Note { start_tick: start, pitch, ..n },
                    NoteEdit::Resize { duration } => Note { duration_ticks: duration, ..n },
                    NoteEdit::Velocity { velocity } => Note { velocity, ..n },
                };
                let c = self.clips[i].with_note_updated(updated);
                self.set_clip(i, c);
                return true;
            }
        }
        false
    }
}

/// Editing a note with a unique id by `f` and then by `g` restores the
/// project when `g` undoes `f` on that note.
pub proof fn lemma_note_edit_round_trip(p: ProjectView, cid: ClipId, nid: NoteId, f: spec_fn(Note) -> Note, g: spec_fn(Note) -> Note)
    requires
        clip_pos(p.clips, cid) matches Some(i) && note_id_unique(p.clips[i].notes, nid)
            && ({
                let n = p.clips[i].notes[note_pos(p.clips[i].notes, nid)->0];
                f(n).id == nid && g(f(n)) == n
            }),
    ensures
        project_note_edit(project_note_edit(p, cid, nid, f), cid, nid, g) == p,
{
    let i = clip_pos(p.clips, cid)->0;
    lemma_clip_pos_facts(p.clips, cid);
    let c = p.clips[i];
    lemma_note_pos_facts(c.notes, nid);
    let k = note_pos(c.notes, nid)->0;
    let n = c.notes[k];
    assert forall|j: int| 0 <= j < c.notes.len() && j != k implies c.notes[j].id != nid by {
        let w = choose|w: int| 0 <= w < c.notes.len() && c.notes[w].id == nid
            && forall|j2: int| 0 <= j2 < c.notes.len() && j2 != w ==> c.notes[j2].id != nid;
        assert(w == k);
    }
    lemma_replace_unique(c.notes, k, f(n));
    let notes1 = c.notes.update(k, f(n));
    let c1 = with_notes(c, notes1);
    lemma_clip_pos_after_update(p.clips, cid, c1);
    let clips1 = p.clips.update(i, c1);
    assert(clips1[i] == c1);
    assert(is_first_match(notes1, |x: Note| x.id == nid, k));
    lemma_first_match(notes1, |x: Note| x.id == nid, k);
    lemma_replace_unique(notes1, k, g(f(n)));
    assert(notes1.update(k, n) =~= c.notes);
    assert(with_notes(c1, c.notes) == c);
    assert(clips1.update(i, c) =~= p.clips);
}

impl MoveNoteAction {
    pub fn description(&self) -> (r: &'static str)
        ensures
            r@ == "Move Note"@,
    {
        "Move Note"
    }

    pub open spec fn applied(&self, p: ProjectView) -> ProjectView {
        project_note_edit(p, self.clip_id, self.note_id, placed(self.new_start, self.new_pitch))
    }

    pub open spec fn reverted(&self, p: ProjectView) -> ProjectView {
        project_note_edit(p, self.clip_id, self.note_id, placed(self.old_start, self.old_pitch))
    }

    /// The engine is told of the move when the note was found.
    pub open spec fn commands_for(&self, p: ProjectView, start: i64, pitch: u8) -> Seq<EngineCommand> {
        if note_edit(p.clips, self.clip_id, self.note_id, placed(start, pitch)) is Some {
            seq![EngineCommand::MoveNote { clip_id: self.clip_id, note_id: self.note_id, new_start: start, new_pitch: pitch }]
        } else {
            Seq::empty()
        }
    }

    fn apply_values(&self, state: &mut Project, start: i64, pitch: u8) -> (cmds: Vec<EngineCommand>)
        ensures
            final(state)@ == project_note_edit(old(state)@, self.clip_id, self.note_id, placed(start, pitch)),
            cmds@ == self.commands_for(old(state)@, start, pitch),
    {
        let mut cmds: Vec<EngineCommand> = Vec::new();
        let found = state.edit_note(self.clip_id, self.note_id, NoteEdit::Place { start, pitch });
        if found {
            cmds.push(EngineCommand::MoveNote { clip_id: self.clip_id, note_id: self.note_id, new_start: start, new_pitch: pitch });
        }
        proof {
            assert(cmds@ =~= self.commands_for(old(state)@, start, pitch));
        }
        cmds
    }

    pub fn apply(&self, state: &mut Project) -> (cmds: Vec<EngineCommand>)
        ensures
            final(state)@ == self.applied(old(state)@),
            cmds@ == self.commands_for(old(state)@, self.new_start, self.new_pitch),
    {
        self.apply_values(state, self.new_start, self.new_pitch)
    }

    pub fn revert(&self, state: &mut Project) -> (cmds: Vec<EngineCommand>)
        ensures
            final(state)@ == self.reverted(old(state)@),
            cmds@ == self.commands_for(old(state)@, self.old_start, self.old_pitch),
    {
        self.apply_values(state, self.old_start, self.old_pitch)
    }

    /// Law: moving a note whose id is unique in its clip, from its recorded
    /// old position, and moving it back restores the project.
    pub proof fn lemma_revert_undoes_apply(&self, p: ProjectView)
        requires
            clip_pos(p.clips, self.clip_id) matches Some(i) && note_id_unique(p.clips[i].notes, self.note_id)
                && ({
                    let n = p.clips[i].notes[note_pos(p.clips[i].notes, self.note_id)->0];
                    n.start_tick == self.old_start && n.pitch == self.old_pitch
                }),
        ensures
            self.reverted(self.applied(p)) == p,
    {
        let i = clip_pos(p.clips, self.clip_id)->0;
        lemma_note_pos_facts(p.clips[i].notes, self.note_id);
        lemma_note_edit_round_trip(p, self.clip_id, self.note_id, placed(self.new_start, self.new_pitch), placed(self.old_start, self.old_pitch));
    }
}

// ---------------------------------------------------------------------------
// 9. ResizeNoteAction
// ---------------------------------------------------------------------------

pub struct ResizeNoteAction {
    pub clip_id: ClipId,
    pub note_id: NoteId,
    pub old_duration: i64,
    pub new_duration: i64,
}

impl ResizeNoteAction {
    pub fn description(&self) -> (r: &'static str)
        ensures
            r@ == "Resize Note"@,
    {
        "Resize Note"
    }

    pub open spec fn applied(&self, p: ProjectView) -> ProjectView {
        project_note_edit(p, self.clip_id, self.note_id, resized(self.new_duration))
    }

    pub open spec fn reverted(&self, p: ProjectView) -> ProjectView {
        project_note_edit(p, self.clip_id, self.note_id, resized(self.old_duration))
    }

    /// The engine is told of the new length when the note was found.
    pub open spec fn commands_for(&self, p: ProjectView, duration: i64) -> Seq<EngineCommand> {
        if note_edit(p.clips, self.clip_id, self.note_id, resized(duration)) is Some {
            seq![EngineCommand::ResizeNote { clip_id: self.clip_id, note_id: self.note_id, new_duration: duration }]
        } else {
            Seq::empty()
        }
    }

    fn apply_duration(&self, state: &mut Project, duration: i64) -> (cmds: Vec<EngineCommand>)
        ensures
            final(state)@ == project_note_edit(old(state)@, self.clip_id, self.note_id, resized(duration)),
            cmds@ == self.commands_for(old(state)@, duration),
    {
        let mut cmds: Vec<EngineCommand> = Vec::new();
        let found = state.edit_note(self.clip_id, self.note_id, NoteEdit::Resize { duration });
        if found {
            cmds.push(EngineCommand::ResizeNote { clip_id: self.clip_id, note_id: self.note_id, new_duration: duration });
        }
        proof {
            assert(cmds@ =~= self.commands_for(old(state)@, duration));
        }
        cmds
    }

    pub fn apply(&self, state: &mut Project) -> (cmds: Vec<EngineCommand>)
        ensures
            final(state)@ == self.applied(old(state)@),
            cmds@ == self.commands_for(old(state)@, self.new_duration),
    {
        self.apply_duration(state, self.new_duration)
    }

    pub fn revert(&self, state: &mut Project) -> (cmds: Vec<EngineCommand>)
        ensures
            final(state)@ == self.reverted(old(state)@),
            cmds@ == self.commands_for(old(state)@, self.old_duration),
    {
        self.apply_duration(state, self.old_duration)
    }

    /// Law: resizing a note whose id is unique in its clip, from its recorded
    /// old length, and resizing it back restores the project.
    pub proof fn lemma_revert_undoes_apply(&self, p: ProjectView)
        requires
            clip_pos(p.clips, self.clip_id) matches Some(i) && note_id_unique(p.clips[i].notes, self.note_id)
                && p.clips[i].notes[note_pos(p.clips[i].notes, self.note_id)->0].duration_ticks == self.old_duration,
        ensures
            self.reverted(self.applied(p)) == p,
    {
        let i = clip_pos(p.clips, self.clip_id)->0;
        lemma_note_pos_facts(p.clips[i].notes, self.note_id);
        lemma_note_edit_round_trip(p, self.clip_id, self.note_id, resized(self.new_duration), resized(self.old_duration));
    }
}

// ---------------------------------------------------------------------------
// Track edits
// ---------------------------------------------------------------------------

/// The track list with the first track of this id transformed by `f`.
pub open spec fn tracks_edited(tracks: Seq<TrackView>, id: TrackId, f: spec_fn(TrackView) -> TrackView) -> Seq<TrackView> {
    match track_pos(tracks, id) {
        Some(i) => tracks.update(i, f(tracks[i])),
        None => tracks,
    }
}

/// A track with a new gain.
pub open spec fn volume_set(bits: u32) -> spec_fn(TrackView) -> TrackView {
    |t: TrackView| TrackView { volume_bits: bits, ..t }
}

/// A track with a new name.
pub open spec fn renamed(name: Seq<char>) -> spec_fn(TrackView) -> TrackView {
    |t: TrackView| TrackView { name, ..t }
}

/// Clips not on the given track.
pub open spec fn off_track(t: TrackId) -> spec_fn(ClipView) -> bool {
    |c: ClipView| c.track_id != t
}

/// Transforming the first track of an id twice, where the second change
/// undoes the first on it, restores the list.
pub proof fn lemma_track_edit_round_trip(tracks: Seq<TrackView>, id: TrackId, f: spec_fn(TrackView) -> TrackView, g: spec_fn(TrackView) -> TrackView)
    requires
        track_pos(tracks, id) matches Some(i) && f(tracks[i]).id == id && g(f(tracks[i])) == tracks[i],
    ensures
        tracks_edited(tracks_edited(tracks, id, f), id, g) == tracks,
{
    let i = track_pos(tracks, id)->0;
    lemma_track_pos_facts(tracks, id);
    lemma_track_pos_after_update(tracks, id, f(tracks[i]));
    assert(tracks.update(i, f(tracks[i])).update(i, tracks[i]) =~= tracks);
}

impl Project {
    /// Append a track.
    pub fn push_track(&mut self, t: TrackState)
        ensures
            final(self)@ == with_tracks(old(self)@, old(self)@.tracks.push(t@)),
    {
        self.tracks.push(t);
        proof {
            assert(tracks_view(self.tracks@) =~= tracks_view(old(self).tracks@).push(t@));
        }
    }

    /// Insert a track at position `i`.
    pub fn insert_track(&mut self, i: usize, t: TrackState)
        requires
            i <= old(self).tracks@.len(),
        ensures
            final(self)@ == with_tracks(old(self)@, old(self)@.tracks.insert(i as int, t@)),
    {
        self.tracks.insert(i, t);
        proof {
            assert(tracks_view(self.tracks@) =~= tracks_view(old(self).tracks@).insert(i as int, t@));
        }
    }

    /// Drop every track with this id.
    pub fn remove_tracks_with_id(&mut self, id: TrackId)
        ensures
            final(self)@ == with_tracks(old(self)@, tracks_without(old(self)@.tracks, id)),
    {
        let ghost pred = |t: TrackView| t.id != id;
        let ghost orig = tracks_view(self.tracks@);
        let mut out: Vec<TrackState> = Vec::new();
        let n = self.tracks.len();
        let mut i: usize = 0;
        while i < n
            invariant
                n == self.tracks@.len(),
                i <= n,
                orig == tracks_view(self.tracks@),
                pred == (|t: TrackView| t.id != id),
                tracks_view(out@) == orig.take(i as int).filter(pred),
            decreases n - i,
        {
            proof {
                assert(orig.take(i as int + 1) == orig.take(i as int).push(orig[i as int]));
                orig.take(i as int).lemma_filter_push(orig[i as int], pred);
            }
            if self.tracks[i].id != id {
                let ghost before = out@;
                out.push(self.tracks[i].clone());
                proof {
                    assert(tracks_view(out@) =~= tracks_view(before).push(orig[i as int]));
                }
            }
            i = i + 1;
        }
        proof {
            assert(orig.take(n as int) == orig);
        }
        self.tracks = out;
    }

    /// Drop every clip on this track.
    pub fn remove_clips_on_track(&mut self, id: TrackId)
        ensures
            final(self)@ == with_clips(old(self)@, old(self)@.clips.filter(off_track(id))),
    {
        let ghost pred = off_track(id);
        let ghost orig = clips_view(self.clips@);
        let mut out: Vec<ClipState> = Vec::new();
        let n = self.clips.len();
        let mut i: usize = 0;
        while i < n
            invariant
                n == self.clips@.len(),
                i <= n,
                orig == clips_view(self.clips@),
                pred == off_track(id),
                clips_view(out@) == orig.take(i as int).filter(pred),
            decreases n - i,
        {
            proof {
                assert(orig.take(i as int + 1) == orig.take(i as int).push(orig[i as int]));
                orig.take(i as int).lemma_filter_push(orig[i as int], pred);
            }
            if self.clips[i].track_id != id {
                let ghost before = out@;
                out.push(self.clips[i].clone());
                proof {
                    assert(clips_view(out@) =~= clips_view(before).push(orig[i as int]));
                }
            }
            i = i + 1;
        }
        proof {
            assert(orig.take(n as int) == orig);
        }
        self.clips = out;
    }
}

// ---------------------------------------------------------------------------
// 10. SetTrackVolumeAction
// ---------------------------------------------------------------------------

/// Changes a track's gain (carried as the bit pattern of its
/// single-precision value).
pub struct SetTrackVolumeAction {
    pub track_id: TrackId,
    pub old_volume_bits: u32,
    pub new_volume_bits: u32,
}

impl SetTrackVolumeAction {
    pub fn description(&self) -> (r: &'static str)
        ensures
            r@ == "Set Track Volume"@,
    {
        "Set Track Volume"
    }

    pub open spec fn applied(&self, p: ProjectView) -> ProjectView {
        with_tracks(p, tracks_edited(p.tracks, self.track_id, volume_set(self.new_volume_bits)))
    }

    pub open spec fn reverted(&self, p: ProjectView) -> ProjectView {
        with_tracks(p, tracks_edited(p.tracks, self.track_id, volume_set(self.old_volume_bits)))
    }

    /// The engine hears of the gain when the track exists.
    pub open spec fn commands_for(&self, p: ProjectView, bits: u32) -> Seq<EngineCommand> {
        if track_pos(p.tracks, self.track_id) is Some {
            seq![EngineCommand::SetTrackVolume { track_id: self.track_id, volume_bits: bits }]
        } else {
            Seq::empty()
        }
    }

    fn apply_volume(&self, state: &mut Project, bits: u32) -> (cmds: Vec<EngineCommand>)
        ensures
            final(state)@ == with_tracks(old(state)@, tracks_edited(old(state)@.tracks, self.track_id, volume_set(bits))),
            cmds@ == self.commands_for(old(state)@, bits),
    {
        let mut cmds: Vec<EngineCommand> = Vec::new();
        if let Some(i) = state.track_index(self.track_id) {
            let mut t = state.tracks[i].clone();
            t.volume_bits = bits;
            state.set_track(i, t);
            cmds.push(EngineCommand::SetTrackVolume { track_id: self.track_id, volume_bits: bits });
        }
        proof {
            assert(cmds@ =~= self.commands_for(old(state)@, bits));
        }
        cmds
    }

    pub fn apply(&self, state: &mut Project) -> (cmds: Vec<EngineCommand>)
        ensures
            final(state)@ == self.applied(old(state)@),
            cmds@ == self.commands_for(old(state)@, self.new_volume_bits),
    {
        self.apply_volume(state, self.new_volume_bits)
    }

    pub fn revert(&self, state: &mut Project) -> (cmds: Vec<EngineCommand>)
        ensures
            final(state)@ == self.reverted(old(state)@),
            cmds@ == self.commands_for(old(state)@, self.old_volume_bits),
    {
        self.apply_volume(state, self.old_volume_bits)
    }

    /// Law: setting the gain of a track from its recorded old value and
    /// setting it back restores the project.
    pub proof fn lemma_revert_undoes_apply(&self, p: ProjectView)
        requires
            track_pos(p.tracks, self.track_id) matches Some(i) && p.tracks[i].volume_bits == self.old_volume_bits,
        ensures
            self.reverted(self.applied(p)) == p,
    {
        lemma_track_pos_facts(p.tracks, self.track_id);
        lemma_track_edit_round_trip(p.tracks, self.track_id, volume_set(self.new_volume_bits), volume_set(self.old_volume_bits));
    }
}

// ---------------------------------------------------------------------------
// 11. AddTrackAction
// ---------------------------------------------------------------------------

pub struct AddTrackAction {
    pub track: TrackState,
}

impl AddTrackAction {
    pub fn description(&self) -> (r: &'static str)
        ensures
            r@ == "Add Track"@,
    {
        "Add Track"
    }

    pub open spec fn applied(&self, p: ProjectView) -> ProjectView {
        with_tracks(p, p.tracks.push(self.track@))
    }

    pub open spec fn reverted(&self, p: ProjectView) -> ProjectView {
        with_tracks(p, tracks_without(p.tracks, self.track.id))
    }

    pub fn apply(&self, state: &mut Project)
        ensures
            final(state)@ == self.applied(old(state)@),
    {
        state.push_track(self.track.clone());
    }

    pub fn revert(&self, state: &mut Project)
        ensures
            final(state)@ == self.reverted(old(state)@),
    {
        state.remove_tracks_with_id(self.track.id);
    }

    /// Law: adding a track with an unused id and undoing restores the project.
    pub proof fn lemma_revert_undoes_apply(&self, p: ProjectView)
        requires
            forall|i: int| 0 <= i < p.tracks.len() ==> p.tracks[i].id != self.track.id,
        ensures
            self.reverted(self.applied(p)) == p,
    {
        let pr = |t: TrackView| t.id != self.track.id;
        lemma_filter_all(p.tracks, pr);
        p.tracks.lemma_filter_push(self.track@, pr);
    }
}

// ---------------------------------------------------------------------------
// 12. RemoveTrackAction
// ---------------------------------------------------------------------------

pub struct RemoveTrackAction {
    pub track: TrackState,
    pub clips: Vec<ClipState>,
    pub track_index: usize,
}

impl RemoveTrackAction {
    pub fn description(&self) -> (r: &'static str)
        ensures
            r@ == "Remove Track"@,
    {
        "Remove Track"
    }

    pub open spec fn applied(&self, p: ProjectView) -> ProjectView {
        ProjectView {
            tracks: tracks_without(p.tracks, self.track.id),
            clips: p.clips.filter(off_track(self.track.id)),
        }
    }

    pub open spec fn reverted(&self, p: ProjectView) -> ProjectView {
        let idx = if self.track_index < p.tracks.len() { self.track_index as int } else { p.tracks.len() as int };
        ProjectView {
            tracks: p.tracks.insert(idx, self.track@),
            clips: p.clips + clips_view(self.clips@),
        }
    }

    pub fn apply(&self, state: &mut Project)
        ensures
            final(state)@ == self.applied(old(state)@),
    {
        state.remove_tracks_with_id(self.track.id);
        state.remove_clips_on_track(self.track.id);
    }

    pub fn revert(&self, state: &mut Project)
        ensures
            final(state)@ == self.reverted(old(state)@),
    {
        let idx = if self.track_index < state.tracks.len() { self.track_index } else { state.tracks.len() };
        state.insert_track(idx, self.track.clone());
        let ghost base = state@.clips;
        let n = self.clips.len();
        for i in 0..n
            invariant
                n == self.clips@.len(),
                state@.tracks == old(state)@.tracks.insert(idx as int, self.track@),
                state@.clips == base + clips_view(self.clips@).take(i as int),
                base == old(state)@.clips,
        {
            state.push_clip(self.clips[i].clone());
            proof {
                assert(clips_view(self.clips@).take(i as int + 1) == clips_view(self.clips@).take(i as int).push(self.clips@[i as int]@));
                assert(state@.clips =~= base + clips_view(self.clips@).take(i as int + 1));
            }
        }
        proof {
            assert(clips_view(self.clips@).take(n as int) == clips_view(self.clips@));
        }
    }

    /// Law: removing a track that sits at the recorded index (the only track
    /// with its id), with the recorded clips being exactly its clips, and
    /// undoing restores the track list and the clips up to order.
    pub proof fn lemma_revert_undoes_apply(&self, p: ProjectView)
        requires
            self.track_index < p.tracks.len(),
            p.tracks[self.track_index as int] == self.track@,
            forall|j: int| 0 <= j < p.tracks.len() && j != self.track_index ==> p.tracks[j].id != self.track.id,
            clips_view(self.clips@) == p.clips.filter(on_track(self.track.id)),
        ensures
            same_up_to_clip_order(self.reverted(self.applied(p)), p),
    {
        let i = self.track_index as int;
        let pr = |t: TrackView| t.id != self.track.id;
        lemma_filter_one_out(p.tracks, pr, i);
        let rest = p.tracks.take(i) + p.tracks.skip(i + 1);
        assert(rest.insert(i, self.track@) =~= p.tracks);
        assert(tracks_without(p.tracks, self.track.id) == rest);
        assert(rest.len() == p.tracks.len() - 1);
        let q = self.reverted(self.applied(p));
        assert(q.tracks == p.tracks);
        let on = on_track(self.track.id);
        lemma_filter_partition(p.clips, on);
        assert((|x: ClipView| !on(x)) =~= off_track(self.track.id));
        assert(p.clips.filter(|x: ClipView| !on(x)) == p.clips.filter(off_track(self.track.id)));
        vstd::seq_lib::lemma_multiset_commutative(p.clips.filter(off_track(self.track.id)), clips_view(self.clips@));
        assert(q.clips == p.clips.filter(off_track(self.track.id)) + clips_view(self.clips@));
        let a = p.clips.filter(off_track(self.track.id)).to_multiset();
        let b = p.clips.filter(on).to_multiset();
        assert(a.add(b) =~= b.add(a));
    }
}

// ---------------------------------------------------------------------------
// 13. RenameTrackAction
// ---------------------------------------------------------------------------

pub struct RenameTrackAction {
    pub track_id: TrackId,
    pub old_name: String,
    pub new_name: String,
}

impl RenameTrackAction {
    pub fn description(&self) -> (r: &'static str)
        ensures
            r@ == "Rename Track"@,
    {
        "Rename Track"
    }

    pub open spec fn applied(&self, p: ProjectView) -> ProjectView {
        with_tracks(p, tracks_edited(p.tracks, self.track_id, renamed(self.new_name@)))
    }

    pub open spec fn reverted(&self, p: ProjectView) -> ProjectView {
        with_tracks(p, tracks_edited(p.tracks, self.track_id, renamed(self.old_name@)))
    }

    fn rename(&self, state: &mut Project, name: &String)
        ensures
            final(state)@ == with_tracks(old(state)@, tracks_edited(old(state)@.tracks, self.track_id, renamed(name@))),
    {
        if let Some(i) = state.track_index(self.track_id) {
            let mut t = state.tracks[i].clone();
            t.name = name.clone();
            state.set_track(i, t);
        }
    }

    pub fn apply(&self, state: &mut Project)
        ensures
            final(state)@ == self.applied(old(state)@),
    {
        self.rename(state, &self.new_name);
    }

    pub fn revert(&self, state: &mut Project)
        ensures
            final(state)@ == self.reverted(old(state)@),
    {
        self.rename(state, &self.old_name);
    }

    /// Law: renaming a track from its recorded old name and back restores the
    /// project.
    pub proof fn lemma_revert_undoes_apply(&self, p: ProjectView)
        requires
            track_pos(p.tracks, self.track_id) matches Some(i) && p.tracks[i].name == self.old_name@,
        ensures
            self.reverted(self.applied(p)) == p,
    {
        lemma_track_pos_facts(p.tracks, self.track_id);
        lemma_track_edit_round_trip(p.tracks, self.track_id, renamed(self.new_name@), renamed(self.old_name@));
    }
}

// ---------------------------------------------------------------------------
// Looking up recorded (note id, value) pairs
// ---------------------------------------------------------------------------

/// Position of the first pair recorded for this note.
/// Pairs recorded for this note.
pub open spec fn pair_for_u8(id: NoteId) -> spec_fn((NoteId, u8)) -> bool {
    |pr: (NoteId, u8)| pr.0 == id
}

pub open spec fn pair_pos_u8(pairs: Seq<(NoteId, u8)>, id: NoteId) -> Option<int> {
    first_match(pairs, pair_for_u8(id))
}

/// Position of the first pair recorded for this note.
pub fn find_pair_u8(pairs: &Vec<(NoteId, u8)>, id: NoteId) -> (r: Option<usize>)
    ensures
        match r {
            Some(k) => k < pairs@.len() && pairs@[k as int].0 == id && pair_pos_u8(pairs@, id) == Some(k as int),
            None => pair_pos_u8(pairs@, id) == None::<int>,
        },
{
    let n = pairs.len();
    for k in 0..n
        invariant
            n == pairs@.len(),
            forall|j: int| 0 <= j < k ==> pairs@[j].0 != id,
    {
        if pairs[k].0 == id {
            proof {
                lemma_first_match(pairs@, pair_for_u8(id), k as int);
            }
            return Some(k);
        }
    }
    proof {
        lemma_no_match(pairs@, pair_for_u8(id));
    }
    None
}

/// Position of the first pair recorded for this note.
/// Pairs recorded for this note.
pub open spec fn pair_for_i64(id: NoteId) -> spec_fn((NoteId, i64)) -> bool {
    |pr: (NoteId, i64)| pr.0 == id
}

pub open spec fn pair_pos_i64(pairs: Seq<(NoteId, i64)>, id: NoteId) -> Option<int> {
    first_match(pairs, pair_for_i64(id))
}

pub proof fn lemma_pair_pos_i64_facts(pairs: Seq<(NoteId, i64)>, id: NoteId)
    ensures
        match pair_pos_i64(pairs, id) {
            Some(k) => is_first_match(pairs, pair_for_i64(id), k),
            None => forall|j: int| 0 <= j < pairs.len() ==> pairs[j].0 != id,
        },
{
    let p = pair_for_i64(id);
    if exists|i: int| 0 <= i < pairs.len() && p(pairs[i]) {
        let w = lemma_some_first_match(pairs, p);
        lemma_first_match(pairs, p, w);
    }
}

/// Position of the first pair recorded for this note.
pub fn find_pair_i64(pairs: &Vec<(NoteId, i64)>, id: NoteId) -> (r: Option<usize>)
    ensures
        match r {
            Some(k) => k < pairs@.len() && pairs@[k as int].0 == id && pair_pos_i64(pairs@, id) == Some(k as int),
            None => pair_pos_i64(pairs@, id) == None::<int>,
        },
{
    let n = pairs.len();
    for k in 0..n
        invariant
            n == pairs@.len(),
            forall|j: int| 0 <= j < k ==> pairs@[j].0 != id,
    {
        if pairs[k].0 == id {
            proof {
                lemma_first_match(pairs@, pair_for_i64(id), k as int);
            }
            return Some(k);
        }
    }
    proof {
        lemma_no_match(pairs@, pair_for_i64(id));
    }
    None
}

/// The MoveNote command announcing a note's current start and pitch.
pub open spec fn move_command(cid: ClipId) -> spec_fn(Note) -> EngineCommand {
    |n: Note| EngineCommand::MoveNote { clip_id: cid, note_id: n.id, new_start: n.start_tick, new_pitch: n.pitch }
}

/// Notes recorded in a pitch list.
pub open spec fn recorded_u8(pairs: Seq<(NoteId, u8)>) -> spec_fn(Note) -> bool {
    |n: Note| pair_pos_u8(pairs, n.id) is Some
}

/// Notes recorded in a start list.
pub open spec fn recorded_i64(pairs: Seq<(NoteId, i64)>) -> spec_fn(Note) -> bool {
    |n: Note| pair_pos_i64(pairs, n.id) is Some
}

// ---------------------------------------------------------------------------
// 14. TransposeNotesAction
// ---------------------------------------------------------------------------

pub struct TransposeNotesAction {
    pub clip_id: ClipId,
    pub original_pitches: Vec<(NoteId, u8)>,
    pub semitones: i8,
}

/// A pitch moved by some semitones, kept inside the MIDI range 0..=127.
pub open spec fn clamp_pitch(v: int) -> u8 {
    if v < 0 {
        0
    } else if v > 127 {
        127
    } else {
        v as u8
    }
}

/// Transpose the recorded notes.
pub open spec fn transposed(pairs: Seq<(NoteId, u8)>, semitones: i8) -> spec_fn(Note) -> Note {
    |n: Note| if pair_pos_u8(pairs, n.id) is Some {
        Note { pitch: clamp_pitch(n.pitch + semitones), ..n }
    } else {
        n
    }
}

/// Give the recorded notes back their recorded pitch.
pub open spec fn pitch_restored(pairs: Seq<(NoteId, u8)>) -> spec_fn(Note) -> Note {
    |n: Note| match pair_pos_u8(pairs, n.id) {
        Some(k) => Note { pitch: pairs[k].1, ..n },
        None => n,
    }
}

/// A clip whose notes are transformed one by one.
pub open spec fn notes_mapped(f: spec_fn(Note) -> Note) -> spec_fn(ClipView) -> ClipView {
    |c: ClipView| with_notes(c, c.notes.map_values(f))
}

/// Commands announcing the new place of every recorded note, in clip order.
pub open spec fn moved_commands(p: ProjectView, cid: ClipId, rec: spec_fn(Note) -> bool, f: spec_fn(Note) -> Note) -> Seq<EngineCommand> {
    match clip_pos(p.clips, cid) {
        Some(i) => p.clips[i].notes.map_values(f).filter(rec).map_values(move_command(cid)),
        None => Seq::empty(),
    }
}

impl Project {
    /// Map the notes of the clip at `i` through a pitch change (transpose or
    /// restore), collecting a MoveNote command per recorded note.
    fn map_pitches(&mut self, i: usize, cid: ClipId, pairs: &Vec<(NoteId, u8)>, semitones: i8, restore: bool) -> (cmds: Vec<EngineCommand>)
        requires
            i < old(self).clips@.len(),
        ensures
            ({
                let f = if restore { pitch_restored(pairs@) } else { transposed(pairs@, semitones) };
                &&& final(self)@ == with_clips(old(self)@, old(self)@.clips.update(i as int, notes_mapped(f)(old(self)@.clips[i as int])))
                &&& cmds@ == old(self)@.clips[i as int].notes.map_values(f).filter(recorded_u8(pairs@)).map_values(move_command(cid))
            }),
    {
        let ghost f = if restore { pitch_restored(pairs@) } else { transposed(pairs@, semitones) };
        let ghost rec = recorded_u8(pairs@);
        let ghost mc = move_command(cid);
        let mut c = self.clips[i].clone();
        let ghost orig = c.notes@;
        let mut out: Vec<Note> = Vec::new();
        let mut cmds: Vec<EngineCommand> = Vec::new();
        let n = c.notes.len();
        for j in 0..n
            invariant
                n == orig.len(),
                orig == c.notes@,
                f == (if restore { pitch_restored(pairs@) } else { transposed(pairs@, semitones) }),
                rec == recorded_u8(pairs@),
                mc == move_command(cid),
                out@ == orig.take(j as int).map_values(f),
                cmds@ == orig.take(j as int).map_values(f).filter(rec).map_values(mc),
        {
            let note = c.notes[j];
            let found = find_pair_u8(pairs, note.id);
            let updated = match found {
                Some(k) => {
                    if restore {
                        Note { pitch: pairs[k].1, ..note }
                    } else {
                        let v = note.pitch as i16 + semitones as i16;
                        let clamped: u8 = if v < 0 { 0 } else if v > 127 { 127 } else { v as u8 };
                        Note { pitch: clamped, ..note }
                    }
                },
                None => note,
            };
            proof {
                assert(updated == f(orig[j as int]));
                assert(orig.take(j as int + 1) == orig.take(j as int).push(orig[j as int]));
                assert(orig.take(j as int + 1).map_values(f) == orig.take(j as int).map_values(f).push(updated));
                orig.take(j as int).map_values(f).lemma_filter_push(updated, rec);
                assert(rec(updated) == found.is_some());
            }
            out.push(updated);
            if found.is_some() {
                cmds.push(EngineCommand::MoveNote {
                    clip_id: cid,
                    note_id: updated.id,
                    new_start: updated.start_tick,
                    new_pitch: updated.pitch,
                });
            }
            proof {
                assert(cmds@ =~= orig.take(j as int + 1).map_values(f).filter(rec).map_values(mc));
            }
        }
        proof {
            assert(orig.take(n as int) == orig);
        }
        c.notes = out;
        self.set_clip(i, c);
        cmds
    }
}

impl TransposeNotesAction {
    pub fn description(&self) -> (r: &'static str)
        ensures
            r@ == "Transpose Notes"@,
    {
        "Transpose Notes"
    }

    pub open spec fn applied(&self, p: ProjectView) -> ProjectView {
        with_clips(p, clips_edited(p.clips, self.clip_id, notes_mapped(transposed(self.original_pitches@, self.semitones))))
    }

    pub open spec fn apply_commands(&self, p: ProjectView) -> Seq<EngineCommand> {
        moved_commands(p, self.clip_id, recorded_u8(self.original_pitches@), transposed(self.original_pitches@, self.semitones))
    }

    pub open spec fn reverted(&self, p: ProjectView) -> ProjectView {
        with_clips(p, clips_edited(p.clips, self.clip_id, notes_mapped(pitch_restored(self.original_pitches@))))
    }

    pub open spec fn revert_commands(&self, p: ProjectView) -> Seq<EngineCommand> {
        moved_commands(p, self.clip_id, recorded_u8(self.original_pitches@), pitch_restored(self.original_pitches@))
    }

    pub fn apply(&self, state: &mut Project) -> (cmds: Vec<EngineCommand>)
        ensures
            final(state)@ == self.applied(old(state)@),
            cmds@ == self.apply_commands(old(state)@),
    {
        match state.clip_index(self.clip_id) {
            Some(i) => state.map_pitches(i, self.clip_id, &self.original_pitches, self.semitones, false),
            None => Vec::new(),
        }
    }

    pub fn revert(&self, state: &mut Project) -> (cmds: Vec<EngineCommand>)
        ensures
            final(state)@ == self.reverted(old(state)@),
            cmds@ == self.revert_commands(old(state)@),
    {
        match state.clip_index(self.clip_id) {
            Some(i) => state.map_pitches(i, self.clip_id, &self.original_pitches, 0, true),
            None => Vec::new(),
        }
    }

    /// Law: transposing and undoing restores the project whenever the
    /// recorded pitch of each recorded note is its pitch (even where the
    /// transposition was clamped at the ends of the range).
    pub proof fn lemma_revert_undoes_apply(&self, p: ProjectView)
        requires
            clip_pos(p.clips, self.clip_id) matches Some(i) && forall|k: int| 0 <= k < p.clips[i].notes.len()
                ==> (pair_pos_u8(self.original_pitches@, #[trigger] p.clips[i].notes[k].id) matches Some(m)
                    ==> self.original_pitches@[m].1 == p.clips[i].notes[k].pitch),
        ensures
            self.reverted(self.applied(p)) == p,
    {
        let i = clip_pos(p.clips, self.clip_id)->0;
        lemma_clip_pos_facts(p.clips, self.clip_id);
        let c = p.clips[i];
        let f = transposed(self.original_pitches@, self.semitones);
        let g = pitch_restored(self.original_pitches@);
        let c1 = notes_mapped(f)(c);
        lemma_clip_pos_after_update(p.clips, self.clip_id, c1);
        assert(c1.notes.map_values(g) =~= c.notes);
        assert(notes_mapped(g)(c1) == c);
        assert(p.clips.update(i, c1).update(i, c) =~= p.clips);
    }

    /// Law: applying a transposition by `semitones` moves the pitch of each
    /// recorded note of the clip by exactly that many semitones (downwards
    /// for a negative count), stopping at 0 and 127; it changes no other
    /// field of any note, no unrecorded note and no other clip.
    pub proof fn lemma_apply_transposes(&self, p: ProjectView)
        requires
            clip_pos(p.clips, self.clip_id) is Some,
        ensures
            ({
                let i = clip_pos(p.clips, self.clip_id)->0;
                let q = self.applied(p);
                let before = p.clips[i].notes;
                let after = q.clips[i].notes;
                let s = self.semitones as int;
                &&& q.clips.len() == p.clips.len()
                &&& forall|j: int| 0 <= j < p.clips.len() && j != i ==> #[trigger] q.clips[j] == p.clips[j]
                &&& q.clips[i] == ClipView { notes: after, ..p.clips[i] }
                &&& after.len() == before.len()
                &&& forall|k: int| 0 <= k < before.len() ==> {
                    let a = #[trigger] after[k];
                    let b = before[k];
                    &&& a == Note { pitch: a.pitch, ..b }
                    &&& pair_pos_u8(self.original_pitches@, b.id) is None ==> a.pitch == b.pitch
                    &&& pair_pos_u8(self.original_pitches@, b.id) is Some ==> {
                        &&& 0 <= b.pitch + s <= 127 ==> a.pitch == b.pitch + s
                        &&& b.pitch + s < 0 ==> a.pitch == 0
                        &&& b.pitch + s > 127 ==> a.pitch == 127
                        &&& s < 0 && b.pitch >= -s ==> a.pitch < b.pitch
                        &&& s > 0 && b.pitch + s <= 127 ==> a.pitch > b.pitch
                    }
                }
            }),
    {
        let i = clip_pos(p.clips, self.clip_id)->0;
        lemma_clip_pos_facts(p.clips, self.clip_id);
        let f = transposed(self.original_pitches@, self.semitones);
        let c = p.clips[i];
        let c1 = notes_mapped(f)(c);
        assert(self.applied(p).clips == p.clips.update(i, c1));
        assert forall|k: int| 0 <= k < c.notes.len() implies #[trigger] c1.notes[k] == f(c.notes[k]) by {}
    }
}

// ---------------------------------------------------------------------------
// 15. QuantizeNotesAction
// ---------------------------------------------------------------------------

pub struct QuantizeNotesAction {
    pub clip_id: ClipId,
    pub original_starts: Vec<(NoteId, i64)>,
    pub quantize_grid: QuantizeGrid,
}

/// Snap the recorded notes to the nearest grid line.
pub open spec fn quantized(pairs: Seq<(NoteId, i64)>, grid: QuantizeGrid) -> spec_fn(Note) -> Note {
    |n: Note| if pair_pos_i64(pairs, n.id) is Some {
        Note { start_tick: snap_nearest(n.start_tick as int, quantize_ticks(grid)) as i64, ..n }
    } else {
        n
    }
}

/// Give the recorded notes back their recorded start.
pub open spec fn start_restored(pairs: Seq<(NoteId, i64)>) -> spec_fn(Note) -> Note {
    |n: Note| match pair_pos_i64(pairs, n.id) {
        Some(k) => Note { start_tick: pairs[k].1, ..n },
        None => n,
    }
}

/// A clip whose notes are transformed one by one and then put in start order.
pub open spec fn notes_mapped_sorted(f: spec_fn(Note) -> Note) -> spec_fn(ClipView) -> ClipView {
    |c: ClipView| with_notes(c, sort_by_start(c.notes.map_values(f)))
}

/// Every recorded note of the clip can be snapped without overflow.
pub open spec fn quantize_fits(p: ProjectView, cid: ClipId, pairs: Seq<(NoteId, i64)>, grid: QuantizeGrid) -> bool {
    clip_pos(p.clips, cid) matches Some(i) ==> forall|k: int| 0 <= k < p.clips[i].notes.len()
        && pair_pos_i64(pairs, #[trigger] p.clips[i].notes[k].id) is Some
        ==> snap_nearest_fits(p.clips[i].notes[k].start_tick as int, quantize_ticks(grid))
}

/// Whether quantising the recorded notes of the clip stays in range.
pub fn quantize_fits_check(p: &Project, cid: ClipId, pairs: &Vec<(NoteId, i64)>, grid: QuantizeGrid) -> (r: bool)
    ensures
        r == quantize_fits(p@, cid, pairs@, grid),
{
    match p.clip_index(cid) {
        None => true,
        Some(i) => {
            let notes = &p.clips[i].notes;
            proof {
                assert(notes@ == p@.clips[i as int].notes);
            }
            let n = notes.len();
            for k in 0..n
                invariant
                    n == notes@.len(),
                    i < p@.clips.len(),
                    clip_pos(p@.clips, cid) == Some(i as int),
                    notes@ == p@.clips[i as int].notes,
                    forall|j: int| 0 <= j < k && pair_pos_i64(pairs@, #[trigger] notes@[j].id) is Some
                        ==> snap_nearest_fits(notes@[j].start_tick as int, quantize_ticks(grid)),
            {
                if find_pair_i64(pairs, notes[k].id).is_some() && !snap_fits(notes[k].start_tick, grid) {
                    proof {
                        assert(p@.clips[i as int].notes[k as int] == notes@[k as int]);
                        assert(pair_pos_i64(pairs@, p@.clips[i as int].notes[k as int].id) is Some);
                    }
                    return false;
                }
            }
            true
        },
    }
}

impl Project {
    /// Map the note starts of the clip at `i` (quantise or restore), collect a
    /// MoveNote command per recorded note, then sort the notes by start.
    fn map_starts(&mut self, i: usize, cid: ClipId, pairs: &Vec<(NoteId, i64)>, grid: QuantizeGrid, restore: bool) -> (cmds: Vec<EngineCommand>)
        requires
            i < old(self).clips@.len(),
            !restore ==> forall|k: int| 0 <= k < old(self)@.clips[i as int].notes.len()
                && pair_pos_i64(pairs@, #[trigger] old(self)@.clips[i as int].notes[k].id) is Some
                ==> snap_nearest_fits(old(self)@.clips[i as int].notes[k].start_tick as int, quantize_ticks(grid)),
        ensures
            ({
                let f = if restore { start_restored(pairs@) } else { quantized(pairs@, grid) };
                &&& final(self)@ == with_clips(old(self)@, old(self)@.clips.update(i as int, notes_mapped_sorted(f)(old(self)@.clips[i as int])))
                &&& cmds@ == old(self)@.clips[i as int].notes.map_values(f).filter(recorded_i64(pairs@)).map_values(move_command(cid))
            }),
    {
        let ghost f = if restore { start_restored(pairs@) } else { quantized(pairs@, grid) };
        let ghost rec = recorded_i64(pairs@);
        let ghost mc = move_command(cid);
        let mut c = self.clips[i].clone();
        let ghost orig = c.notes@;
        proof {
            assert(old(self)@.clips[i as int] == old(self).clips@[i as int]@);
            assert forall|k: int| !restore && 0 <= k < orig.len() && pair_pos_i64(pairs@, #[trigger] orig[k].id) is Some
                implies snap_nearest_fits(orig[k].start_tick as int, quantize_ticks(grid)) by {
                assert(orig[k] == old(self)@.clips[i as int].notes[k]);
            }
        }
        let mut out: Vec<Note> = Vec::new();
        let mut cmds: Vec<EngineCommand> = Vec::new();
        let n = c.notes.len();
        for j in 0..n
            invariant
                n == orig.len(),
                orig == c.notes@,
                orig == old(self)@.clips[i as int].notes,
                !restore ==> forall|k: int| 0 <= k < orig.len() && pair_pos_i64(pairs@, #[trigger] orig[k].id) is Some
                    ==> snap_nearest_fits(orig[k].start_tick as int, quantize_ticks(grid)),
                f == (if restore { start_restored(pairs@) } else { quantized(pairs@, grid) }),
                rec == recorded_i64(pairs@),
                mc == move_command(cid),
                out@ == orig.take(j as int).map_values(f),
                cmds@ == orig.take(j as int).map_values(f).filter(rec).map_values(mc),
        {
            let note = c.notes[j];
            let found = find_pair_i64(pairs, note.id);
            let updated = match found {
                Some(k) => {
                    if restore {
                        Note { start_tick: pairs[k].1, ..note }
                    } else {
                        proof {
                            assert(pair_pos_i64(pairs@, orig[j as int].id) is Some);
                        }
                        Note { start_tick: grid.snap(note.start_tick), ..note }
                    }
                },
                None => note,
            };
            proof {
                assert(updated == f(orig[j as int]));
                assert(orig.take(j as int + 1) == orig.take(j as int).push(orig[j as int]));
                assert(orig.take(j as int + 1).map_values(f) == orig.take(j as int).map_values(f).push(updated));
                orig.take(j as int).map_values(f).lemma_filter_push(updated, rec);
                assert(rec(updated) == found.is_some());
            }
            out.push(updated);
            if found.is_some() {
                cmds.push(EngineCommand::MoveNote {
                    clip_id: cid,
                    note_id: updated.id,
                    new_start: updated.start_tick,
                    new_pitch: updated.pitch,
                });
            }
            proof {
                assert(cmds@ =~= orig.take(j as int + 1).map_values(f).filter(rec).map_values(mc));
            }
        }
        proof {
            assert(orig.take(n as int) == orig);
        }
        sort_notes_by_start(&mut out);
        c.notes = out;
        self.set_clip(i, c);
        cmds
    }
}

impl QuantizeNotesAction {
    pub fn description(&self) -> (r: &'static str)
        ensures
            r@ == "Quantize Notes"@,
    {
        "Quantize Notes"
    }

    pub open spec fn applied(&self, p: ProjectView) -> ProjectView {
        with_clips(p, clips_edited(p.clips, self.clip_id, notes_mapped_sorted(quantized(self.original_starts@, self.quantize_grid))))
    }

    pub open spec fn apply_commands(&self, p: ProjectView) -> Seq<EngineCommand> {
        moved_commands(p, self.clip_id, recorded_i64(self.original_starts@), quantized(self.original_starts@, self.quantize_grid))
    }

    pub open spec fn reverted(&self, p: ProjectView) -> ProjectView {
        with_clips(p, clips_edited(p.clips, self.clip_id, notes_mapped_sorted(start_restored(self.original_starts@))))
    }

    pub open spec fn revert_commands(&self, p: ProjectView) -> Seq<EngineCommand> {
        moved_commands(p, self.clip_id, recorded_i64(self.original_starts@), start_restored(self.original_starts@))
    }

    pub fn apply(&self, state: &mut Project) -> (cmds: Vec<EngineCommand>)
        requires
            quantize_fits(old(state)@, self.clip_id, self.original_starts@, self.quantize_grid),
        ensures
            final(state)@ == self.applied(old(state)@),
            cmds@ == self.apply_commands(old(state)@),
    {
        match state.clip_index(self.clip_id) {
            Some(i) => state.map_starts(i, self.clip_id, &self.original_starts, self.quantize_grid, false),
            None => Vec::new(),
        }
    }

    pub fn revert(&self, state: &mut Project) -> (cmds: Vec<EngineCommand>)
        ensures
            final(state)@ == self.reverted(old(state)@),
            cmds@ == self.revert_commands(old(state)@),
    {
        match state.clip_index(self.clip_id) {
            Some(i) => state.map_starts(i, self.clip_id, &self.original_starts, self.quantize_grid, true),
            None => Vec::new(),
        }
    }

    /// Law: after quantising, every recorded note of the clip starts on a
    /// grid line and the clip's notes are in start order.
    pub proof fn lemma_apply_lands_on_grid(&self, p: ProjectView)
        requires
            clip_pos(p.clips, self.clip_id) is Some,
            quantize_fits(p, self.clip_id, self.original_starts@, self.quantize_grid),
        ensures
            ({
                let i = clip_pos(p.clips, self.clip_id)->0;
                let notes = self.applied(p).clips[i].notes;
                &&& sorted_by_start(notes)
                &&& forall|k: int| 0 <= k < notes.len() && pair_pos_i64(self.original_starts@, #[trigger] notes[k].id) is Some
                    ==> (notes[k].start_tick as int) % quantize_ticks(self.quantize_grid) == 0
            }),
    {
        let i = clip_pos(p.clips, self.clip_id)->0;
        lemma_clip_pos_facts(p.clips, self.clip_id);
        let g = quantize_ticks(self.quantize_grid);
        let f = quantized(self.original_starts@, self.quantize_grid);
        let mapped = p.clips[i].notes.map_values(f);
        lemma_sort_sorted(mapped);
        let notes = sort_by_start(mapped);
        assert(self.applied(p).clips[i].notes == notes);
        assert forall|k: int| 0 <= k < notes.len() && pair_pos_i64(self.original_starts@, #[trigger] notes[k].id) is Some
            implies (notes[k].start_tick as int) % g == 0 by {
            assert(notes.to_multiset().count(notes[k]) > 0);
            assert(mapped.to_multiset().count(notes[k]) > 0);
            assert(mapped.contains(notes[k]));
            let m = choose|m: int| 0 <= m < mapped.len() && mapped[m] == notes[k];
            let orig = p.clips[i].notes[m];
            assert(mapped[m] == f(orig));
            assert(orig.id == notes[k].id);
            crate::time::lemma_snap_nearest(orig.start_tick as int, g);
        }
    }
}

// ---------------------------------------------------------------------------
// 16. SetNoteVelocityAction
// ---------------------------------------------------------------------------

pub struct SetNoteVelocityAction {
    pub clip_id: ClipId,
    pub note_id: NoteId,
    pub old_velocity: u8,
    pub new_velocity: u8,
}

impl SetNoteVelocityAction {
    pub fn description(&self) -> (r: &'static str)
        ensures
            r@ == "Set Note Velocity"@,
    {
        "Set Note Velocity"
    }

    pub open spec fn applied(&self, p: ProjectView) -> ProjectView {
        project_note_edit(p, self.clip_id, self.note_id, with_velocity(self.new_velocity))
    }

    pub open spec fn reverted(&self, p: ProjectView) -> ProjectView {
        project_note_edit(p, self.clip_id, self.note_id, with_velocity(self.old_velocity))
    }

    pub fn apply(&self, state: &mut Project)
        ensures
            final(state)@ == self.applied(old(state)@),
    {
        state.edit_note(self.clip_id, self.note_id, NoteEdit::Velocity { velocity: self.new_velocity });
    }

    pub fn revert(&self, state: &mut Project)
        ensures
            final(state)@ == self.reverted(old(state)@),
    {
        state.edit_note(self.clip_id, self.note_id, NoteEdit::Velocity { velocity: self.old_velocity });
    }

    /// Law: changing the velocity of a note with a unique id from its
    /// recorded old value and back restores the project.
    pub proof fn lemma_revert_undoes_apply(&self, p: ProjectView)
        requires
            clip_pos(p.clips, self.clip_id) matches Some(i) && note_id_unique(p.clips[i].notes, self.note_id)
                && p.clips[i].notes[note_pos(p.clips[i].notes, self.note_id)->0].velocity == self.old_velocity,
        ensures
            self.reverted(self.applied(p)) == p,
    {
        let i = clip_pos(p.clips, self.clip_id)->0;
        lemma_note_pos_facts(p.clips[i].notes, self.note_id);
        lemma_note_edit_round_trip(p, self.clip_id, self.note_id, with_velocity(self.new_velocity), with_velocity(self.old_velocity));
    }
}

// ---------------------------------------------------------------------------
// 17. RemoveNotesAction
// ---------------------------------------------------------------------------

/// Removes several notes of one clip at once.
pub struct RemoveNotesAction {
    pub clip_id: ClipId,
    pub notes: Vec<Note>,
}

/// Whether a note id occurs in a note list.
pub open spec fn lists_note(notes: Seq<Note>, id: NoteId) -> bool {
    exists|k: int| 0 <= k < notes.len() && notes[k].id == id
}

/// Notes not listed in `removed`.
pub open spec fn not_listed(removed: Seq<Note>) -> spec_fn(Note) -> bool {
    |n: Note| !lists_note(removed, n.id)
}

/// Whether a note id occurs in a note list.
pub fn note_listed(notes: &Vec<Note>, id: NoteId) -> (r: bool)
    ensures
        r == lists_note(notes@, id),
{
    let n = notes.len();
    for k in 0..n
        invariant
            n == notes@.len(),
            forall|j: int| 0 <= j < k ==> notes@[j].id != id,
    {
        if notes[k].id == id {
            return true;
        }
    }
    false
}

impl RemoveNotesAction {
    pub fn description(&self) -> (r: &'static str)
        ensures
            r@ == "Remove Notes"@,
    {
        "Remove Notes"
    }

    pub open spec fn applied(&self, p: ProjectView) -> ProjectView {
        with_clips(p, clips_edited(p.clips, self.clip_id, |c: ClipView| with_notes(c, c.notes.filter(not_listed(self.notes@)))))
    }

    pub open spec fn apply_commands(&self, p: ProjectView) -> Seq<EngineCommand> {
        if clip_pos(p.clips, self.clip_id) is Some {
            self.notes@.map_values(|n: Note| EngineCommand::RemoveNote { clip_id: self.clip_id, note_id: n.id })
        } else {
            Seq::empty()
        }
    }

    pub open spec fn reverted(&self, p: ProjectView) -> ProjectView {
        with_clips(p, clips_edited(p.clips, self.clip_id, |c: ClipView| with_notes(c, sort_by_start(c.notes + self.notes@))))
    }

    pub open spec fn revert_commands(&self, p: ProjectView) -> Seq<EngineCommand> {
        if clip_pos(p.clips, self.clip_id) is Some {
            self.notes@.map_values(|n: Note| EngineCommand::AddNote { clip_id: self.clip_id, note: n })
        } else {
            Seq::empty()
        }
    }

    pub fn apply(&self, state: &mut Project) -> (cmds: Vec<EngineCommand>)
        ensures
            final(state)@ == self.applied(old(state)@),
            cmds@ == self.apply_commands(old(state)@),
    {
        let mut cmds: Vec<EngineCommand> = Vec::new();
        if let Some(i) = state.clip_index(self.clip_id) {
            let mut c = state.clips[i].clone();
            let ghost orig = c.notes@;
            let ghost pred = not_listed(self.notes@);
            let mut kept: Vec<Note> = Vec::new();
            let n = c.notes.len();
            for j in 0..n
                invariant
                    n == orig.len(),
                    orig == c.notes@,
                    pred == not_listed(self.notes@),
                    kept@ == orig.take(j as int).filter(pred),
            {
                proof {
                    assert(orig.take(j as int + 1) == orig.take(j as int).push(orig[j as int]));
                    orig.take(j as int).lemma_filter_push(orig[j as int], pred);
                }
                if !note_listed(&self.notes, c.notes[j].id) {
                    kept.push(c.notes[j]);
                }
            }
            proof {
                assert(orig.take(n as int) == orig);
                assert(old(state)@.clips[i as int] == old(state).clips@[i as int]@);
            }
            c.notes = kept;
            state.set_clip(i, c);
            let m = self.notes.len();
            for j in 0..m
                invariant
                    m == self.notes@.len(),
                    cmds@ == self.notes@.take(j as int).map_values(|n: Note| EngineCommand::RemoveNote { clip_id: self.clip_id, note_id: n.id }),
            {
                cmds.push(EngineCommand::RemoveNote { clip_id: self.clip_id, note_id: self.notes[j].id });
                proof {
                    assert(self.notes@.take(j as int + 1) == self.notes@.take(j as int).push(self.notes@[j as int]));
                    assert(cmds@ =~= self.notes@.take(j as int + 1).map_values(|n: Note| EngineCommand::RemoveNote { clip_id: self.clip_id, note_id: n.id }));
                }
            }
            proof {
                assert(self.notes@.take(m as int) == self.notes@);
            }
        }
        proof {
            assert(cmds@ =~= self.apply_commands(old(state)@));
        }
        cmds
    }

    pub fn revert(&self, state: &mut Project) -> (cmds: Vec<EngineCommand>)
        ensures
            final(state)@ == self.reverted(old(state)@),
            cmds@ == self.revert_commands(old(state)@),
    {
        let mut cmds: Vec<EngineCommand> = Vec::new();
        if let Some(i) = state.clip_index(self.clip_id) {
            let mut c = state.clips[i].clone();
            let ghost orig = c.notes@;
            let mut all = copy_notes(&c.notes);
            let m = self.notes.len();
            for j in 0..m
                invariant
                    m == self.notes@.len(),
                    all@ == orig + self.notes@.take(j as int),
                    cmds@ == self.notes@.take(j as int).map_values(|n: Note| EngineCommand::AddNote { clip_id: self.clip_id, note: n }),
            {
                all.push(self.notes[j]);
                cmds.push(EngineCommand::AddNote { clip_id: self.clip_id, note: self.notes[j] });
                proof {
                    assert(self.notes@.take(j as int + 1) == self.notes@.take(j as int).push(self.notes@[j as int]));
                    assert(all@ =~= orig + self.notes@.take(j as int + 1));
                    assert(cmds@ =~= self.notes@.take(j as int + 1).map_values(|n: Note| EngineCommand::AddNote { clip_id: self.clip_id, note: n }));
                }
            }
            proof {
                assert(self.notes@.take(m as int) == self.notes@);
                assert(old(state)@.clips[i as int] == old(state).clips@[i as int]@);
            }
            sort_notes_by_start(&mut all);
            c.notes = all;
            state.set_clip(i, c);
        }
        proof {
            assert(cmds@ =~= self.revert_commands(old(state)@));
        }
        cmds
    }
}

} // verus!
