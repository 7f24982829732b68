//! Undo / redo history over the undoable editing actions.

use vstd::prelude::*;
use crate::commands::EngineCommand;
use crate::project::{Project, ProjectView};
use crate::undo_actions::{
    MoveClipAction, AddClipAction, RemoveClipAction, SplitClipAction, DuplicateClipAction,
    AddNoteAction, RemoveNoteAction, MoveNoteAction, ResizeNoteAction, SetTrackVolumeAction,
    AddTrackAction, RemoveTrackAction, RenameTrackAction, TransposeNotesAction,
    QuantizeNotesAction, SetNoteVelocityAction, RemoveNotesAction, quantize_fits, quantize_fits_check,
};

verus! {

/// One entry of the undo history.
pub enum UndoRecord {
    MoveClip(MoveClipAction),
    AddClip(AddClipAction),
    RemoveClip(RemoveClipAction),
    SplitClip(SplitClipAction),
    DuplicateClip(DuplicateClipAction),
    AddNote(AddNoteAction),
    RemoveNote(RemoveNoteAction),
    MoveNote(MoveNoteAction),
    ResizeNote(ResizeNoteAction),
    SetTrackVolume(SetTrackVolumeAction),
    AddTrack(AddTrackAction),
    RemoveTrack(RemoveTrackAction),
    RenameTrack(RenameTrackAction),
    TransposeNotes(TransposeNotesAction),
    QuantizeNotes(QuantizeNotesAction),
    SetNoteVelocity(SetNoteVelocityAction),
    RemoveNotes(RemoveNotesAction),
}

impl UndoRecord {
    /// The project after the action is (re)applied.
    pub open spec fn applied(&self, p: ProjectView) -> ProjectView {
        match self {
            UndoRecord::MoveClip(a) => a.applied(p),
            UndoRecord::AddClip(a) => a.applied(p),
            UndoRecord::RemoveClip(a) => a.applied(p),
            UndoRecord::SplitClip(a) => a.applied(p),
            UndoRecord::DuplicateClip(a) => a.applied(p),
            UndoRecord::AddNote(a) => a.applied(p),
            UndoRecord::RemoveNote(a) => a.applied(p),
            UndoRecord::MoveNote(a) => a.applied(p),
            UndoRecord::ResizeNote(a) => a.applied(p),
            UndoRecord::SetTrackVolume(a) => a.applied(p),
            UndoRecord::AddTrack(a) => a.applied(p),
            UndoRecord::RemoveTrack(a) => a.applied(p),
            UndoRecord::RenameTrack(a) => a.applied(p),
            UndoRecord::TransposeNotes(a) => a.applied(p),
            UndoRecord::QuantizeNotes(a) => a.applied(p),
            UndoRecord::SetNoteVelocity(a) => a.applied(p),
            UndoRecord::RemoveNotes(a) => a.applied(p),
        }
    }

    /// The project after the action is undone.
    pub open spec fn reverted(&self, p: ProjectView) -> ProjectView {
        match self {
            UndoRecord::MoveClip(a) => a.reverted(p),
            UndoRecord::AddClip(a) => a.reverted(p),
            UndoRecord::RemoveClip(a) => a.reverted(p),
            UndoRecord::SplitClip(a) => a.reverted(p),
            UndoRecord::DuplicateClip(a) => a.reverted(p),
            UndoRecord::AddNote(a) => a.reverted(p),
            UndoRecord::RemoveNote(a) => a.reverted(p),
            UndoRecord::MoveNote(a) => a.reverted(p),
            UndoRecord::ResizeNote(a) => a.reverted(p),
            UndoRecord::SetTrackVolume(a) => a.reverted(p),
            UndoRecord::AddTrack(a) => a.reverted(p),
            UndoRecord::RemoveTrack(a) => a.reverted(p),
            UndoRecord::RenameTrack(a) => a.reverted(p),
            UndoRecord::TransposeNotes(a) => a.reverted(p),
            UndoRecord::QuantizeNotes(a) => a.reverted(p),
            UndoRecord::SetNoteVelocity(a) => a.reverted(p),
            UndoRecord::RemoveNotes(a) => a.reverted(p),
        }
    }

    /// Engine commands sent when the action is (re)applied.
    pub open spec fn apply_commands(&self, p: ProjectView) -> Seq<EngineCommand> {
        match self {
            UndoRecord::AddNote(a) => a.apply_commands(p),
            UndoRecord::RemoveNote(a) => a.apply_commands(p),
            UndoRecord::MoveNote(a) => a.commands_for(p, a.new_start, a.new_pitch),
            UndoRecord::ResizeNote(a) => a.commands_for(p, a.new_duration),
            UndoRecord::SetTrackVolume(a) => a.commands_for(p, a.new_volume_bits),
            UndoRecord::TransposeNotes(a) => a.apply_commands(p),
            UndoRecord::QuantizeNotes(a) => a.apply_commands(p),
            UndoRecord::RemoveNotes(a) => a.apply_commands(p),
            _ => Seq::empty(),
        }
    }

    /// Engine commands sent when the action is undone.
    pub open spec fn revert_commands(&self, p: ProjectView) -> Seq<EngineCommand> {
        match self {
            UndoRecord::AddNote(a) => a.revert_commands(p),
            UndoRecord::RemoveNote(a) => a.revert_commands(p),
            UndoRecord::MoveNote(a) => a.commands_for(p, a.old_start, a.old_pitch),
            UndoRecord::ResizeNote(a) => a.commands_for(p, a.old_duration),
            UndoRecord::SetTrackVolume(a) => a.commands_for(p, a.old_volume_bits),
            UndoRecord::TransposeNotes(a) => a.revert_commands(p),
            UndoRecord::QuantizeNotes(a) => a.revert_commands(p),
            UndoRecord::RemoveNotes(a) => a.revert_commands(p),
            _ => Seq::empty(),
        }
    }

    /// Whether the action can be (re)applied to this project without overflow.
    pub open spec fn can_apply(&self, p: ProjectView) -> bool {
        match self {
            UndoRecord::QuantizeNotes(a) => quantize_fits(p, a.clip_id, a.original_starts@, a.quantize_grid),
            _ => true,
        }
    }

    /// Whether the action can be (re)applied to this project without overflow.
    pub fn can_apply_check(&self, p: &Project) -> (r: bool)
        ensures
            r == self.can_apply(p@),
    {
        match self {
            UndoRecord::QuantizeNotes(a) => quantize_fits_check(p, a.clip_id, &a.original_starts, a.quantize_grid),
            _ => true,
        }
    }

    /// The short name shown for the action.
    pub open spec fn name(&self) -> Seq<char> {
        match self {
            UndoRecord::MoveClip(_) => "Move Clip"@,
            UndoRecord::AddClip(_) => "Add Clip"@,
            UndoRecord::RemoveClip(_) => "Remove Clip"@,
            UndoRecord::SplitClip(_) => "Split Clip"@,
            UndoRecord::DuplicateClip(_) => "Duplicate Clip"@,
            UndoRecord::AddNote(_) => "Add Note"@,
            UndoRecord::RemoveNote(_) => "Remove Note"@,
            UndoRecord::MoveNote(_) => "Move Note"@,
            UndoRecord::ResizeNote(_) => "Resize Note"@,
            UndoRecord::SetTrackVolume(_) => "Set Track Volume"@,
            UndoRecord::AddTrack(_) => "Add Track"@,
            UndoRecord::RemoveTrack(_) => "Remove Track"@,
            UndoRecord::RenameTrack(_) => "Rename Track"@,
            UndoRecord::TransposeNotes(_) => "Transpose Notes"@,
            UndoRecord::QuantizeNotes(_) => "Quantize Notes"@,
            UndoRecord::SetNoteVelocity(_) => "Set Note Velocity"@,
            UndoRecord::RemoveNotes(_) => "Remove Notes"@,
        }
    }

    /// Short human-readable name of the action.
    pub fn description(&self) -> (r: &'static str)
        ensures
            r@ == self.name(),
    {
        match self {
            UndoRecord::MoveClip(a) => a.description(),
            UndoRecord::AddClip(a) => a.description(),
            UndoRecord::RemoveClip(a) => a.description(),
            UndoRecord::SplitClip(a) => a.description(),
            UndoRecord::DuplicateClip(a) => a.description(),
            UndoRecord::AddNote(a) => a.description(),
            UndoRecord::RemoveNote(a) => a.description(),
            UndoRecord::MoveNote(a) => a.description(),
            UndoRecord::ResizeNote(a) => a.description(),
            UndoRecord::SetTrackVolume(a) => a.description(),
            UndoRecord::AddTrack(a) => a.description(),
            UndoRecord::RemoveTrack(a) => a.description(),
            UndoRecord::RenameTrack(a) => a.description(),
            UndoRecord::TransposeNotes(a) => a.description(),
            UndoRecord::QuantizeNotes(a) => a.description(),
            UndoRecord::SetNoteVelocity(a) => a.description(),
            UndoRecord::RemoveNotes(a) => a.description(),
        }
    }

    /// (Re)apply the action.
    pub fn apply(&self, state: &mut Project) -> (cmds: Vec<EngineCommand>)
        requires
            self.can_apply(old(state)@),
        ensures
            final(state)@ == self.applied(old(state)@),
            cmds@ == self.apply_commands(old(state)@),
    {
        match self {
            UndoRecord::MoveClip(a) => { a.apply(state); Vec::new() },
            UndoRecord::AddClip(a) => { a.apply(state); Vec::new() },
            UndoRecord::RemoveClip(a) => { a.apply(state); Vec::new() },
            UndoRecord::SplitClip(a) => { a.apply(state); Vec::new() },
            UndoRecord::DuplicateClip(a) => { a.apply(state); Vec::new() },
            UndoRecord::AddNote(a) => a.apply(state),
            UndoRecord::RemoveNote(a) => a.apply(state),
            UndoRecord::MoveNote(a) => a.apply(state),
            UndoRecord::ResizeNote(a) => a.apply(state),
            UndoRecord::SetTrackVolume(a) => a.apply(state),
            UndoRecord::AddTrack(a) => { a.apply(state); Vec::new() },
            UndoRecord::RemoveTrack(a) => { a.apply(state); Vec::new() },
            UndoRecord::RenameTrack(a) => { a.apply(state); Vec::new() },
            UndoRecord::TransposeNotes(a) => a.apply(state),
            UndoRecord::QuantizeNotes(a) => a.apply(state),
            UndoRecord::SetNoteVelocity(a) => { a.apply(state); Vec::new() },
            UndoRecord::RemoveNotes(a) => a.apply(state),
        }
    }

    /// Undo the action.
    pub fn revert(&self, state: &mut Project) -> (cmds: Vec<EngineCommand>)
        ensures
            final(state)@ == self.reverted(old(state)@),
            cmds@ == self.revert_commands(old(state)@),
    {
        match self {
            UndoRecord::MoveClip(a) => { a.revert(state); Vec::new() },
            UndoRecord::AddClip(a) => { a.revert(state); Vec::new() },
            UndoRecord::RemoveClip(a) => { a.revert(state); Vec::new() },
            UndoRecord::SplitClip(a) => { a.revert(state); Vec::new() },
            UndoRecord::DuplicateClip(a) => { a.revert(state); Vec::new() },
            UndoRecord::AddNote(a) => a.revert(state),
            UndoRecord::RemoveNote(a) => a.revert(state),
            UndoRecord::MoveNote(a) => a.revert(state),
            UndoRecord::ResizeNote(a) => a.revert(state),
            UndoRecord::SetTrackVolume(a) => a.revert(state),
            UndoRecord::AddTrack(a) => { a.revert(state); Vec::new() },
            UndoRecord::RemoveTrack(a) => { a.revert(state); Vec::new() },
            UndoRecord::RenameTrack(a) => { a.revert(state); Vec::new() },
            UndoRecord::TransposeNotes(a) => a.revert(state),
            UndoRecord::QuantizeNotes(a) => a.revert(state),
            UndoRecord::SetNoteVelocity(a) => { a.revert(state); Vec::new() },
            UndoRecord::RemoveNotes(a) => a.revert(state),
        }
    }
}

/// The undo history after recording `r` under the depth limit: the oldest
/// entry goes when the limit is passed.
pub open spec fn history_after_push(h: Seq<UndoRecord>, depth: nat, r: UndoRecord) -> Seq<UndoRecord> {
    if h.len() + 1 > depth {
        h.push(r).drop_first()
    } else {
        h.push(r)
    }
}

/// `after` is `before` with `r` recorded and the redo history discarded.
pub open spec fn pushed(before: UndoManager, after: UndoManager, r: UndoRecord) -> bool {
    &&& after.undo_seq() == history_after_push(before.undo_seq(), before.depth(), r)
    &&& after.redo_seq() == Seq::<UndoRecord>::empty()
    &&& after.depth() == before.depth()
}

/// Law: right after an action is recorded (with a depth limit above zero),
/// it is the one the next undo reverts.
pub proof fn lemma_undo_after_push(before: UndoManager, after: UndoManager, r: UndoRecord)
    requires
        pushed(before, after, r),
        before.depth() > 0,
    ensures
        after.undo_seq().len() > 0,
        after.undo_seq().last() == r,
{
}

/// Law: an undo followed by a redo gives back the undo and redo histories
/// as they were (the histories each call leaves are those their contracts
/// state).
pub proof fn lemma_undo_then_redo_restores_history(m0: UndoManager, m1: UndoManager, m2: UndoManager)
    requires
        m0.undo_seq().len() > 0,
        m1.undo_seq() == m0.undo_seq().drop_last(),
        m1.redo_seq() == m0.redo_seq().push(m0.undo_seq().last()),
        m2.undo_seq() == m1.undo_seq().push(m1.redo_seq().last()),
        m2.redo_seq() == m1.redo_seq().drop_last(),
    ensures
        m2.undo_seq() == m0.undo_seq(),
        m2.redo_seq() == m0.redo_seq(),
{
    assert(m0.undo_seq().drop_last().push(m0.undo_seq().last()) =~= m0.undo_seq());
    assert(m0.redo_seq().push(m0.undo_seq().last()).drop_last() =~= m0.redo_seq());
}

/// Bounded undo/redo history.
pub struct UndoManager {
    undo_stack: Vec<UndoRecord>,
    redo_stack: Vec<UndoRecord>,
    max_depth: usize,
}

impl UndoManager {
    /// Actions that can be undone, oldest first.
    pub closed spec fn undo_seq(&self) -> Seq<UndoRecord> {
        self.undo_stack@
    }

    /// Actions that can be redone, the next one last.
    pub closed spec fn redo_seq(&self) -> Seq<UndoRecord> {
        self.redo_stack@
    }

    /// The most actions kept for undo.
    pub closed spec fn depth(&self) -> nat {
        self.max_depth as nat
    }

    pub fn new(max_depth: usize) -> (r: Self)
        ensures
            r.undo_seq() == Seq::<UndoRecord>::empty(),
            r.redo_seq() == Seq::<UndoRecord>::empty(),
            r.depth() == max_depth,
    {
        UndoManager { undo_stack: Vec::new(), redo_stack: Vec::new(), max_depth }
    }

    /// Record an action that has just been applied: it becomes the next to
    /// undo, the redo history is discarded, and the oldest entry is dropped
    /// beyond the depth limit.
    pub fn push(&mut self, record: UndoRecord)
        ensures
            pushed(*old(self), *final(self), record),
            final(self).redo_seq() == Seq::<UndoRecord>::empty(),
            final(self).depth() == old(self).depth(),
            old(self).undo_seq().len() + 1 > old(self).depth() ==> final(self).undo_seq()
                == old(self).undo_seq().push(record).drop_first(),
            old(self).undo_seq().len() + 1 <= old(self).depth() ==> final(self).undo_seq()
                == old(self).undo_seq().push(record),
    {
        self.redo_stack = Vec::new();
        self.undo_stack.push(record);
        if self.undo_stack.len() > self.max_depth {
            self.undo_stack.remove(0);
            proof {
                assert(self.undo_stack@ =~= old(self).undo_stack@.push(record).drop_first());
            }
        }
    }

    /// Whether the next redo, if any, can be applied to this project
    /// without overflow.
    pub fn redo_fits(&self, p: &Project) -> (r: bool)
        ensures
            r == (self.redo_seq().len() > 0 ==> self.redo_seq().last().can_apply(p@)),
    {
        let n = self.redo_stack.len();
        if n == 0 {
            true
        } else {
            self.redo_stack[n - 1].can_apply_check(p)
        }
    }

    pub fn can_undo(&self) -> (r: bool)
        ensures
            r == (self.undo_seq().len() > 0),
    {
        self.undo_stack.len() > 0
    }

    pub fn can_redo(&self) -> (r: bool)
        ensures
            r == (self.redo_seq().len() > 0),
    {
        self.redo_stack.len() > 0
    }

    /// Forget all history.
    pub fn clear(&mut self)
        ensures
            final(self).undo_seq() == Seq::<UndoRecord>::empty(),
            final(self).redo_seq() == Seq::<UndoRecord>::empty(),
            final(self).depth() == old(self).depth(),
    {
        self.undo_stack = Vec::new();
        self.redo_stack = Vec::new();
    }

    /// Undo the latest action, moving it to the redo history; nothing
    /// happens when there is none.
    pub fn undo(&mut self, state: &mut Project) -> (cmds: Vec<EngineCommand>)
        ensures
            final(self).depth() == old(self).depth(),
            old(self).undo_seq().len() == 0 ==> {
                &&& final(self).undo_seq() == old(self).undo_seq()
                &&& final(self).redo_seq() == old(self).redo_seq()
                &&& final(state)@ == old(state)@
                &&& cmds@.len() == 0
            },
            old(self).undo_seq().len() > 0 ==> {
                let a = old(self).undo_seq().last();
                &&& final(self).undo_seq() == old(self).undo_seq().drop_last()
                &&& final(self).redo_seq() == old(self).redo_seq().push(a)
                &&& final(state)@ == a.reverted(old(state)@)
                &&& cmds@ == a.revert_commands(old(state)@)
            },
    {
        match self.undo_stack.pop() {
            Some(a) => {
                let cmds = a.revert(state);
                self.redo_stack.push(a);
                cmds
            },
            None => Vec::new(),
        }
    }

    /// Redo the latest undone action, moving it back to the undo history;
    /// nothing happens when there is none.
    pub fn redo(&mut self, state: &mut Project) -> (cmds: Vec<EngineCommand>)
        requires
            old(self).redo_seq().len() > 0 ==> old(self).redo_seq().last().can_apply(old(state)@),
        ensures
            final(self).depth() == old(self).depth(),
            old(self).redo_seq().len() == 0 ==> {
                &&& final(self).undo_seq() == old(self).undo_seq()
                &&& final(self).redo_seq() == old(self).redo_seq()
                &&& final(state)@ == old(state)@
                &&& cmds@.len() == 0
            },
            old(self).redo_seq().len() > 0 ==> {
                let a = old(self).redo_seq().last();
                &&& final(self).undo_seq() == old(self).undo_seq().push(a)
                &&& final(self).redo_seq() == old(self).redo_seq().drop_last()
                &&& final(state)@ == a.applied(old(state)@)
                &&& cmds@ == a.apply_commands(old(state)@)
            },
    {
        match self.redo_stack.pop() {
            Some(a) => {
                let cmds = a.apply(state);
                self.undo_stack.push(a);
                cmds
            },
            None => Vec::new(),
        }
    }
}

} // verus!
