//! Keyboard shortcuts: which action a key press asks for in the active view.

use vstd::prelude::*;
use crate::editor_state::{ActiveView, PianoRollTool};

verus! {

/// The keys that have shortcuts.
#[derive(Debug, Clone, Copy, PartialEq, Eq, Structural)]
pub enum Key {
    Space,
    Home,
    Delete,
    Backspace,
    ArrowUp,
    ArrowDown,
    Equal,
    Minus,
    NumpadAdd,
    NumpadSubtract,
    A,
    C,
    D,
    E,
    F,
    L,
    M,
    Q,
    R,
    S,
    T,
    V,
    Z,
    /// Any other key.
    Other,
}

/// The action a shortcut asks for.
#[derive(Debug, Clone, Copy, PartialEq, Eq, Structural)]
pub enum Shortcut {
    QuantizeSelectedNotes,
    TransposeSelectedNotes(i8),
    SetPianoRollTool(PianoRollTool),
    SelectAllNotes,
    DeleteSelectedNotes,
    SplitClipAtPlayhead,
    DuplicateSelectedClips,
    CopySelectedClips,
    PasteClips,
    SelectAllClips,
    DeleteSelectedClips,
    TogglePlayPause,
    Record,
    ReturnToStart,
    ToggleLoop,
    ToggleMetronome,
    ToggleFollowPlayhead,
    Redo,
    Undo,
    SaveCurrentProject,
    AddMidiTrack,
    AddAudioTrack,
    /// Zoom in the piano roll (true) or the arrangement (false).
    ZoomIn(bool),
    /// Zoom out the piano roll (true) or the arrangement (false).
    ZoomOut(bool),
}

/// Piano roll shortcuts.
pub open spec fn piano_roll_shortcut(key: Key, ctrl: bool, shift: bool) -> Option<Shortcut> {
    match key {
        Key::Q if ctrl => Some(Shortcut::QuantizeSelectedNotes),
        Key::ArrowUp if shift => Some(Shortcut::TransposeSelectedNotes(12i8)),
        Key::ArrowDown if shift => Some(Shortcut::TransposeSelectedNotes(-12i8)),
        Key::ArrowUp if !ctrl && !shift => Some(Shortcut::TransposeSelectedNotes(1i8)),
        Key::ArrowDown if !ctrl && !shift => Some(Shortcut::TransposeSelectedNotes(-1i8)),
        Key::V if !ctrl => Some(Shortcut::SetPianoRollTool(PianoRollTool::Velocity)),
        Key::D if !ctrl => Some(Shortcut::SetPianoRollTool(PianoRollTool::Draw)),
        Key::E if !ctrl => Some(Shortcut::SetPianoRollTool(PianoRollTool::Erase)),
        Key::A if ctrl => Some(Shortcut::SelectAllNotes),
        Key::Delete if !ctrl => Some(Shortcut::DeleteSelectedNotes),
        Key::Backspace if !ctrl => Some(Shortcut::DeleteSelectedNotes),
        _ => None,
    }
}

/// Arrangement shortcuts.
pub open spec fn arrangement_shortcut(key: Key, ctrl: bool) -> Option<Shortcut> {
    match key {
        Key::E if ctrl => Some(Shortcut::SplitClipAtPlayhead),
        Key::D if ctrl => Some(Shortcut::DuplicateSelectedClips),
        Key::C if ctrl => Some(Shortcut::CopySelectedClips),
        Key::V if ctrl => Some(Shortcut::PasteClips),
        Key::A if ctrl => Some(Shortcut::SelectAllClips),
        Key::Delete if !ctrl => Some(Shortcut::DeleteSelectedClips),
        Key::Backspace if !ctrl => Some(Shortcut::DeleteSelectedClips),
        _ => None,
    }
}

/// Shortcuts that work in every view.
pub open spec fn global_shortcut(key: Key, ctrl: bool, shift: bool, view: ActiveView) -> Option<Shortcut> {
    let piano = view == ActiveView::PianoRoll;
    match key {
        Key::Space => Some(Shortcut::TogglePlayPause),
        Key::R if !ctrl => Some(Shortcut::Record),
        Key::Home => Some(Shortcut::ReturnToStart),
        Key::L if !ctrl => Some(Shortcut::ToggleLoop),
        Key::M if !ctrl => Some(Shortcut::ToggleMetronome),
        Key::F if !ctrl => Some(Shortcut::ToggleFollowPlayhead),
        Key::Z if ctrl && shift => Some(Shortcut::Redo),
        Key::Z if ctrl && !shift => Some(Shortcut::Undo),
        Key::S if ctrl => Some(Shortcut::SaveCurrentProject),
        Key::T if ctrl && shift => Some(Shortcut::AddMidiTrack),
        Key::T if ctrl && !shift => Some(Shortcut::AddAudioTrack),
        Key::Equal | Key::NumpadAdd => Some(Shortcut::ZoomIn(piano)),
        Key::Minus | Key::NumpadSubtract => Some(Shortcut::ZoomOut(piano)),
        _ => None,
    }
}

/// The view's own shortcuts take precedence over the global ones.
pub open spec fn shortcut_for(view: ActiveView, key: Key, ctrl: bool, shift: bool) -> Option<Shortcut> {
    let local = match view {
        ActiveView::PianoRoll => piano_roll_shortcut(key, ctrl, shift),
        ActiveView::Arrangement => arrangement_shortcut(key, ctrl),
        _ => None,
    };
    match local {
        Some(s) => Some(s),
        None => global_shortcut(key, ctrl, shift, view),
    }
}

/// Law: in the arrangement, each clip command with Ctrl has its own key
/// and no other key asks for it: Ctrl+E splits at the playhead, Ctrl+D
/// duplicates, Ctrl+C copies, Ctrl+V pastes and Ctrl+A selects every clip,
/// with or without Shift.
pub proof fn lemma_arrangement_clip_keys()
    ensures
        forall|shift: bool| #[trigger] shortcut_for(ActiveView::Arrangement, Key::V, true, shift) == Some(Shortcut::PasteClips),
        forall|shift: bool| #[trigger] shortcut_for(ActiveView::Arrangement, Key::C, true, shift) == Some(Shortcut::CopySelectedClips),
        forall|k: Key, shift: bool| (#[trigger] shortcut_for(ActiveView::Arrangement, k, true, shift) == Some(Shortcut::PasteClips)) == (k == Key::V),
        forall|k: Key, shift: bool| (#[trigger] shortcut_for(ActiveView::Arrangement, k, true, shift) == Some(Shortcut::CopySelectedClips)) == (k == Key::C),
        forall|k: Key, shift: bool| (#[trigger] shortcut_for(ActiveView::Arrangement, k, true, shift) == Some(Shortcut::SplitClipAtPlayhead)) == (k == Key::E),
        forall|k: Key, shift: bool| (#[trigger] shortcut_for(ActiveView::Arrangement, k, true, shift) == Some(Shortcut::DuplicateSelectedClips)) == (k == Key::D),
        forall|k: Key, shift: bool| (#[trigger] shortcut_for(ActiveView::Arrangement, k, true, shift) == Some(Shortcut::SelectAllClips)) == (k == Key::A),
        forall|k: Key, ctrl: bool, shift: bool| #[trigger] shortcut_for(ActiveView::Arrangement, k, ctrl, shift) == Some(Shortcut::PasteClips) ==> ctrl,
        forall|k: Key, ctrl: bool, shift: bool| #[trigger] shortcut_for(ActiveView::Arrangement, k, ctrl, shift) == Some(Shortcut::CopySelectedClips) ==> ctrl,
{
}

/// Law: deleting asks for the selection of the view in front, with either
/// key and without Ctrl, and select-all (Ctrl+A) likewise selects that
/// view's items; Ctrl+Z undoes and Ctrl+Shift+Z redoes in every view.
pub proof fn lemma_view_editing_keys()
    ensures
        forall|k: Key, shift: bool| (k == Key::Delete || k == Key::Backspace) ==> {
            &&& #[trigger] shortcut_for(ActiveView::Arrangement, k, false, shift) == Some(Shortcut::DeleteSelectedClips)
            &&& shortcut_for(ActiveView::PianoRoll, k, false, shift) == Some(Shortcut::DeleteSelectedNotes)
        },
        forall|shift: bool| {
            &&& #[trigger] shortcut_for(ActiveView::Arrangement, Key::A, true, shift) == Some(Shortcut::SelectAllClips)
            &&& shortcut_for(ActiveView::PianoRoll, Key::A, true, shift) == Some(Shortcut::SelectAllNotes)
        },
        forall|v: ActiveView| {
            &&& #[trigger] shortcut_for(v, Key::Z, true, false) == Some(Shortcut::Undo)
            &&& shortcut_for(v, Key::Z, true, true) == Some(Shortcut::Redo)
        },
{
}

/// Law: in the piano roll the up and down arrows transpose by the same
/// amount in opposite directions, up raising the pitch: by a semitone
/// alone, by an octave with Shift.
pub proof fn lemma_piano_roll_arrows_opposite()
    ensures
        forall|ctrl: bool, shift: bool| #[trigger] shortcut_for(ActiveView::PianoRoll, Key::ArrowUp, ctrl, shift) matches Some(Shortcut::TransposeSelectedNotes(u))
            ==> u > 0 && shortcut_for(ActiveView::PianoRoll, Key::ArrowDown, ctrl, shift) == Some(Shortcut::TransposeSelectedNotes((-u) as i8)),
        shortcut_for(ActiveView::PianoRoll, Key::ArrowUp, false, false) == Some(Shortcut::TransposeSelectedNotes(1i8)),
        shortcut_for(ActiveView::PianoRoll, Key::ArrowUp, false, true) == Some(Shortcut::TransposeSelectedNotes(12i8)),
{
}

fn piano_roll_keys(key: Key, ctrl: bool, shift: bool) -> (r: Option<Shortcut>)
    ensures
        r == piano_roll_shortcut(key, ctrl, shift),
{
    match key {
        Key::Q if ctrl => Some(Shortcut::QuantizeSelectedNotes),
        Key::ArrowUp if shift => Some(Shortcut::TransposeSelectedNotes(12i8)),
        Key::ArrowDown if shift => Some(Shortcut::TransposeSelectedNotes(-12i8)),
        Key::ArrowUp if !ctrl && !shift => Some(Shortcut::TransposeSelectedNotes(1i8)),
        Key::ArrowDown if !ctrl && !shift => Some(Shortcut::TransposeSelectedNotes(-1i8)),
        Key::V if !ctrl => Some(Shortcut::SetPianoRollTool(PianoRollTool::Velocity)),
        Key::D if !ctrl => Some(Shortcut::SetPianoRollTool(PianoRollTool::Draw)),
        Key::E if !ctrl => Some(Shortcut::SetPianoRollTool(PianoRollTool::Erase)),
        Key::A if ctrl => Some(Shortcut::SelectAllNotes),
        Key::Delete if !ctrl => Some(Shortcut::DeleteSelectedNotes),
        Key::Backspace if !ctrl => Some(Shortcut::DeleteSelectedNotes),
        _ => None,
    }
}

fn arrangement_keys(key: Key, ctrl: bool) -> (r: Option<Shortcut>)
    ensures
        r == arrangement_shortcut(key, ctrl),
{
    match key {
        Key::E if ctrl => Some(Shortcut::SplitClipAtPlayhead),
        Key::D if ctrl => Some(Shortcut::DuplicateSelectedClips),
        Key::C if ctrl => Some(Shortcut::CopySelectedClips),
        Key::V if ctrl => Some(Shortcut::PasteClips),
        Key::A if ctrl => Some(Shortcut::SelectAllClips),
        Key::Delete if !ctrl => Some(Shortcut::DeleteSelectedClips),
        Key::Backspace if !ctrl => Some(Shortcut::DeleteSelectedClips),
        _ => None,
    }
}

fn global_keys(key: Key, ctrl: bool, shift: bool, view: ActiveView) -> (r: Option<Shortcut>)
    ensures
        r == global_shortcut(key, ctrl, shift, view),
{
    let piano = view == ActiveView::PianoRoll;
    match key {
        Key::Space => Some(Shortcut::TogglePlayPause),
        Key::R if !ctrl => Some(Shortcut::Record),
        Key::Home => Some(Shortcut::ReturnToStart),
        Key::L if !ctrl => Some(Shortcut::ToggleLoop),
        Key::M if !ctrl => Some(Shortcut::ToggleMetronome),
        Key::F if !ctrl => Some(Shortcut::ToggleFollowPlayhead),
        Key::Z if ctrl && shift => Some(Shortcut::Redo),
        Key::Z if ctrl && !shift => Some(Shortcut::Undo),
        Key::S if ctrl => Some(Shortcut::SaveCurrentProject),
        Key::T if ctrl && shift => Some(Shortcut::AddMidiTrack),
        Key::T if ctrl && !shift => Some(Shortcut::AddAudioTrack),
        Key::Equal | Key::NumpadAdd => Some(Shortcut::ZoomIn(piano)),
        Key::Minus | Key::NumpadSubtract => Some(Shortcut::ZoomOut(piano)),
        _ => None,
    }
}

/// The shortcut a key press asks for in the active view, if any.
pub fn handle_key_event(view: ActiveView, key: Key, ctrl: bool, shift: bool) -> (r: Option<Shortcut>)
    ensures
        r == shortcut_for(view, key, ctrl, shift),
{
    let local = match view {
        ActiveView::PianoRoll => piano_roll_keys(key, ctrl, shift),
        ActiveView::Arrangement => arrangement_keys(key, ctrl),
        _ => None,
    };
    match local {
        Some(s) => Some(s),
        None => global_keys(key, ctrl, shift, view),
    }
}

} // verus!
