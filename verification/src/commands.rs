//! Commands sent from the UI to the audio engine.

use vstd::prelude::*;
use crate::ids::{ClipId, TrackId};
use crate::midi::{Note, NoteId};
use crate::time::TimeSignature;

verus! {

/// Commands the editing logic sends to the audio engine.
///
/// Track gain and pan travel as the bit patterns of their single-precision
/// values.
#[derive(Debug, Clone, Copy, PartialEq, Eq, Structural)]
#[allow(inconsistent_fields)]
pub enum EngineCommand {
    Play,
    Stop,
    Record,
    StopRecord,
    Pause,
    SetPosition(i64),
    SetTimeSignature(TimeSignature),
    SetTrackVolume { track_id: TrackId, volume_bits: u32 },
    SetTrackPan { track_id: TrackId, pan_bits: u32 },
    SetTrackMute { track_id: TrackId, mute: bool },
    SetTrackSolo { track_id: TrackId, solo: bool },
    ArmTrack { track_id: TrackId, armed: bool },
    NoteOn { channel: u8, note: u8, velocity: u8 },
    NoteOff { channel: u8, note: u8, velocity: u8 },
    AddNote { clip_id: ClipId, note: Note },
    RemoveNote { clip_id: ClipId, note_id: NoteId },
    MoveNote { clip_id: ClipId, note_id: NoteId, new_start: i64, new_pitch: u8 },
    ResizeNote { clip_id: ClipId, note_id: NoteId, new_duration: i64 },
}

} // verus!
