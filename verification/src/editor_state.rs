//! Editor state beside the project: transport, arrangement and piano-roll
//! settings, the active view, and the effects the editing logic asks the
//! application to carry out.

use vstd::prelude::*;
use crate::clipboard::ClipClipboard;
use crate::commands::EngineCommand;
use crate::ids::{ClipId, TrackId};
use crate::midi::NoteId;
use crate::selection::ClipSelection;
use crate::snap::SnapGrid;
use crate::time::{QuantizeGrid, TimeSignature};

verus! {

/// Which main view is currently active.
#[derive(Debug, Clone, Copy, PartialEq, Eq, Structural)]
pub enum ActiveView {
    Arrangement,
    Mixer,
    PianoRoll,
    Browser,
}

/// Active editing tool in the piano roll.
#[derive(Debug, Clone, Copy, PartialEq, Eq, Structural)]
pub enum PianoRollTool {
    Draw,
    Erase,
    Velocity,
}

impl Default for PianoRollTool {
    fn default() -> (r: Self)
        ensures
            r == PianoRollTool::Draw,
    {
        PianoRollTool::Draw
    }
}

/// Which edge of a note is being resized.
#[derive(Debug, Clone, Copy, PartialEq, Eq, Structural)]
pub enum ResizeEdge {
    Left,
    Right,
}

/// Which edge of a clip is being resized.
#[derive(Debug, Clone, Copy, PartialEq, Eq, Structural)]
pub enum ClipResizeEdge {
    Left,
    Right,
}

/// Which zone of a clip a click landed in.
#[derive(Debug, Clone, Copy, PartialEq, Eq, Structural)]
pub enum ClipHitZone {
    Body,
    LeftEdge,
    RightEdge,
}

/// Shortest clip a resize may leave (a 1/64 note: a sixteenth of `PPQN`).
pub const MIN_CLIP_DURATION: i64 = 60;

/// Transport: playhead, play/record status, loop and metronome.
#[derive(Debug)]
pub struct TransportState {
    pub position: i64,
    pub is_playing: bool,
    pub is_recording: bool,
    pub time_signature: TimeSignature,
    pub loop_enabled: bool,
    pub loop_start: i64,
    pub loop_end: i64,
    pub metronome_enabled: bool,
    pub follow_playhead: bool,
    /// Playhead position when recording started.
    pub record_start_position: Option<i64>,
    /// Tracks being recorded.
    pub recording_tracks: Vec<TrackId>,
}

/// The transport as the application starts: stopped at 0 in 4/4, loop
/// off over the first two bars, metronome off, following the playhead, not
/// recording.
pub open spec fn transport_at_start(t: TransportState) -> bool {
    &&& t.position == 0
    &&& !t.is_playing
    &&& !t.is_recording
    &&& t.time_signature == (TimeSignature { numerator: 4, denominator: 4 })
    &&& !t.loop_enabled
    &&& t.loop_start == 0
    &&& t.loop_end == 7680
    &&& !t.metronome_enabled
    &&& t.follow_playhead
    &&& t.record_start_position is None
    &&& t.recording_tracks@.len() == 0
}

impl Default for TransportState {
    fn default() -> (r: Self)
        ensures
            transport_at_start(r),
    {
        TransportState {
            position: 0,
            is_playing: false,
            is_recording: false,
            time_signature: TimeSignature::default(),
            loop_enabled: false,
            loop_start: 0,
            loop_end: 7680,
            metronome_enabled: false,
            follow_playhead: true,
            record_start_position: None,
            recording_tracks: Vec::new(),
        }
    }
}

/// Piano roll mouse interaction in progress.
#[derive(Debug, Clone, Copy, PartialEq, Eq, Structural)]
pub enum PianoRollInteraction {
    Idle,
    /// A new note is being drawn.
    DrawingNote { start_tick: i64, pitch: u8, velocity: u8, current_end_tick: i64 },
    /// A note is being dragged.
    DraggingNote { note_id: NoteId, original_start: i64, original_pitch: u8, drag_offset_tick: i64, drag_offset_pitch: i8 },
    /// A note is being resized from one edge.
    ResizingNote { note_id: NoteId, original_duration: i64, edge: ResizeEdge },
}

/// Piano roll settings and note selection.
#[derive(Debug)]
pub struct PianoRollState {
    /// Currently open clip (none: the piano roll is hidden).
    pub active_clip_id: Option<ClipId>,
    /// Top visible MIDI note number.
    pub scroll_y: u8,
    /// Active quantisation grid.
    pub quantize: QuantizeGrid,
    /// Velocity for new notes.
    pub default_velocity: u8,
    /// Selected notes.
    pub selected_notes: Vec<NoteId>,
    /// Next note id to hand out.
    pub next_note_id: u64,
    /// Active editing tool.
    pub tool: PianoRollTool,
    /// Mouse interaction in progress.
    pub interaction: PianoRollInteraction,
}

/// The piano roll's settings as the application starts (the note-id
/// counter aside): no clip open, scrolled to note 84, sixteenth grid,
/// velocity 100, nothing selected, drawing, idle.
pub open spec fn piano_roll_settings_at_start(p: PianoRollState) -> bool {
    &&& p.active_clip_id is None
    &&& p.scroll_y == 84
    &&& p.quantize == QuantizeGrid::Sixteenth
    &&& p.default_velocity == 100
    &&& p.selected_notes@.len() == 0
    &&& p.tool == PianoRollTool::Draw
    &&& p.interaction == PianoRollInteraction::Idle
}

impl Default for PianoRollState {
    fn default() -> (r: Self)
        ensures
            piano_roll_settings_at_start(r),
            r.next_note_id == 1,
    {
        PianoRollState {
            active_clip_id: None,
            scroll_y: 84,
            quantize: QuantizeGrid::Sixteenth,
            default_velocity: 100,
            selected_notes: Vec::new(),
            next_note_id: 1,
            tool: PianoRollTool::Draw,
            interaction: PianoRollInteraction::Idle,
        }
    }
}

impl PianoRollState {
    /// Hand out a new note id.
    pub fn alloc_note_id(&mut self) -> (r: NoteId)
        requires
            old(self).next_note_id < u64::MAX,
        ensures
            r == NoteId(old(self).next_note_id),
            final(self).next_note_id == old(self).next_note_id + 1,
            final(self).active_clip_id == old(self).active_clip_id,
            final(self).scroll_y == old(self).scroll_y,
            final(self).quantize == old(self).quantize,
            final(self).default_velocity == old(self).default_velocity,
            final(self).selected_notes == old(self).selected_notes,
            final(self).tool == old(self).tool,
            final(self).interaction == old(self).interaction,
    {
        let id = NoteId(self.next_note_id);
        self.next_note_id = self.next_note_id + 1;
        id
    }
}

/// How scrolling by `dy` note rows changes the piano roll `a` into `b`.
pub open spec fn scroll_by_result(a: PianoRollState, b: PianoRollState, dy: i8) -> bool {
    &&& b == (PianoRollState { scroll_y: clamp_int(a.scroll_y + dy, 0, 127) as u8, ..a })
}

impl PianoRollState {
    /// Scroll the visible note range, staying within the MIDI range.
    pub fn scroll_by(&mut self, dy: i8)
        ensures
            scroll_by_result(*old(self), *final(self), dy),
    {
        let v: i16 = self.scroll_y as i16 + dy as i16;
        self.scroll_y = if v < 0 {
            0
        } else if v > 127 {
            127
        } else {
            v as u8
        };
    }
}

/// `x` limited to `[lo, hi]`.
pub open spec fn clamp_int(x: int, lo: int, hi: int) -> int {
    if x < lo {
        lo
    } else if x > hi {
        hi
    } else {
        x
    }
}

/// Arrangement selection, snap grid and clipboard.
#[derive(Debug)]
pub struct ArrangementState {
    /// Currently selected track.
    pub selected_track: Option<TrackId>,
    /// Currently selected clips.
    pub selected_clips: ClipSelection,
    /// Arrangement snap grid.
    pub snap_grid: SnapGrid,
    /// Clipboard for copy and paste.
    pub clipboard: ClipClipboard,
}

/// The arrangement as the application starts: nothing selected, snapping
/// to quarter notes, an empty clipboard.
pub open spec fn arrangement_at_start(a: ArrangementState) -> bool {
    &&& a.selected_track is None
    &&& a.selected_clips@ == Set::<ClipId>::empty()
    &&& a.selected_clips.order() == Seq::<ClipId>::empty()
    &&& a.snap_grid == SnapGrid::Quarter
    &&& a.clipboard.entries@.len() == 0
}

impl Default for ArrangementState {
    fn default() -> (r: Self)
        ensures
            arrangement_at_start(r),
    {
        ArrangementState {
            selected_track: None,
            selected_clips: ClipSelection::new(),
            snap_grid: SnapGrid::Quarter,
            clipboard: ClipClipboard { entries: Vec::new() },
        }
    }
}

/// What the editing logic asks the application to do.
#[derive(Debug, Clone, Copy, PartialEq, Eq, Structural)]
#[allow(inconsistent_fields)]
pub enum Effect {
    /// Send a command to the audio engine.
    Send(EngineCommand),
    /// Take a clip out of the engine's playback (audio clips and MIDI clips
    /// leave through different channels).
    RemoveClipFromEngine { clip_id: ClipId, track_id: TrackId, is_audio: bool },
    /// (Re)install a clip in the engine from its current state.
    InstallClipInEngine { clip_id: ClipId },
    /// Let a new clip share the decoded audio of another.
    ShareAudio { from: ClipId, to: ClipId },
    /// Drop the decoded audio held for a clip.
    ForgetAudio { clip_id: ClipId },
    /// Start writing a track's input to disk.
    StartDiskRecording { track_id: TrackId },
    /// Stop writing a track's input to disk.
    StopDiskRecording { track_id: TrackId },
}

/// Engine commands as effects.
pub open spec fn sends(cmds: Seq<EngineCommand>) -> Seq<Effect> {
    cmds.map_values(|c: EngineCommand| Effect::Send(c))
}

/// Wrap engine commands as effects.
pub fn send_all(cmds: Vec<EngineCommand>) -> (r: Vec<Effect>)
    ensures
        r@ == sends(cmds@),
{
    let mut r: Vec<Effect> = Vec::new();
    let n = cmds.len();
    for i in 0..n
        invariant
            n == cmds@.len(),
            r@ == sends(cmds@.take(i as int)),
    {
        r.push(Effect::Send(cmds[i]));
        proof {
            assert(cmds@.take(i as int + 1) == cmds@.take(i as int).push(cmds@[i as int]));
            assert(r@ =~= sends(cmds@.take(i as int + 1)));
        }
    }
    proof {
        assert(cmds@.take(n as int) == cmds@);
    }
    r
}

} // verus!
