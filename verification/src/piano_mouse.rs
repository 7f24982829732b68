//! Drawing, dragging and resizing notes with the mouse in the piano roll.
//!
//! The application turns the mouse position into a tick and a pitch and
//! hit-tests the notes; these handlers decide what the gesture does.

use vstd::prelude::*;
use crate::app_data::{AppData, add_note_result, move_note_result, resize_note_result};
use crate::commands::EngineCommand;
use crate::editor_state::{Effect, PianoRollInteraction, PianoRollState, ResizeEdge};
use crate::midi::{Note, NoteId};
use crate::note_selection::open_clip;
use crate::time::{quantize_ticks, snap_down, snap_down_fits, snap_down_fits_check, snap_nearest, snap_nearest_fits, snap_nearest_fits_check};
use crate::undo_actions::{find_note, note_pos};

verus! {

/// Shortest note a resize leaves.
pub const MIN_NOTE_DURATION: i64 = 1;

/// The first note of this id in the open clip.
pub open spec fn open_note(a: AppData, nid: NoteId) -> Option<Note> {
    match open_clip(a) {
        Some(c) => match note_pos(c.notes, nid) {
            Some(k) => Some(c.notes[k]),
            None => None,
        },
        None => None,
    }
}

/// The state with a new piano-roll interaction.
pub open spec fn with_interaction(a: AppData, i: PianoRollInteraction) -> AppData {
    AppData { piano_roll: PianoRollState { interaction: i, ..a.piano_roll }, ..a }
}

/// The grid of the piano roll, in ticks.
pub open spec fn piano_grid(a: AppData) -> int {
    quantize_ticks(a.piano_roll.quantize)
}

/// The larger of two values.
pub open spec fn max_int(x: int, y: int) -> int {
    if x > y { x } else { y }
}

/// The note a finished drawing gesture adds: from the earlier to the later
/// tick, at least one grid step long.
pub open spec fn drawn_note(start: i64, end: i64, pitch: u8, velocity: u8, grid: int) -> Note {
    let lo = if start < end { start } else { end };
    let hi = if start < end { end } else { start };
    Note { id: NoteId(0), pitch, start_tick: lo, duration_ticks: max_int(hi - lo, grid) as i64, velocity, channel: 0 }
}

/// Law: a drawing gesture, whichever way it was dragged, adds a note that
/// starts at the earlier of the press and release ticks and covers the
/// whole dragged span, lasting the distance between them but never less
/// than one grid step; it keeps the pitch and velocity of the press.
pub proof fn lemma_drawn_note_spans(start: i64, end: i64, pitch: u8, velocity: u8, grid: int)
    requires
        0 < grid <= i64::MAX,
        end - start <= i64::MAX,
        start - end <= i64::MAX,
    ensures
        ({
            let n = drawn_note(start, end, pitch, velocity, grid);
            &&& n.start_tick <= start
            &&& n.start_tick <= end
            &&& n.start_tick == start || n.start_tick == end
            &&& n.duration_ticks >= grid
            &&& n.duration_ticks >= end - start
            &&& n.duration_ticks >= start - end
            &&& n.duration_ticks == grid || n.duration_ticks == end - start || n.duration_ticks == start - end
            &&& n.start_tick + n.duration_ticks >= start
            &&& n.start_tick + n.duration_ticks >= end
            &&& end - start >= grid ==> n.start_tick == start && n.duration_ticks == end - start
            &&& start - end >= grid ==> n.start_tick == end && n.duration_ticks == start - end
            &&& n.pitch == pitch
            &&& n.velocity == velocity
        }),
{
}

/// Pressing the mouse stays within machine integers.
pub open spec fn mouse_down_fits(a: AppData, hit: Option<(Note, bool)>, tick: i64) -> bool {
    match hit {
        Some((n, false)) => i64::MIN <= tick - n.start_tick <= i64::MAX,
        Some((_, true)) => true,
        None => snap_down_fits(tick as int, piano_grid(a)) && snap_down(tick as int, piano_grid(a)) + piano_grid(a) <= i64::MAX,
    }
}

/// Moving the mouse stays within machine integers.
pub open spec fn mouse_move_fits(a: AppData, tick: i64) -> bool {
    match a.piano_roll.interaction {
        PianoRollInteraction::DrawingNote { .. } => snap_nearest_fits(tick as int, piano_grid(a)),
        PianoRollInteraction::DraggingNote { drag_offset_tick, .. } => {
            &&& i64::MIN <= tick - drag_offset_tick <= i64::MAX
            &&& snap_down_fits(tick - drag_offset_tick, piano_grid(a))
        },
        PianoRollInteraction::ResizingNote { note_id, edge, .. } => match open_note(a, note_id) {
            Some(n) => match edge {
                ResizeEdge::Right => {
                    &&& snap_nearest_fits(tick as int, piano_grid(a))
                    &&& i64::MIN <= snap_nearest(tick as int, piano_grid(a)) - n.start_tick <= i64::MAX
                },
                ResizeEdge::Left => {
                    &&& snap_down_fits(tick as int, piano_grid(a))
                    &&& i64::MIN <= n.start_tick + n.duration_ticks <= i64::MAX
                    &&& i64::MIN <= n.start_tick + n.duration_ticks - max_int(snap_down(tick as int, piano_grid(a)), 0) <= i64::MAX
                },
            },
            None => true,
        },
        PianoRollInteraction::Idle => true,
    }
}

/// Releasing the mouse stays within machine integers.
pub open spec fn mouse_up_fits(a: AppData) -> bool {
    match a.piano_roll.interaction {
        PianoRollInteraction::DrawingNote { start_tick, current_end_tick, .. } => {
            &&& a.piano_roll.next_note_id < u64::MAX
            &&& i64::MIN <= start_tick - current_end_tick <= i64::MAX
            &&& i64::MIN <= current_end_tick - start_tick <= i64::MAX
        },
        _ => true,
    }
}

impl AppData {
    /// Press the left button at `tick`/`pitch` over `hit` (a note and
    /// whether the press is near its right edge): near an edge a resize
    /// starts, on a note a drag starts (and the note sounds), elsewhere a
    /// new note starts at the grid line at or before the press (and sounds).
    /// Nothing happens without an open clip.
    pub fn piano_mouse_down(&mut self, hit: Option<(Note, bool)>, tick: i64, pitch: u8) -> (fx: Vec<Effect>)
        requires
            old(self).piano_roll.active_clip_id is Some ==> mouse_down_fits(*old(self), hit, tick),
        ensures
            old(self).piano_roll.active_clip_id is None ==> *final(self) == *old(self) && fx@.len() == 0,
            old(self).piano_roll.active_clip_id is Some ==> match hit {
                Some((n, true)) => *final(self) == with_interaction(*old(self), PianoRollInteraction::ResizingNote {
                    note_id: n.id,
                    original_duration: n.duration_ticks,
                    edge: ResizeEdge::Right,
                }) && fx@.len() == 0,
                Some((n, false)) => *final(self) == with_interaction(*old(self), PianoRollInteraction::DraggingNote {
                    note_id: n.id,
                    original_start: n.start_tick,
                    original_pitch: n.pitch,
                    drag_offset_tick: (tick - n.start_tick) as i64,
                    drag_offset_pitch: 0,
                }) && fx@ == seq![Effect::Send(EngineCommand::NoteOn { channel: 0, note: n.pitch, velocity: n.velocity })],
                None => {
                    let s = snap_down(tick as int, piano_grid(*old(self)));
                    &&& *final(self) == with_interaction(*old(self), PianoRollInteraction::DrawingNote {
                        start_tick: s as i64,
                        pitch,
                        velocity: old(self).piano_roll.default_velocity,
                        current_end_tick: (s + piano_grid(*old(self))) as i64,
                    })
                    &&& fx@ == seq![Effect::Send(EngineCommand::NoteOn { channel: 0, note: pitch, velocity: old(self).piano_roll.default_velocity })]
                },
            },
    {
        if self.piano_roll.active_clip_id.is_none() {
            return Vec::new();
        }
        match hit {
            Some((n, true)) => {
                self.piano_roll.interaction = PianoRollInteraction::ResizingNote {
                    note_id: n.id,
                    original_duration: n.duration_ticks,
                    edge: ResizeEdge::Right,
                };
                Vec::new()
            },
            Some((n, false)) => {
                self.piano_roll.interaction = PianoRollInteraction::DraggingNote {
                    note_id: n.id,
                    original_start: n.start_tick,
                    original_pitch: n.pitch,
                    drag_offset_tick: tick - n.start_tick,
                    drag_offset_pitch: 0,
                };
                vec![Effect::Send(EngineCommand::NoteOn { channel: 0, note: n.pitch, velocity: n.velocity })]
            },
            None => {
                let grid = self.piano_roll.quantize;
                let snapped = grid.snap_floor(tick);
                let velocity = self.piano_roll.default_velocity;
                self.piano_roll.interaction = PianoRollInteraction::DrawingNote {
                    start_tick: snapped,
                    pitch,
                    velocity,
                    current_end_tick: snapped + grid.ticks(),
                };
                vec![Effect::Send(EngineCommand::NoteOn { channel: 0, note: pitch, velocity })]
            },
        }
    }

    /// The first note of this id in the open clip.
    fn find_open_note(&self, nid: NoteId) -> (r: Option<Note>)
        ensures
            r == open_note(*self, nid),
    {
        let cid = match self.piano_roll.active_clip_id {
            Some(c) => c,
            None => return None,
        };
        let i = match self.project.clip_index(cid) {
            Some(i) => i,
            None => return None,
        };
        proof {
            assert(self.project.clips@[i as int]@ == self.project@.clips[i as int]);
        }
        match find_note(&self.project.clips[i].notes, nid) {
            Some(k) => Some(self.project.clips[i].notes[k]),
            None => None,
        }
    }

    /// Move the mouse to `tick`/`pitch` during a gesture: a drawn note's end
    /// follows to the nearest grid line; a dragged note moves (snapped down,
    /// not before 0); a right-edge resize sets the length to the nearest
    /// grid line (at least the minimum); a left-edge resize moves the start
    /// (snapped down, not before 0) keeping the end. Nothing happens without
    /// an open clip.
    pub fn piano_mouse_move(&mut self, tick: i64, pitch: u8) -> (fx: Vec<Effect>)
        requires
            old(self).piano_roll.active_clip_id is Some ==> mouse_move_fits(*old(self), tick),
        ensures
            old(self).piano_roll.active_clip_id is None ==> *final(self) == *old(self) && fx@.len() == 0,
            old(self).piano_roll.active_clip_id is Some ==> match old(self).piano_roll.interaction {
                PianoRollInteraction::DrawingNote { start_tick, pitch: p, velocity, .. } => *final(self) == with_interaction(
                    *old(self),
                    PianoRollInteraction::DrawingNote {
                        start_tick,
                        pitch: p,
                        velocity,
                        current_end_tick: snap_nearest(tick as int, piano_grid(*old(self))) as i64,
                    },
                ) && fx@.len() == 0,
                PianoRollInteraction::DraggingNote { note_id, drag_offset_tick, .. } => move_note_result(
                    *old(self),
                    *final(self),
                    note_id,
                    max_int(snap_down(tick - drag_offset_tick, piano_grid(*old(self))), 0) as i64,
                    pitch,
                    fx@,
                ),
                PianoRollInteraction::ResizingNote { note_id, edge, .. } => match open_note(*old(self), note_id) {
                    None => *final(self) == *old(self) && fx@.len() == 0,
                    Some(n) => match edge {
                        ResizeEdge::Right => resize_note_result(
                            *old(self),
                            *final(self),
                            note_id,
                            max_int(snap_nearest(tick as int, piano_grid(*old(self))) - n.start_tick, MIN_NOTE_DURATION as int) as i64,
                            fx@,
                        ),
                        ResizeEdge::Left => {
                            let s = max_int(snap_down(tick as int, piano_grid(*old(self))), 0);
                            exists|mid: AppData, f1: Seq<Effect>, f2: Seq<Effect>| {
                                &&& #[trigger] move_note_result(*old(self), mid, note_id, s as i64, n.pitch, f1)
                                &&& #[trigger] resize_note_result(mid, *final(self), note_id,
                                    max_int(n.start_tick + n.duration_ticks - s, MIN_NOTE_DURATION as int) as i64, f2)
                                &&& fx@ == f1 + f2
                            }
                        },
                    },
                },
                PianoRollInteraction::Idle => *final(self) == *old(self) && fx@.len() == 0,
            },
    {
        if self.piano_roll.active_clip_id.is_none() {
            return Vec::new();
        }
        let grid = self.piano_roll.quantize;
        match self.piano_roll.interaction {
            PianoRollInteraction::DrawingNote { start_tick, pitch: p, velocity, .. } => {
                let end = grid.snap(tick);
                self.piano_roll.interaction = PianoRollInteraction::DrawingNote { start_tick, pitch: p, velocity, current_end_tick: end };
                Vec::new()
            },
            PianoRollInteraction::DraggingNote { note_id, drag_offset_tick, .. } => {
                let s = grid.snap_floor(tick - drag_offset_tick);
                let start = if s > 0 { s } else { 0 };
                self.move_note(note_id, start, pitch)
            },
            PianoRollInteraction::ResizingNote { note_id, edge, .. } => {
                match self.find_open_note(note_id) {
                    None => Vec::new(),
                    Some(n) => match edge {
                        ResizeEdge::Right => {
                            let d = grid.snap(tick) - n.start_tick;
                            self.resize_note(note_id, if d > MIN_NOTE_DURATION { d } else { MIN_NOTE_DURATION })
                        },
                        ResizeEdge::Left => {
                            let end = n.start_tick + n.duration_ticks;
                            let s0 = grid.snap_floor(tick);
                            let s = if s0 > 0 { s0 } else { 0 };
                            let d = end - s;
                            let ghost a0 = *self;
                            let mut fx = self.move_note(note_id, s, n.pitch);
                            let ghost mid = *self;
                            let ghost f1 = fx@;
                            let fx2 = self.resize_note(note_id, if d > MIN_NOTE_DURATION { d } else { MIN_NOTE_DURATION });
                            let ghost f2 = fx2@;
                            let mut k: usize = 0;
                            let m = fx2.len();
                            while k < m
                                invariant
                                    m == fx2@.len(),
                                    k <= m,
                                    fx@ == f1 + fx2@.take(k as int),
                                decreases m - k,
                            {
                                fx.push(fx2[k]);
                                proof {
                                    assert(fx2@.take(k as int + 1) == fx2@.take(k as int).push(fx2@[k as int]));
                                    assert(fx@ =~= f1 + fx2@.take(k as int + 1));
                                }
                                k = k + 1;
                            }
                            proof {
                                assert(fx2@.take(m as int) == fx2@);
                                let ss = max_int(snap_down(tick as int, piano_grid(a0)), 0);
                                assert(ss as i64 == s);
                                assert(max_int(n.start_tick + n.duration_ticks - ss, MIN_NOTE_DURATION as int) as i64
                                    == (if d > MIN_NOTE_DURATION { d } else { MIN_NOTE_DURATION }));
                                assert(move_note_result(a0, mid, note_id, ss as i64, n.pitch, f1));
                                assert(resize_note_result(mid, *self, note_id,
                                    max_int(n.start_tick + n.duration_ticks - ss, MIN_NOTE_DURATION as int) as i64, f2));
                            }
                            fx
                        },
                    },
                }
            },
            PianoRollInteraction::Idle => Vec::new(),
        }
    }

    /// Release the left button: a drawn note is added (from the earlier to
    /// the later tick, at least one grid step long) and stops sounding; a
    /// dragged note stops sounding; the gesture ends. Nothing happens
    /// without an open clip.
    pub fn piano_mouse_up(&mut self) -> (fx: Vec<Effect>)
        requires
            old(self).piano_roll.active_clip_id is Some ==> mouse_up_fits(*old(self)),
        ensures
            old(self).piano_roll.active_clip_id is None ==> *final(self) == *old(self) && fx@.len() == 0,
            old(self).piano_roll.active_clip_id is Some ==> match old(self).piano_roll.interaction {
                PianoRollInteraction::DrawingNote { start_tick, pitch, velocity, current_end_tick } => {
                    exists|mid: AppData, f1: Seq<Effect>| {
                        &&& #[trigger] add_note_result(*old(self), mid, drawn_note(start_tick, current_end_tick, pitch, velocity, piano_grid(*old(self))), f1)
                        &&& *final(self) == with_interaction(mid, PianoRollInteraction::Idle)
                        &&& fx@ == f1.push(Effect::Send(EngineCommand::NoteOff { channel: 0, note: pitch, velocity: 0 }))
                    }
                },
                PianoRollInteraction::DraggingNote { original_pitch, .. } => {
                    &&& *final(self) == with_interaction(*old(self), PianoRollInteraction::Idle)
                    &&& fx@ == seq![Effect::Send(EngineCommand::NoteOff { channel: 0, note: original_pitch, velocity: 0 })]
                },
                _ => *final(self) == with_interaction(*old(self), PianoRollInteraction::Idle) && fx@.len() == 0,
            },
    {
        if self.piano_roll.active_clip_id.is_none() {
            return Vec::new();
        }
        let fx = match self.piano_roll.interaction {
            PianoRollInteraction::DrawingNote { start_tick, pitch, velocity, current_end_tick } => {
                let grid_ticks = self.piano_roll.quantize.ticks();
                let lo = if start_tick < current_end_tick { start_tick } else { current_end_tick };
                let hi = if start_tick < current_end_tick { current_end_tick } else { start_tick };
                let d = hi - lo;
                let note = Note {
                    id: NoteId(0),
                    pitch,
                    start_tick: lo,
                    duration_ticks: if d > grid_ticks { d } else { grid_ticks },
                    velocity,
                    channel: 0,
                };
                let ghost a0 = *self;
                let mut fx = self.add_note(note);
                let ghost f1 = fx@;
                let ghost mid = *self;
                fx.push(Effect::Send(EngineCommand::NoteOff { channel: 0, note: pitch, velocity: 0 }));
                self.piano_roll.interaction = PianoRollInteraction::Idle;
                proof {
                    assert(note == drawn_note(start_tick, current_end_tick, pitch, velocity, piano_grid(a0)));
                    assert(add_note_result(a0, mid, drawn_note(start_tick, current_end_tick, pitch, velocity, piano_grid(a0)), f1));
                    assert(*self == with_interaction(mid, PianoRollInteraction::Idle));
                }
                fx
            },
            PianoRollInteraction::DraggingNote { original_pitch, .. } => {
                self.piano_roll.interaction = PianoRollInteraction::Idle;
                vec![Effect::Send(EngineCommand::NoteOff { channel: 0, note: original_pitch, velocity: 0 })]
            },
            _ => {
                self.piano_roll.interaction = PianoRollInteraction::Idle;
                Vec::new()
            },
        };
        fx
    }
}

impl AppData {
    /// Whether pressing the mouse at `tick` over `hit` stays within machine
    /// integers (the condition `piano_mouse_down` asks for).
    pub fn mouse_down_fits_check(&self, hit: Option<(Note, bool)>, tick: i64) -> (r: bool)
        ensures
            r == mouse_down_fits(*self, hit, tick),
    {
        let grid = self.piano_roll.quantize;
        match hit {
            Some((n, false)) => {
                let d: i128 = tick as i128 - n.start_tick as i128;
                -0x8000_0000_0000_0000 <= d && d <= 0x7FFF_FFFF_FFFF_FFFF
            },
            Some((_, true)) => true,
            None => {
                if !snap_down_fits_check(tick, grid.ticks()) {
                    return false;
                }
                let s = grid.snap_floor(tick);
                s as i128 + grid.ticks() as i128 <= 0x7FFF_FFFF_FFFF_FFFF
            },
        }
    }

    /// Whether moving the mouse to `tick` stays within machine integers
    /// (the condition `piano_mouse_move` asks for).
    pub fn mouse_move_fits_check(&self, tick: i64) -> (r: bool)
        ensures
            r == mouse_move_fits(*self, tick),
    {
        let grid = self.piano_roll.quantize;
        let g = grid.ticks();
        match self.piano_roll.interaction {
            PianoRollInteraction::DrawingNote { .. } => snap_nearest_fits_check(tick, g),
            PianoRollInteraction::DraggingNote { drag_offset_tick, .. } => {
                let d: i128 = tick as i128 - drag_offset_tick as i128;
                if d < -0x8000_0000_0000_0000 || d > 0x7FFF_FFFF_FFFF_FFFF {
                    return false;
                }
                snap_down_fits_check(tick - drag_offset_tick, g)
            },
            PianoRollInteraction::ResizingNote { note_id, edge, .. } => match self.find_open_note(note_id) {
                None => true,
                Some(n) => match edge {
                    ResizeEdge::Right => {
                        if !snap_nearest_fits_check(tick, g) {
                            return false;
                        }
                        let e = grid.snap(tick);
                        let d: i128 = e as i128 - n.start_tick as i128;
                        -0x8000_0000_0000_0000 <= d && d <= 0x7FFF_FFFF_FFFF_FFFF
                    },
                    ResizeEdge::Left => {
                        if !snap_down_fits_check(tick, g) {
                            return false;
                        }
                        let end: i128 = n.start_tick as i128 + n.duration_ticks as i128;
                        if end < -0x8000_0000_0000_0000 || end > 0x7FFF_FFFF_FFFF_FFFF {
                            return false;
                        }
                        let s = grid.snap_floor(tick);
                        let s0: i128 = if s > 0 { s as i128 } else { 0 };
                        let d: i128 = end - s0;
                        -0x8000_0000_0000_0000 <= d && d <= 0x7FFF_FFFF_FFFF_FFFF
                    },
                },
            },
            PianoRollInteraction::Idle => true,
        }
    }

    /// Whether releasing the mouse stays within machine integers (the
    /// condition `piano_mouse_up` asks for).
    pub fn mouse_up_fits_check(&self) -> (r: bool)
        ensures
            r == mouse_up_fits(*self),
    {
        match self.piano_roll.interaction {
            PianoRollInteraction::DrawingNote { start_tick, current_end_tick, .. } => {
                let d: i128 = start_tick as i128 - current_end_tick as i128;
                self.piano_roll.next_note_id < u64::MAX
                    && -0x8000_0000_0000_0000 <= d && d <= 0x7FFF_FFFF_FFFF_FFFF
                    && -0x8000_0000_0000_0000 <= -d && -d <= 0x7FFF_FFFF_FFFF_FFFF
            },
            _ => true,
        }
    }
}

} // verus!
