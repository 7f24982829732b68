//! The tick arithmetic of dragging and resizing clips with the mouse (the
//! pixel-to-tick conversion happens before).

use vstd::prelude::*;
use crate::app_data::AppData;
use crate::clip_ops::track_index_or_zero;
use crate::editor_state::{ClipResizeEdge, MIN_CLIP_DURATION};
use crate::ids::TrackId;
use crate::snap::{SnapGrid, snap_ticks};
use crate::time::{snap_down, snap_down_fits, snap_down_fits_check, snap_nearest, snap_nearest_fits, snap_nearest_fits_check};

verus! {

/// Start and length of a clip being resized at the mouse tick `raw`: the
/// right edge snaps to the nearest line, keeping at least the minimum
/// length; the left edge snaps down, stays at or after 0 and at least the
/// minimum length before the clip's end.
pub open spec fn resized_bounds(grid: int, edge: ClipResizeEdge, raw: i64, start: i64, duration: i64) -> (int, int) {
    match edge {
        ClipResizeEdge::Right => {
            let d = snap_nearest(raw as int, grid) - start;
            (start as int, if d > MIN_CLIP_DURATION { d } else { MIN_CLIP_DURATION as int })
        },
        ClipResizeEdge::Left => {
            let end = start + duration;
            let s0 = snap_down(raw as int, grid);
            let s1 = if s0 > 0 { s0 } else { 0 };
            let s = if s1 < end - MIN_CLIP_DURATION { s1 } else { end - MIN_CLIP_DURATION };
            (s, end - s)
        },
    }
}

/// The resize arithmetic stays within machine integers.
pub open spec fn resize_drag_fits(grid: int, edge: ClipResizeEdge, raw: i64, start: i64, duration: i64) -> bool {
    &&& grid > 0
    &&& match edge {
        ClipResizeEdge::Right => {
            &&& snap_nearest_fits(raw as int, grid)
            &&& i64::MIN <= snap_nearest(raw as int, grid) - start <= i64::MAX
        },
        ClipResizeEdge::Left => {
            &&& snap_down_fits(raw as int, grid)
            &&& i64::MIN <= start + duration - MIN_CLIP_DURATION
            &&& start + duration <= i64::MAX
            &&& {
                let r = resized_bounds(grid, edge, raw, start, duration);
                i64::MIN <= r.1 <= i64::MAX
            }
        },
    }
}

/// New start and length of a clip while one edge is dragged to `raw_tick`.
pub fn resize_drag_bounds(
    grid: SnapGrid,
    beats_per_bar: u8,
    edge: ClipResizeEdge,
    raw_tick: i64,
    original_start: i64,
    original_duration: i64,
) -> (r: (i64, i64))
    requires
        resize_drag_fits(snap_ticks(grid, beats_per_bar), edge, raw_tick, original_start, original_duration),
    ensures
        r.0 == resized_bounds(snap_ticks(grid, beats_per_bar), edge, raw_tick, original_start, original_duration).0,
        r.1 == resized_bounds(snap_ticks(grid, beats_per_bar), edge, raw_tick, original_start, original_duration).1,
{
    match edge {
        ClipResizeEdge::Right => {
            let snapped_end = grid.snap(raw_tick, beats_per_bar);
            let d = snapped_end - original_start;
            (original_start, if d > MIN_CLIP_DURATION { d } else { MIN_CLIP_DURATION })
        },
        ClipResizeEdge::Left => {
            let snapped_start = grid.snap_floor(raw_tick, beats_per_bar);
            let original_end = original_start + original_duration;
            let s1 = if snapped_start > 0 { snapped_start } else { 0 };
            let limit = original_end - MIN_CLIP_DURATION;
            let new_s = if s1 < limit { s1 } else { limit };
            (new_s, original_end - new_s)
        },
    }
}

/// Computing a clip drag's deltas stays within machine integers.
pub open spec fn clip_drag_fits(a: AppData, raw_tick: i64, grab_offset_tick: i64, anchor_original_start: i64, mouse_track_index: usize) -> bool {
    let g = snap_ticks(a.arrangement.snap_grid, a.transport.time_signature.numerator);
    &&& g > 0
    &&& i64::MIN <= raw_tick - grab_offset_tick <= i64::MAX
    &&& snap_down_fits(raw_tick - grab_offset_tick, g)
    &&& i64::MIN <= snap_down(raw_tick - grab_offset_tick, g) - anchor_original_start <= i64::MAX
    &&& mouse_track_index <= i32::MAX
    &&& a.project@.tracks.len() <= i32::MAX
}

/// Whether dragging one edge of a clip to `raw_tick` stays within machine
/// integers (the condition `resize_drag_bounds` asks for).
pub fn resize_drag_fits_check(
    grid: SnapGrid,
    beats_per_bar: u8,
    edge: ClipResizeEdge,
    raw_tick: i64,
    original_start: i64,
    original_duration: i64,
) -> (r: bool)
    ensures
        r == resize_drag_fits(snap_ticks(grid, beats_per_bar), edge, raw_tick, original_start, original_duration),
{
    let g = grid.ticks(beats_per_bar);
    if g <= 0 {
        return false;
    }
    match edge {
        ClipResizeEdge::Right => {
            if !snap_nearest_fits_check(raw_tick, g) {
                return false;
            }
            let e = grid.snap(raw_tick, beats_per_bar);
            let d: i128 = e as i128 - original_start as i128;
            -0x8000_0000_0000_0000 <= d && d <= 0x7FFF_FFFF_FFFF_FFFF
        },
        ClipResizeEdge::Left => {
            if !snap_down_fits_check(raw_tick, g) {
                return false;
            }
            let end: i128 = original_start as i128 + original_duration as i128;
            let limit: i128 = end - MIN_CLIP_DURATION as i128;
            if limit < -0x8000_0000_0000_0000 || end > 0x7FFF_FFFF_FFFF_FFFF {
                return false;
            }
            let s0: i128 = grid.snap_floor(raw_tick, beats_per_bar) as i128;
            let s1: i128 = if s0 > 0 { s0 } else { 0 };
            let s: i128 = if s1 < limit { s1 } else { limit };
            let d: i128 = end - s;
            -0x8000_0000_0000_0000 <= d && d <= 0x7FFF_FFFF_FFFF_FFFF
        },
    }
}

impl AppData {
    /// Whether computing a clip drag's deltas stays within machine integers
    /// (the condition `clip_drag_deltas` asks for).
    pub fn clip_drag_fits_check(&self, raw_tick: i64, grab_offset_tick: i64, anchor_original_start: i64, mouse_track_index: usize) -> (r: bool)
        ensures
            r == clip_drag_fits(*self, raw_tick, grab_offset_tick, anchor_original_start, mouse_track_index),
    {
        let grid = self.arrangement.snap_grid;
        let beats = self.transport.time_signature.numerator;
        let g = grid.ticks(beats);
        if g <= 0 || mouse_track_index > 0x7FFF_FFFF || self.project.tracks.len() > 0x7FFF_FFFF {
            return false;
        }
        let x: i128 = raw_tick as i128 - grab_offset_tick as i128;
        if x < -0x8000_0000_0000_0000 || x > 0x7FFF_FFFF_FFFF_FFFF {
            return false;
        }
        if !snap_down_fits_check(raw_tick - grab_offset_tick, g) {
            return false;
        }
        let s = grid.snap_floor(raw_tick - grab_offset_tick, beats);
        let d: i128 = s as i128 - anchor_original_start as i128;
        -0x8000_0000_0000_0000 <= d && d <= 0x7FFF_FFFF_FFFF_FFFF
    }
}

/// How far a clip drag has moved: the clip's new start (the mouse tick less
/// the grab offset, snapped down) relative to where it started, and the
/// mouse's track relative to the clip's original track (taken as 0 when it
/// is gone).
pub open spec fn drag_deltas(grid: int, raw: i64, grab_offset: i64, anchor_start: i64, original_track_index: int, mouse_track: int) -> (int, int) {
    (snap_down(raw - grab_offset, grid) - anchor_start, mouse_track - original_track_index)
}

impl AppData {
    /// Tick and track deltas of a clip drag with the mouse at `raw_tick` over
    /// the track at `mouse_track_index`.
    pub fn clip_drag_deltas(
        &self,
        raw_tick: i64,
        grab_offset_tick: i64,
        anchor_original_start: i64,
        anchor_original_track: TrackId,
        mouse_track_index: usize,
    ) -> (r: (i64, i32))
        requires
            clip_drag_fits(*self, raw_tick, grab_offset_tick, anchor_original_start, mouse_track_index),
        ensures
            ({
                let d = drag_deltas(
                    snap_ticks(self.arrangement.snap_grid, self.transport.time_signature.numerator),
                    raw_tick,
                    grab_offset_tick,
                    anchor_original_start,
                    track_index_or_zero(self.project@.tracks, anchor_original_track),
                    mouse_track_index as int,
                );
                r.0 == d.0 && r.1 == d.1
            }),
    {
        let beats = self.transport.time_signature.numerator;
        let snapped = self.arrangement.snap_grid.snap_floor(raw_tick - grab_offset_tick, beats);
        let delta_tick = snapped - anchor_original_start;
        let original_idx: i32 = match self.project.track_index(anchor_original_track) {
            Some(i) => i as i32,
            None => 0,
        };
        (delta_tick, mouse_track_index as i32 - original_idx)
    }
}

} // verus!
