//! Snap grid for the arrangement view — a broader set than the piano roll's
//! quantisation grid.

use vstd::prelude::*;
use crate::time::{PPQN, floor_to_grid, snap_down, snap_down_fits, snap_nearest, snap_nearest_fits};

verus! {

/// Snap grid resolution for the arrangement view.
#[derive(Debug, Clone, Copy, PartialEq, Eq, Structural)]
pub enum SnapGrid {
    Off,
    Bar,
    Half,
    Quarter,
    Eighth,
    Sixteenth,
}

impl Default for SnapGrid {
    fn default() -> (r: Self)
        ensures
            r == SnapGrid::Quarter,
    {
        SnapGrid::Quarter
    }
}

/// Grid size in ticks; a bar holds `beats_per_bar` quarter notes.
pub open spec fn snap_ticks(g: SnapGrid, beats_per_bar: u8) -> int {
    match g {
        SnapGrid::Off => 1,
        SnapGrid::Bar => 960 * beats_per_bar,
        SnapGrid::Half => 1920,
        SnapGrid::Quarter => 960,
        SnapGrid::Eighth => 480,
        SnapGrid::Sixteenth => 240,
    }
}

impl SnapGrid {
    /// Grid resolution in ticks. Bar depends on the time signature numerator.
    pub fn ticks(self, beats_per_bar: u8) -> (t: i64)
        ensures
            t == snap_ticks(self, beats_per_bar),
    {
        match self {
            SnapGrid::Off => 1,
            SnapGrid::Bar => PPQN * beats_per_bar as i64,
            SnapGrid::Half => PPQN * 2,
            SnapGrid::Quarter => PPQN,
            SnapGrid::Eighth => PPQN / 2,
            SnapGrid::Sixteenth => PPQN / 4,
        }
    }

    /// Snap to the nearest grid line. A bar grid of zero beats divides by
    /// zero and is excluded.
    pub fn snap(self, tick: i64, beats_per_bar: u8) -> (r: i64)
        requires
            snap_ticks(self, beats_per_bar) > 0,
            snap_nearest_fits(tick as int, snap_ticks(self, beats_per_bar)),
        ensures
            r == snap_nearest(tick as int, snap_ticks(self, beats_per_bar)),
    {
        let grid = self.ticks(beats_per_bar);
        floor_to_grid(tick + grid / 2, grid)
    }

    /// Snap down (floor) to a grid line.
    pub fn snap_floor(self, tick: i64, beats_per_bar: u8) -> (r: i64)
        requires
            snap_ticks(self, beats_per_bar) > 0,
            snap_down_fits(tick as int, snap_ticks(self, beats_per_bar)),
        ensures
            r == snap_down(tick as int, snap_ticks(self, beats_per_bar)),
    {
        let grid = self.ticks(beats_per_bar);
        floor_to_grid(tick, grid)
    }

    /// Display name for the UI.
    pub fn label(self) -> (s: &'static str)
        ensures
            s@ == snap_label(self),
    {
        proof {
            reveal_strlit("Off");
            reveal_strlit("Bar");
            reveal_strlit("1/2");
            reveal_strlit("1/4");
            reveal_strlit("1/8");
            reveal_strlit("1/16");
        }
        match self {
            SnapGrid::Off => "Off",
            SnapGrid::Bar => "Bar",
            SnapGrid::Half => "1/2",
            SnapGrid::Quarter => "1/4",
            SnapGrid::Eighth => "1/8",
            SnapGrid::Sixteenth => "1/16",
        }
    }
}

/// Display name of each grid.
pub open spec fn snap_label(g: SnapGrid) -> Seq<char> {
    match g {
        SnapGrid::Off => seq!['O', 'f', 'f'],
        SnapGrid::Bar => seq!['B', 'a', 'r'],
        SnapGrid::Half => seq!['1', '/', '2'],
        SnapGrid::Quarter => seq!['1', '/', '4'],
        SnapGrid::Eighth => seq!['1', '/', '8'],
        SnapGrid::Sixteenth => seq!['1', '/', '1', '6'],
    }
}

/// Law: with snapping off, both snaps leave every tick where it is.
pub proof fn lemma_snap_off_is_identity(tick: int, beats_per_bar: u8)
    ensures
        snap_nearest(tick, snap_ticks(SnapGrid::Off, beats_per_bar)) == tick,
        snap_down(tick, snap_ticks(SnapGrid::Off, beats_per_bar)) == tick,
{
}

} // verus!
