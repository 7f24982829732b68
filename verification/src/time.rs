//! Musical time: ticks at a fixed resolution, bar:beat:tick positions,
//! tick ranges and quantisation grids.

use vstd::prelude::*;

verus! {

/// Musical time unit — pulses per quarter note.
pub type Tick = i64;

/// Absolute sample position at project sample rate.
pub type SamplePos = i64;

/// Buffer frame count per audio callback.
pub type FrameCount = u32;

/// Pulses Per Quarter Note — standard resolution.
pub const PPQN: i64 = 960;

/// Time signature (e.g., 4/4, 3/4, 6/8).
#[derive(Debug, Clone, Copy, PartialEq, Eq, Structural)]
pub struct TimeSignature {
    pub numerator: u8,
    pub denominator: u8,
}

impl Default for TimeSignature {
    fn default() -> (r: Self)
        ensures
            r.numerator == 4,
            r.denominator == 4,
    {
        TimeSignature { numerator: 4, denominator: 4 }
    }
}

/// Human-readable bar:beat:tick representation.
#[derive(Debug, Clone, Copy, PartialEq, Eq, Structural)]
pub struct BarBeatTick {
    pub bar: u32,
    pub beat: u8,
    pub tick: u16,
}

/// A range of ticks [start, end).
#[derive(Debug, Clone, Copy, PartialEq, Eq, Structural)]
pub struct TickRange {
    pub start: i64,
    pub end: i64,
}

impl TickRange {
    pub fn new(start: i64, end: i64) -> (r: Self)
        ensures
            r.start == start,
            r.end == end,
    {
        TickRange { start, end }
    }

    /// Length of the range in ticks.
    pub fn duration(&self) -> (d: i64)
        requires
            i64::MIN <= self.end - self.start <= i64::MAX,
        ensures
            d == self.end - self.start,
    {
        self.end - self.start
    }

    /// Whether `tick` lies in the half-open range.
    pub fn contains(&self, tick: i64) -> (b: bool)
        ensures
            b == (self.start <= tick && tick < self.end),
    {
        tick >= self.start && tick < self.end
    }
}

/// Quantization grid resolution.
#[derive(Debug, Clone, Copy, PartialEq, Eq, Structural)]
pub enum QuantizeGrid {
    Off,
    Quarter,
    Eighth,
    Sixteenth,
    ThirtySecond,
}

/// Grid size of a quantisation setting, in ticks.
pub open spec fn quantize_ticks(g: QuantizeGrid) -> int {
    match g {
        QuantizeGrid::Off => 1,
        QuantizeGrid::Quarter => 960,
        QuantizeGrid::Eighth => 480,
        QuantizeGrid::Sixteenth => 240,
        QuantizeGrid::ThirtySecond => 120,
    }
}

/// Nearest grid line: the multiple of `grid` reached by rounding half up.
pub open spec fn snap_nearest(tick: int, grid: int) -> int {
    ((tick + grid / 2) / grid) * grid
}

/// Grid line at or before `tick`.
pub open spec fn snap_down(tick: int, grid: int) -> int {
    (tick / grid) * grid
}

/// `snap_down` stays inside the machine range.
pub open spec fn snap_down_fits(tick: int, grid: int) -> bool {
    i64::MIN <= snap_down(tick, grid)
}

/// `snap_nearest` stays inside the machine range.
pub open spec fn snap_nearest_fits(tick: int, grid: int) -> bool {
    &&& tick + grid / 2 <= i64::MAX
    &&& i64::MIN <= snap_nearest(tick, grid)
}

/// Floor division then multiplication by a positive grid, on machine integers.
pub(crate) fn floor_to_grid(x: i64, grid: i64) -> (r: i64)
    requires
        grid > 0,
        snap_down_fits(x as int, grid as int),
    ensures
        r == snap_down(x as int, grid as int),
{
    proof {
        lemma_floor_bounds(x as int, grid as int);
        lemma_quotient_in_range(x as int, grid as int);
    }
    let q = x.checked_div_euclid(grid).unwrap();
    q * grid
}

/// The grid line at or below `x` lies within one grid step of it.
pub proof fn lemma_floor_bounds(x: int, grid: int)
    requires
        grid > 0,
    ensures
        snap_down(x, grid) <= x,
        x < snap_down(x, grid) + grid,
        (x / grid) * grid == snap_down(x, grid),
{
    vstd::arithmetic::div_mod::lemma_fundamental_div_mod(x, grid);
    vstd::arithmetic::div_mod::lemma_mod_bound(x, grid);
    vstd::arithmetic::mul::lemma_mul_is_commutative(grid, x / grid);
}

/// A floor quotient by a positive divisor lies between the dividend and zero.
proof fn lemma_quotient_in_range(x: int, grid: int)
    requires
        grid > 0,
    ensures
        x >= 0 ==> 0 <= x / grid <= x,
        x < 0 ==> x <= x / grid < 0,
{
    lemma_floor_bounds(x, grid);
    if x >= 0 {
        vstd::arithmetic::div_mod::lemma_div_pos_is_pos(x, grid);
        vstd::arithmetic::div_mod::lemma_div_is_ordered_by_denominator(x, 1, grid);
    } else {
        assert((x / grid) * grid <= x);
        assert(x / grid < 0) by (nonlinear_arith)
            requires grid > 0, (x / grid) * grid <= x, x < 0;
        assert(x <= x / grid) by (nonlinear_arith)
            requires grid > 0, x < (x / grid) * grid + grid, x / grid < 0;
    }
}

/// Whether snapping `tick` to the nearest line of `grid` stays in range.
pub fn snap_fits(tick: i64, grid: QuantizeGrid) -> (r: bool)
    ensures
        r == snap_nearest_fits(tick as int, quantize_ticks(grid)),
{
    let g: i128 = grid.ticks() as i128;
    let x: i128 = tick as i128 + g / 2;
    if x > 0x7FFF_FFFF_FFFF_FFFF {
        return false;
    }
    let q: i128 = x.checked_div_euclid(g).unwrap();
    proof {
        lemma_quotient_in_range(x as int, g as int);
        assert(-0x1_0000_0000_0000_0000 <= q <= 0x1_0000_0000_0000_0000);
        assert(-0x1000_0000_0000_0000_0000 <= q * g <= 0x1000_0000_0000_0000_0000) by (nonlinear_arith)
            requires -0x1_0000_0000_0000_0000 <= q <= 0x1_0000_0000_0000_0000, 1 <= g <= 960;
    }
    q * g >= -0x8000_0000_0000_0000
}

/// Whether snapping `tick` down to a grid of `grid` ticks stays in range.
pub fn snap_down_fits_check(tick: i64, grid: i64) -> (r: bool)
    requires
        0 < grid <= 244800,
    ensures
        r == snap_down_fits(tick as int, grid as int),
{
    let g: i128 = grid as i128;
    let x: i128 = tick as i128;
    proof {
        lemma_quotient_in_range(x as int, g as int);
    }
    let q: i128 = x.checked_div_euclid(g).unwrap();
    proof {
        assert(-0x1_0000_0000_0000_0000 <= q <= 0x1_0000_0000_0000_0000);
        assert(-0x1000_0000_0000_0000_0000_0000 <= q * g <= 0x1000_0000_0000_0000_0000_0000) by (nonlinear_arith)
            requires -0x1_0000_0000_0000_0000 <= q <= 0x1_0000_0000_0000_0000, 1 <= g <= 244800;
    }
    q * g >= -0x8000_0000_0000_0000
}

/// Whether snapping `tick` to the nearest line of a grid of `grid` ticks
/// stays in range.
pub fn snap_nearest_fits_check(tick: i64, grid: i64) -> (r: bool)
    requires
        0 < grid <= 244800,
    ensures
        r == snap_nearest_fits(tick as int, grid as int),
{
    let g: i128 = grid as i128;
    let x: i128 = tick as i128 + g / 2;
    if x > 0x7FFF_FFFF_FFFF_FFFF {
        return false;
    }
    proof {
        lemma_quotient_in_range(x as int, g as int);
    }
    let q: i128 = x.checked_div_euclid(g).unwrap();
    proof {
        assert(-0x1_0000_0000_0000_0000 <= q <= 0x1_0000_0000_0000_0000);
        assert(-0x1000_0000_0000_0000_0000_0000 <= q * g <= 0x1000_0000_0000_0000_0000_0000) by (nonlinear_arith)
            requires -0x1_0000_0000_0000_0000 <= q <= 0x1_0000_0000_0000_0000, 1 <= g <= 244800;
    }
    q * g >= -0x8000_0000_0000_0000
}

impl QuantizeGrid {
    /// Grid resolution in ticks.
    pub fn ticks(self) -> (t: i64)
        ensures
            t == quantize_ticks(self),
    {
        match self {
            QuantizeGrid::Off => 1,
            QuantizeGrid::Quarter => PPQN,
            QuantizeGrid::Eighth => PPQN / 2,
            QuantizeGrid::Sixteenth => PPQN / 4,
            QuantizeGrid::ThirtySecond => PPQN / 8,
        }
    }

    /// Snap a tick value to the nearest grid line (Euclidean division,
    /// so negative ticks round consistently).
    pub fn snap(self, tick: i64) -> (r: i64)
        requires
            snap_nearest_fits(tick as int, quantize_ticks(self)),
        ensures
            r == snap_nearest(tick as int, quantize_ticks(self)),
    {
        let grid = self.ticks();
        floor_to_grid(tick + grid / 2, grid)
    }

    /// Snap a tick value down to the grid line at or before it.
    pub fn snap_floor(self, tick: i64) -> (r: i64)
        requires
            snap_down_fits(tick as int, quantize_ticks(self)),
        ensures
            r == snap_down(tick as int, quantize_ticks(self)),
    {
        let grid = self.ticks();
        floor_to_grid(tick, grid)
    }
}

/// Ticks in one bar of the given signature (the beat is a quarter note).
pub open spec fn ticks_per_bar(ts: TimeSignature) -> int {
    960 * ts.numerator
}

/// Negative positions count as the start of the timeline.
pub open spec fn clamp_non_negative(tick: int) -> int {
    if tick < 0 {
        0
    } else {
        tick
    }
}

/// The bar:beat:tick display of a tick position (bars and beats count from 1).
pub open spec fn bbt_of(tick: int, ts: TimeSignature) -> BarBeatTick {
    let t = clamp_non_negative(tick);
    let tpb = ticks_per_bar(ts);
    let remaining = t % tpb;
    BarBeatTick {
        bar: (((t / tpb) as u32) + 1) as u32,
        beat: (remaining / 960 + 1) as u8,
        tick: (remaining % 960) as u16,
    }
}

/// Inputs on which `tick_to_bbt` is defined: a non-zero signature and a bar
/// number that fits in 32 bits.
pub open spec fn bbt_defined(tick: int, ts: TimeSignature) -> bool {
    &&& ts.numerator > 0
    &&& ((clamp_non_negative(tick) / ticks_per_bar(ts)) as u32) < u32::MAX
}

/// The absolute tick position named by a bar:beat:tick value.
pub open spec fn tick_of_bbt(bbt: BarBeatTick, ts: TimeSignature) -> int {
    (bbt.bar - 1) * ticks_per_bar(ts) + (bbt.beat - 1) * 960 + bbt.tick
}

/// Convert ticks to bar:beat:tick display; negative ticks count as 0.
pub fn tick_to_bbt(tick: i64, time_sig: TimeSignature) -> (r: BarBeatTick)
    requires
        bbt_defined(tick as int, time_sig),
    ensures
        r == bbt_of(tick as int, time_sig),
{
    let tick = if tick < 0 { 0 } else { tick };
    let ticks_per_beat = PPQN;
    let ticks_per_bar = ticks_per_beat * time_sig.numerator as i64;
    let ghost tpb = ticks_per_bar as int;
    proof {
        lemma_floor_bounds(tick as int, tpb);
        lemma_quotient_in_range(tick as int, tpb);
        vstd::arithmetic::div_mod::lemma_mod_bound(tick as int, tpb);
    }
    let bar = (tick.checked_div_euclid(ticks_per_bar).unwrap() as u32) + 1;
    let remaining = tick.checked_rem_euclid(ticks_per_bar).unwrap();
    proof {
        vstd::arithmetic::div_mod::lemma_div_is_ordered(remaining as int, tpb, 960);
        assert(tpb / 960 == time_sig.numerator as int);
        vstd::arithmetic::div_mod::lemma_mod_bound(remaining as int, 960);
    }
    let beat = (remaining.checked_div_euclid(ticks_per_beat).unwrap() as u8) + 1;
    let sub_tick = remaining.checked_rem_euclid(ticks_per_beat).unwrap() as u16;
    BarBeatTick { bar, beat, tick: sub_tick }
}

/// Convert bar:beat:tick to absolute ticks.
pub fn bbt_to_tick(bbt: BarBeatTick, time_sig: TimeSignature) -> (r: i64)
    ensures
        r == tick_of_bbt(bbt, time_sig),
{
    let ticks_per_beat = PPQN;
    let ticks_per_bar = ticks_per_beat * time_sig.numerator as i64;
    proof {
        assert((bbt.bar - 1) * (ticks_per_bar as int) <= (u32::MAX as int) * 244800) by (nonlinear_arith)
            requires 0 <= ticks_per_bar <= 244800, -1 <= bbt.bar - 1 <= u32::MAX;
        assert((bbt.bar - 1) * (ticks_per_bar as int) >= -244800) by (nonlinear_arith)
            requires 0 <= ticks_per_bar <= 244800, -1 <= bbt.bar - 1 <= u32::MAX;
    }
    (bbt.bar as i64 - 1) * ticks_per_bar + (bbt.beat as i64 - 1) * ticks_per_beat + bbt.tick as i64
}

/// Law: converting a non-negative tick to bar:beat:tick and back gives the tick.
pub proof fn lemma_bbt_round_trip(tick: int, ts: TimeSignature)
    requires
        tick >= 0,
        ts.numerator > 0,
        tick / ticks_per_bar(ts) < u32::MAX,
    ensures
        tick_of_bbt(bbt_of(tick, ts), ts) == tick,
{
    let tpb = ticks_per_bar(ts);
    lemma_floor_bounds(tick, tpb);
    lemma_quotient_in_range(tick, tpb);
    vstd::arithmetic::div_mod::lemma_fundamental_div_mod(tick, tpb);
    vstd::arithmetic::div_mod::lemma_mod_bound(tick, tpb);
    let rem = tick % tpb;
    vstd::arithmetic::div_mod::lemma_fundamental_div_mod(rem, 960);
    vstd::arithmetic::div_mod::lemma_mod_bound(rem, 960);
    vstd::arithmetic::div_mod::lemma_div_is_ordered(rem, tpb, 960);
    assert(tpb / 960 == ts.numerator as int);
    vstd::arithmetic::mul::lemma_mul_is_commutative(tpb, tick / tpb);
}

/// Law: a well-formed bar:beat:tick value converts to ticks and back unchanged.
pub proof fn lemma_tick_round_trip(bbt: BarBeatTick, ts: TimeSignature)
    requires
        ts.numerator > 0,
        1 <= bbt.bar,
        1 <= bbt.beat <= ts.numerator,
        bbt.tick < 960,
    ensures
        bbt_defined(tick_of_bbt(bbt, ts), ts),
        bbt_of(tick_of_bbt(bbt, ts), ts) == bbt,
{
    let tpb = ticks_per_bar(ts);
    let within = (bbt.beat - 1) * 960 + bbt.tick;
    assert(0 <= within < tpb) by (nonlinear_arith)
        requires tpb == 960 * ts.numerator, 1 <= bbt.beat <= ts.numerator, 0 <= bbt.tick < 960,
            within == (bbt.beat - 1) * 960 + bbt.tick;
    let t = (bbt.bar - 1) * tpb + within;
    assert(t >= 0) by (nonlinear_arith)
        requires bbt.bar >= 1, tpb > 0, within >= 0, t == (bbt.bar - 1) * tpb + within;
    vstd::arithmetic::div_mod::lemma_fundamental_div_mod_converse(t, tpb, bbt.bar - 1, within);
    vstd::arithmetic::div_mod::lemma_fundamental_div_mod_converse(within, 960, bbt.beat - 1, bbt.tick as int);
}

/// Law: snapping to the nearest grid line yields a grid line no more than half
/// a grid step away, and snapping again changes nothing.
pub proof fn lemma_snap_nearest(tick: int, grid: int)
    requires
        grid > 0,
    ensures
        snap_nearest(tick, grid) % grid == 0,
        snap_nearest(tick, grid) <= tick + grid / 2 < snap_nearest(tick, grid) + grid,
        grid % 2 == 0 || grid == 1 ==> snap_nearest(snap_nearest(tick, grid), grid)
            == snap_nearest(tick, grid),
{
    let s = snap_nearest(tick, grid);
    lemma_floor_bounds(tick + grid / 2, grid);
    vstd::arithmetic::div_mod::lemma_mod_multiples_basic((tick + grid / 2) / grid, grid);
    if grid % 2 == 0 || grid == 1 {
        assert(grid / 2 < grid);
        vstd::arithmetic::div_mod::lemma_fundamental_div_mod_converse(
            s + grid / 2,
            grid,
            (tick + grid / 2) / grid,
            grid / 2,
        );
    }
}

/// Law: snapping down yields the grid line at or below the tick, strictly
/// less than one step below it.
pub proof fn lemma_snap_down(tick: int, grid: int)
    requires
        grid > 0,
    ensures
        snap_down(tick, grid) % grid == 0,
        snap_down(tick, grid) <= tick < snap_down(tick, grid) + grid,
        snap_down(snap_down(tick, grid), grid) == snap_down(tick, grid),
{
    lemma_floor_bounds(tick, grid);
    vstd::arithmetic::div_mod::lemma_mod_multiples_basic(tick / grid, grid);
    vstd::arithmetic::div_mod::lemma_div_multiples_vanish(tick / grid, grid);
    vstd::arithmetic::mul::lemma_mul_is_commutative(grid, tick / grid);
}

} // verus!
