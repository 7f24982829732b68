use ma_ui::time::{bbt_to_tick, tick_to_bbt, QuantizeGrid, TickRange, TimeSignature, PPQN};

#[test]
fn test_bbt_roundtrip() {
    let ts = TimeSignature::default();
    for tick in [0, 960, 1920, 3840, 4800] {
        let bbt = tick_to_bbt(tick, ts);
        assert_eq!(bbt_to_tick(bbt, ts), tick);
    }
}

#[test]
fn test_snap_to_grid() {
    assert_eq!(QuantizeGrid::Quarter.snap(100), 0);
    assert_eq!(QuantizeGrid::Quarter.snap(500), 960);
    assert_eq!(QuantizeGrid::Eighth.snap(300), 480);
}

#[test]
fn test_snap_negative_ticks() {
    assert_eq!(QuantizeGrid::Quarter.snap_floor(-100), -960);
    assert_eq!(QuantizeGrid::Quarter.snap_floor(-960), -960);
    assert_eq!(QuantizeGrid::Quarter.snap_floor(0), 0);
    assert_eq!(QuantizeGrid::Eighth.snap(-100), 0);
    assert_eq!(QuantizeGrid::Eighth.snap(-300), -480);
}

#[test]
fn test_tick_to_bbt_clamps_negative() {
    let ts = TimeSignature::default();
    let bbt = tick_to_bbt(-100, ts);
    assert_eq!(bbt.bar, 1);
    assert_eq!(bbt.beat, 1);
    assert_eq!(bbt.tick, 0);
}

#[test]
fn test_tick_range() {
    let range = TickRange::new(100, 500);
    assert!(range.contains(200));
    assert!(!range.contains(500));
    assert_eq!(range.duration(), 400);
}

#[test]
fn quantize_grid_tick_lengths() {
    assert_eq!(QuantizeGrid::Off.ticks(), 1);
    assert_eq!(QuantizeGrid::Quarter.ticks(), PPQN);
    assert_eq!(QuantizeGrid::Eighth.ticks(), 480);
    assert_eq!(QuantizeGrid::Sixteenth.ticks(), 240);
    assert_eq!(QuantizeGrid::ThirtySecond.ticks(), 120);
}

#[test]
fn bbt_of_a_tick_in_three_four() {
    let ts = TimeSignature { numerator: 3, denominator: 4 };
    let bbt = tick_to_bbt(2880 + 960 + 5, ts);
    assert_eq!((bbt.bar, bbt.beat, bbt.tick), (2, 2, 5));
    assert_eq!(bbt_to_tick(bbt, ts), 2880 + 960 + 5);
}

#[test]
fn snap_nearest_halfway_rounds_up() {
    assert_eq!(QuantizeGrid::Quarter.snap(480), 960);
    assert_eq!(QuantizeGrid::Quarter.snap(479), 0);
    assert_eq!(QuantizeGrid::Off.snap(123), 123);
}

#[test]
fn snap_floor_is_at_most_the_tick() {
    for t in [-1000i64, -1, 0, 1, 959, 960, 961, 5000] {
        let f = QuantizeGrid::Quarter.snap_floor(t);
        assert!(f <= t && t - f < 960 && f % 960 == 0);
    }
}

#[test]
fn time_signature_default_is_four_four() {
    let ts = TimeSignature::default();
    assert_eq!((ts.numerator, ts.denominator), (4, 4));
}
