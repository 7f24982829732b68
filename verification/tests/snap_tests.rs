use ma_ui::snap::SnapGrid;

#[test]
fn ticks_at_4_4() {
    assert_eq!(SnapGrid::Bar.ticks(4), 3840);
    assert_eq!(SnapGrid::Half.ticks(4), 1920);
    assert_eq!(SnapGrid::Quarter.ticks(4), 960);
    assert_eq!(SnapGrid::Eighth.ticks(4), 480);
    assert_eq!(SnapGrid::Sixteenth.ticks(4), 240);
    assert_eq!(SnapGrid::Off.ticks(4), 1);
}

#[test]
fn ticks_at_3_4() {
    assert_eq!(SnapGrid::Bar.ticks(3), 2880);
}

#[test]
fn snap_nearest() {
    assert_eq!(SnapGrid::Quarter.snap(100, 4), 0);
    assert_eq!(SnapGrid::Quarter.snap(500, 4), 960);
    assert_eq!(SnapGrid::Quarter.snap(480, 4), 960);
    assert_eq!(SnapGrid::Eighth.snap(300, 4), 480);
}

#[test]
fn snap_floor_rounds_down() {
    assert_eq!(SnapGrid::Quarter.snap_floor(100, 4), 0);
    assert_eq!(SnapGrid::Quarter.snap_floor(959, 4), 0);
    assert_eq!(SnapGrid::Quarter.snap_floor(960, 4), 960);
}

#[test]
fn snap_negative_ticks() {
    assert_eq!(SnapGrid::Quarter.snap_floor(-100, 4), -960);
    assert_eq!(SnapGrid::Quarter.snap_floor(-960, 4), -960);
    assert_eq!(SnapGrid::Eighth.snap(-100, 4), 0);
    assert_eq!(SnapGrid::Eighth.snap(-300, 4), -480);
}

#[test]
fn snap_off_is_identity() {
    assert_eq!(SnapGrid::Off.snap(123, 4), 123);
    assert_eq!(SnapGrid::Off.snap_floor(123, 4), 123);
}

#[test]
fn snap_bar_3_4() {
    assert_eq!(SnapGrid::Bar.snap(1000, 3), 0);
    assert_eq!(SnapGrid::Bar.snap(1500, 3), 2880);
    assert_eq!(SnapGrid::Bar.snap_floor(2879, 3), 0);
    assert_eq!(SnapGrid::Bar.snap_floor(2880, 3), 2880);
}

#[test]
fn snap_grid_default_is_quarter() {
    assert_eq!(SnapGrid::default(), SnapGrid::Quarter);
}

#[test]
fn snap_grid_labels() {
    assert_eq!(SnapGrid::Off.label(), "Off");
    assert_eq!(SnapGrid::Bar.label(), "Bar");
    assert_eq!(SnapGrid::Quarter.label(), "1/4");
    assert_eq!(SnapGrid::Sixteenth.label(), "1/16");
}
