use ma_ui::ids::{ClipId, TrackId};
use ma_ui::selection::{clips_in_rect, ClipSelection, SelectionRect};
use ma_ui::track::ClipState;

fn cid(n: u128) -> ClipId {
    ClipId(n)
}

fn tid(n: u128) -> TrackId {
    TrackId(n)
}

fn make_clip(id: u128, track: u128, start: i64, duration: i64) -> ClipState {
    ClipState {
        id: cid(id),
        track_id: tid(track),
        start_tick: start,
        duration_ticks: duration,
        name: String::new(),
        notes: Vec::new(),
        audio_file: None,
        audio_length_samples: None,
        audio_sample_rate: None,
    }
}

#[test]
fn selection_single() {
    let sel = ClipSelection::select_single(cid(1));
    assert!(sel.contains(&cid(1)));
    assert!(!sel.contains(&cid(2)));
    assert_eq!(sel.len(), 1);
}

#[test]
fn selection_toggle_add() {
    let sel = ClipSelection::select_single(cid(1));
    let sel2 = sel.toggled(cid(2));
    assert!(sel2.contains(&cid(1)));
    assert!(sel2.contains(&cid(2)));
    assert_eq!(sel2.len(), 2);
}

#[test]
fn selection_toggle_remove() {
    let sel = ClipSelection::select_single(cid(1));
    let sel2 = sel.toggled(cid(1));
    assert!(sel2.is_empty());
}

#[test]
fn selection_default_empty() {
    let sel = ClipSelection::default();
    assert!(sel.is_empty());
    assert_eq!(sel.len(), 0);
}

#[test]
fn selection_toggle_twice_restores() {
    let sel = ClipSelection::select_single(cid(1)).toggled(cid(2)).toggled(cid(2));
    assert_eq!(sel.len(), 1);
    assert!(sel.contains(&cid(1)));
    assert!(!sel.contains(&cid(2)));
}

#[test]
fn selection_from_ids_collapses_repeats() {
    let sel = ClipSelection::from_ids(&vec![cid(3), cid(4), cid(3)]);
    assert_eq!(sel.len(), 2);
    let mut ids = sel.ids();
    ids.sort_by_key(|c| c.0);
    assert_eq!(ids, vec![cid(3), cid(4)]);
}

#[test]
fn rect_selects_overlapping_clip() {
    let clips = vec![make_clip(1, 10, 0, 960)];
    let track_map = vec![(tid(10), 0)];
    let rect = SelectionRect { tick_start: 100, tick_end: 500, track_start: 0, track_end: 0 };
    let result = clips_in_rect(&clips, &track_map, &rect);
    assert!(result.contains(&cid(1)));
}

#[test]
fn rect_misses_clip_on_different_track() {
    let clips = vec![make_clip(1, 10, 0, 960)];
    let track_map = vec![(tid(10), 0), (tid(20), 1)];
    let rect = SelectionRect { tick_start: 0, tick_end: 960, track_start: 1, track_end: 1 };
    let result = clips_in_rect(&clips, &track_map, &rect);
    assert!(result.is_empty());
}

#[test]
fn rect_misses_clip_outside_tick_range() {
    let clips = vec![make_clip(1, 10, 1000, 960)];
    let track_map = vec![(tid(10), 0)];
    let rect = SelectionRect { tick_start: 0, tick_end: 500, track_start: 0, track_end: 0 };
    let result = clips_in_rect(&clips, &track_map, &rect);
    assert!(result.is_empty());
}

#[test]
fn rect_selects_multiple_clips() {
    let clips = vec![make_clip(1, 10, 0, 960), make_clip(2, 10, 960, 960), make_clip(3, 20, 0, 960)];
    let track_map = vec![(tid(10), 0), (tid(20), 1)];
    let rect = SelectionRect { tick_start: 0, tick_end: 2000, track_start: 0, track_end: 1 };
    let result = clips_in_rect(&clips, &track_map, &rect);
    assert_eq!(result.len(), 3);
}

#[test]
fn rect_boundary_no_overlap() {
    let clips = vec![make_clip(1, 10, 0, 960)];
    let track_map = vec![(tid(10), 0)];
    let rect = SelectionRect { tick_start: 960, tick_end: 1920, track_start: 0, track_end: 0 };
    let result = clips_in_rect(&clips, &track_map, &rect);
    assert!(result.is_empty());
}

#[test]
fn empty_clips_returns_empty() {
    let clips: Vec<ClipState> = Vec::new();
    let track_map = vec![(tid(10), 0)];
    let rect = SelectionRect { tick_start: 0, tick_end: 960, track_start: 0, track_end: 0 };
    let result = clips_in_rect(&clips, &track_map, &rect);
    assert!(result.is_empty());
}

#[test]
fn rect_skips_clip_whose_track_is_unknown() {
    let clips = vec![make_clip(1, 99, 0, 960)];
    let track_map = vec![(tid(10), 0)];
    let rect = SelectionRect { tick_start: 0, tick_end: 960, track_start: 0, track_end: 5 };
    assert!(clips_in_rect(&clips, &track_map, &rect).is_empty());
}

#[test]
fn selection_is_empty_exactly_when_len_is_zero() {
    let mut s = ClipSelection::new();
    assert!(s.is_empty() && s.len() == 0);
    s.insert(ClipId(5));
    assert!(!s.is_empty() && s.len() == 1);
    let t = s.toggled(ClipId(5));
    assert!(t.is_empty() && t.len() == 0);
    let u = ClipSelection::from_ids(&vec![ClipId(1), ClipId(1), ClipId(2)]);
    assert_eq!((u.is_empty(), u.len()), (false, 2));
}
