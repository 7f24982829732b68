use ma_ui::clipboard::ClipClipboard;
use ma_ui::ids::{ClipId, TrackId};
use ma_ui::track::ClipState;

fn tid(n: u128) -> TrackId {
    TrackId(n)
}

fn make_clip(id: u128, track: u128, start: i64, duration: i64) -> ClipState {
    ClipState {
        id: ClipId(id),
        track_id: tid(track),
        start_tick: start,
        duration_ticks: duration,
        name: String::new(),
        notes: Vec::new(),
        audio_file: None,
        audio_length_samples: None,
        audio_sample_rate: None,
    }
}

#[test]
fn clipboard_normalizes_offsets() {
    let clips = vec![make_clip(1, 10, 960, 480), make_clip(2, 20, 1920, 480)];
    let track_map = vec![(tid(10), 0), (tid(20), 1)];
    let clipboard = ClipClipboard::from_clips(&clips, &track_map);

    assert_eq!(clipboard.entries.len(), 2);
    assert_eq!(clipboard.entries[0].tick_offset, 0);
    assert_eq!(clipboard.entries[0].track_index_offset, 0);
    assert_eq!(clipboard.entries[1].tick_offset, 960);
    assert_eq!(clipboard.entries[1].track_index_offset, 1);
}

#[test]
fn clipboard_empty_clips() {
    let clipboard = ClipClipboard::from_clips(&[], &[]);
    assert!(clipboard.is_empty());
}

#[test]
fn clipboard_single_clip() {
    let clips = vec![make_clip(1, 10, 500, 480)];
    let track_map = vec![(tid(10), 2)];
    let clipboard = ClipClipboard::from_clips(&clips, &track_map);

    assert_eq!(clipboard.entries.len(), 1);
    assert_eq!(clipboard.entries[0].tick_offset, 0);
    assert_eq!(clipboard.entries[0].track_index_offset, 0);
}

#[test]
fn clipboard_unknown_track_counts_as_index_zero() {
    let clips = vec![make_clip(1, 10, 100, 480), make_clip(2, 99, 50, 480)];
    let track_map = vec![(tid(10), 3)];
    let clipboard = ClipClipboard::from_clips(&clips, &track_map);
    assert_eq!(clipboard.entries[0].tick_offset, 50);
    assert_eq!(clipboard.entries[0].track_index_offset, 0);
    assert_eq!(clipboard.entries[1].tick_offset, 0);
    assert_eq!(clipboard.entries[1].track_index_offset, -3);
}

#[test]
fn clipboard_keeps_clip_contents() {
    let clips = vec![make_clip(7, 10, 960, 480)];
    let clipboard = ClipClipboard::from_clips(&clips, &[(tid(10), 0)]);
    assert_eq!(clipboard.entries[0].clip.id, ClipId(7));
    assert_eq!(clipboard.entries[0].clip.start_tick, 960);
    assert_eq!(clipboard.entries[0].clip.duration_ticks, 480);
}
