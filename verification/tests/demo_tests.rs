use ma_ui::demo_data::{demo_clips, demo_track_ids, demo_tracks};
use ma_ui::ids::{demo_uuid, TrackId};
use ma_ui::track::TrackKind;

#[test]
fn demo_tracks_are_the_four_demo_tracks() {
    let tracks = demo_tracks();
    let names: Vec<&str> = tracks.iter().map(|t| t.name.as_str()).collect();
    assert_eq!(names, vec!["Melody", "Bass", "Drums", "Pad"]);
    assert_eq!(tracks[2].kind, TrackKind::Audio);
    assert_eq!(tracks[0].kind, TrackKind::Midi);
    assert_eq!(tracks[1].color, [255, 140, 80]);
}

#[test]
fn demo_track_ids_follow_the_tracks() {
    assert_eq!(demo_track_ids(), vec![TrackId(1), TrackId(2), TrackId(3), TrackId(4)]);
}

#[test]
fn demo_clips_have_expected_layout() {
    let clips = demo_clips();
    assert_eq!(clips.len(), 4);
    assert_eq!(clips[0].notes.len(), 4);
    assert_eq!(clips[3].start_tick, 3840);
    assert_eq!(clips[3].duration_ticks, 11520);
    assert_eq!(clips[1].name, "Bass Line");
}

#[test]
fn demo_uuid_is_the_low_half() {
    assert_eq!(demo_uuid(7), 7);
    assert_eq!(demo_uuid(u64::MAX), u64::MAX as u128);
}
