use ma_ui::browser::{browser_state_in, BrowserEntry, BrowserFilter, BrowserState};

fn entry(name: &str, path: &str, is_dir: bool, ext: &str) -> BrowserEntry {
    BrowserEntry { name: name.into(), path: path.into(), is_dir, extension: ext.into() }
}

#[test]
fn browser_entry_audio_detection() {
    let wav = entry("kick.wav", "/samples/kick.wav", false, "wav");
    assert!(wav.is_audio());
    assert!(!wav.is_midi());

    let flac = entry("pad.flac", "/samples/pad.flac", false, "flac");
    assert!(flac.is_audio());
}

#[test]
fn browser_entry_midi_detection() {
    let mid = entry("melody.mid", "/projects/melody.mid", false, "mid");
    assert!(mid.is_midi());
    assert!(!mid.is_audio());

    let midi = entry("chords.midi", "/projects/chords.midi", false, "midi");
    assert!(midi.is_midi());
}

#[test]
fn browser_entry_directory_is_not_audio_or_midi() {
    let dir = entry("Samples", "/home/Samples", true, "");
    assert!(!dir.is_audio());
    assert!(!dir.is_midi());
}

#[test]
fn default_browser_state() {
    let state = BrowserState::default();
    assert!(!state.visible);
    assert_eq!(state.filter, BrowserFilter::default());
    assert!(state.entries.is_empty());
    assert!(state.selected_index.is_none());
}

#[test]
fn selected_entry_none_when_empty() {
    let state = BrowserState::default();
    assert!(state.selected_entry().is_none());
}

#[test]
fn selected_entry_out_of_bounds() {
    let mut state = BrowserState::default();
    state.selected_index = Some(999);
    assert!(state.selected_entry().is_none());
}

#[test]
fn filter_default_is_all() {
    assert_eq!(BrowserFilter::default(), BrowserFilter::All);
}

fn raw_listing() -> Vec<BrowserEntry> {
    vec![
        entry("test.wav", "/t/test.wav", false, "WAV"),
        entry("readme.txt", "/t/readme.txt", false, "txt"),
        entry("zeta", "/t/zeta", true, ""),
        entry("Alpha.mid", "/t/Alpha.mid", false, "mid"),
        entry(".hidden.wav", "/t/.hidden.wav", false, "wav"),
        entry("subdir", "/t/subdir", true, ""),
        entry("beta.flac", "/t/beta.flac", false, "flac"),
    ]
}

#[test]
fn listing_puts_sorted_directories_before_sorted_files() {
    let mut state = BrowserState::default();
    state.selected_index = Some(2);
    state.apply_listing(&raw_listing());
    let names: Vec<&str> = state.entries.iter().map(|e| e.name.as_str()).collect();
    assert_eq!(names, vec!["subdir", "zeta", "Alpha.mid", "beta.flac", "test.wav"]);
    assert!(state.entries[0].is_dir && state.entries[1].is_dir);
    assert!(state.selected_index.is_none());
    // Extensions of files are lower-cased, those of directories cleared.
    assert_eq!(state.entries[4].extension, "wav");
    assert_eq!(state.entries[0].extension, "");
}

#[test]
fn audio_filter_listing_excludes_midi() {
    let mut state = BrowserState::default();
    state.filter = BrowserFilter::Audio;
    state.apply_listing(&raw_listing());
    assert_eq!(state.entries.iter().filter(|e| e.is_midi()).count(), 0);
    assert_eq!(state.entries.iter().filter(|e| e.is_audio()).count(), 2);
}

#[test]
fn midi_filter_listing_keeps_only_midi_files() {
    let mut state = BrowserState::default();
    state.filter = BrowserFilter::Midi;
    state.apply_listing(&raw_listing());
    let files: Vec<&str> = state.entries.iter().filter(|e| !e.is_dir).map(|e| e.name.as_str()).collect();
    assert_eq!(files, vec!["Alpha.mid"]);
}

#[test]
fn enter_dir_clears_listing() {
    let mut state = BrowserState::default();
    state.apply_listing(&raw_listing());
    state.selected_index = Some(1);
    state.enter_dir("/t/subdir".to_string());
    assert_eq!(state.current_dir, "/t/subdir");
    assert!(state.entries.is_empty());
    assert!(state.selected_index.is_none());
}

#[test]
fn go_up_moves_to_parent() {
    let mut state = BrowserState::default();
    state.current_dir = "/t/subdir".to_string();
    assert!(state.go_up());
    assert_eq!(state.current_dir, "/t");
    assert!(state.go_up());
    assert_eq!(state.current_dir, "/");
    assert!(!state.go_up());
    assert_eq!(state.current_dir, "/");
}

#[test]
fn selected_entry_in_range() {
    let mut state = BrowserState::default();
    state.apply_listing(&raw_listing());
    state.selected_index = Some(2);
    assert_eq!(state.selected_entry().unwrap().name, "Alpha.mid");
}

#[test]
fn refresh_populates_entries_from_tempdir() {
    // The directory holds test.wav, test.mid, readme.txt and subdir/.
    let raw = vec![
        entry("test.wav", "/tmp/ma_browser_test/test.wav", false, "wav"),
        entry("test.mid", "/tmp/ma_browser_test/test.mid", false, "mid"),
        entry("readme.txt", "/tmp/ma_browser_test/readme.txt", false, "txt"),
        entry("subdir", "/tmp/ma_browser_test/subdir", true, ""),
    ];
    let mut state = BrowserState::default();
    state.apply_listing(&raw);
    let dir_count = state.entries.iter().filter(|e| e.is_dir).count();
    let file_count = state.entries.iter().filter(|e| !e.is_dir).count();
    assert!(dir_count >= 1, "Expected at least 1 directory");
    assert!(file_count >= 2, "Expected at least 2 files (wav + mid)");
    if let Some(first) = state.entries.first() {
        assert!(first.is_dir);
    }
}

#[test]
fn audio_filter_excludes_midi() {
    // The directory holds kick.wav and melody.mid.
    let raw = vec![
        entry("kick.wav", "/tmp/ma_browser_filter_test/kick.wav", false, "wav"),
        entry("melody.mid", "/tmp/ma_browser_filter_test/melody.mid", false, "mid"),
    ];
    let mut state = BrowserState::default();
    state.filter = BrowserFilter::Audio;
    state.apply_listing(&raw);
    let midi_files = state.entries.iter().filter(|e| e.is_midi()).count();
    assert_eq!(midi_files, 0, "Audio filter should exclude MIDI files");
    let audio_files = state.entries.iter().filter(|e| e.is_audio()).count();
    assert!(audio_files >= 1, "Audio filter should include WAV files");
}

#[test]
fn browser_starts_in_home_or_current_directory() {
    let s = browser_state_in(Some("/home/alice".to_string()));
    assert_eq!(s.current_dir, "/home/alice");
    assert!(!s.visible && s.entries.is_empty() && s.selected_index.is_none());
    assert_eq!(s.filter, BrowserFilter::All);
    assert_eq!(browser_state_in(None).current_dir, ".");
    assert!(!BrowserState::default().current_dir.is_empty());
}
