use lightseek::models::{default_source, AppError, ScanProgress};
use lightseek::settings::{read_settings, settings_rows};
use lightseek::folders::{dedup_by_key, folders_to_scan, needs_default_folders};

fn strings(v: &[&str]) -> Vec<String> {
    v.iter().map(|s| s.to_string()).collect()
}

#[test]
fn settings_written_in_order() {
    let rows = settings_rows("dark", "playlists", "1.25");
    assert_eq!(
        rows,
        vec![
            ("theme".to_string(), "dark".to_string()),
            ("default_view".to_string(), "playlists".to_string()),
            ("playback_speed".to_string(), "1.25".to_string()),
        ]
    );
}

#[test]
fn settings_round_trip() {
    let rows = settings_rows("dark", "artists", "0.5");
    let s = read_settings(&rows);
    assert_eq!(s.theme, "dark");
    assert_eq!(s.default_view, "artists");
    assert_eq!(s.playback_speed_texts, strings(&["0.5"]));
}

#[test]
fn settings_defaults_and_overrides() {
    let s = read_settings(&Vec::new());
    assert_eq!(s.theme, "system");
    assert_eq!(s.default_view, "library");
    assert!(s.playback_speed_texts.is_empty());
    let rows = vec![
        ("theme".to_string(), "light".to_string()),
        ("unknown".to_string(), "x".to_string()),
        ("playback_speed".to_string(), "fast".to_string()),
        ("theme".to_string(), "dark".to_string()),
        ("playback_speed".to_string(), "2".to_string()),
    ];
    let s = read_settings(&rows);
    assert_eq!(s.theme, "dark");
    assert_eq!(s.default_view, "library");
    assert_eq!(s.playback_speed_texts, strings(&["fast", "2"]));
}

#[test]
fn model_helpers() {
    assert_eq!(default_source(), "local");
    let e = AppError::from("disk full".to_string());
    assert_eq!(e.to_string(), "disk full");
    let p = ScanProgress::discovering();
    assert_eq!((p.current, p.total, p.phase.as_str()), (0, 0, "discovering"));
    let p = ScanProgress::scanning(50, 120);
    assert_eq!((p.current, p.total, p.phase.as_str()), (50, 120, "scanning"));
    let p = ScanProgress::complete(120);
    assert_eq!((p.current, p.total, p.phase.as_str()), (120, 120, "complete"));
}

#[test]
fn folder_choices() {
    let stored = strings(&["/music"]);
    assert_eq!(folders_to_scan(&Vec::new(), &stored), stored);
    assert_eq!(folders_to_scan(&strings(&["/other"]), &stored), strings(&["/other"]));
    assert!(folders_to_scan(&Vec::new(), &Vec::new()).is_empty());
    assert!(needs_default_folders(&Vec::new()));
    assert!(!needs_default_folders(&stored));
}

#[test]
fn default_dirs_deduplicated_by_canonical_path() {
    let cands = strings(&["/home/u/Music", "/home/u/music", "/home/u/.local/share/music"]);
    let keys = strings(&["/data/music", "/data/music", "/home/u/.local/share/music"]);
    assert_eq!(dedup_by_key(&cands, &keys), strings(&["/home/u/Music", "/home/u/.local/share/music"]));
    assert!(dedup_by_key(&Vec::new(), &Vec::new()).is_empty());
}
