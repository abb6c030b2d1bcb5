use lightseek::covers::{
    artwork_url, best_match, cover_file_name, cover_size, itunes_search_term, legacy_cover_file_name, pick_cover,
    replace_str, should_promote_legacy, upgrade_artwork_url, CoverSize, ItunesResult,
};
use lightseek::m3u::{m3u_display, m3u_text, M3uEntry};
use lightseek::scan::{generate_track_id, is_audio_extension, needs_rescan, should_report_progress, title_or_stem, to_hex_lower};

#[test]
fn track_ids_are_blake3_hex() {
    let id = generate_track_id("/music/song.mp3");
    assert_eq!(id, blake3::hash("/music/song.mp3".as_bytes()).to_hex().to_string());
    assert_eq!(id.len(), 64);
    assert_eq!(generate_track_id("abc"), "6437b3ac38465133ffb63b75273a8db548c558465d79db03fd359c6cd5bd9d85");
    assert_ne!(generate_track_id("a"), generate_track_id("b"));
    assert_eq!(to_hex_lower(&[0x00, 0xab, 0x0f, 0xff]), "00ab0fff");
}

#[test]
fn audio_extensions() {
    for e in ["mp3", "m4a", "aac", "flac", "ogg", "opus", "wav", "MP3", "Flac"] {
        assert!(is_audio_extension(Some(e)), "{}", e);
    }
    assert!(!is_audio_extension(Some("txt")));
    assert!(!is_audio_extension(Some("")));
    assert!(!is_audio_extension(None));
}

#[test]
fn rescan_decisions() {
    assert!(needs_rescan(10, None, true));
    assert!(needs_rescan(10, Some(9), true));
    assert!(needs_rescan(10, Some(10), false));
    assert!(!needs_rescan(10, Some(10), true));
}

#[test]
fn progress_and_titles() {
    assert!(should_report_progress(50, 120));
    assert!(should_report_progress(120, 120));
    assert!(!should_report_progress(51, 120));
    assert_eq!(title_or_stem("Tag Title".to_string(), Some("file")), "Tag Title");
    assert_eq!(title_or_stem(String::new(), Some("file")), "file");
    assert_eq!(title_or_stem(String::new(), None), "");
}

#[test]
fn cover_names() {
    assert_eq!(cover_size("thumb"), CoverSize::Thumb);
    assert_eq!(cover_size("full"), CoverSize::Full);
    assert_eq!(cover_size(""), CoverSize::Full);
    assert_eq!(cover_file_name("abc", CoverSize::Full), "abc_full.jpg");
    assert_eq!(cover_file_name("abc", CoverSize::Thumb), "abc_thumb.jpg");
    assert_eq!(legacy_cover_file_name("abc"), "abc.jpg");
    assert_eq!(pick_cover("s".to_string(), true, "l".to_string(), true), Some("s".to_string()));
    assert_eq!(pick_cover("s".to_string(), false, "l".to_string(), true), Some("l".to_string()));
    assert_eq!(pick_cover("s".to_string(), false, "l".to_string(), false), None);
    assert!(should_promote_legacy(true, false));
    assert!(!should_promote_legacy(true, true));
    assert!(!should_promote_legacy(false, false));
}

fn result(artist: Option<&str>, art: Option<&str>) -> ItunesResult {
    ItunesResult {
        artist_name: artist.map(|s| s.to_string()),
        track_name: None,
        artwork_url100: art.map(|s| s.to_string()),
    }
}

#[test]
fn itunes_matching() {
    assert_eq!(itunes_search_term("Daft Punk", "One More Time"), "Daft Punk One More Time");
    let rs = vec![
        result(Some("Someone Else"), Some("https://x/a/100x100bb.jpg")),
        result(None, None),
        result(Some("DAFT PUNK & Friends"), Some("https://x/b/100x100bb.jpg")),
    ];
    assert_eq!(best_match(&rs, "daft punk"), Some(2));
    assert_eq!(artwork_url(&rs, "daft punk"), Some("https://x/b/600x600bb.jpg".to_string()));
    assert_eq!(best_match(&rs, "nobody"), Some(0));
    assert_eq!(artwork_url(&rs, "nobody"), Some("https://x/a/600x600bb.jpg".to_string()));
    assert_eq!(best_match(&Vec::new(), "x"), None);
    assert_eq!(artwork_url(&vec![result(Some("x"), None)], "x"), None);
}

#[test]
fn replacing_text() {
    assert_eq!(upgrade_artwork_url("a/100x100bb.jpg?b=100x100bb"), "a/600x600bb.jpg?b=600x600bb");
    assert_eq!(upgrade_artwork_url("nothing"), "nothing");
    assert_eq!(replace_str("aaa", "aa", "b"), "ba");
    assert_eq!(replace_str("abcabc", "bc", ""), "aa");
}

#[test]
fn m3u_documents() {
    assert_eq!(m3u_display("", "Title"), "Title");
    assert_eq!(m3u_display("Artist", "Title"), "Artist - Title");
    let entries = vec![
        M3uEntry { duration_secs: 215, display: "A - B".to_string(), path: "/m/a.mp3".to_string() },
        M3uEntry { duration_secs: -1, display: "C".to_string(), path: "/m/c.flac".to_string() },
    ];
    assert_eq!(m3u_text(&entries), "#EXTM3U\n#EXTINF:215,A - B\n/m/a.mp3\n#EXTINF:-1,C\n/m/c.flac\n");
    assert_eq!(m3u_text(&Vec::new()), "#EXTM3U\n");
    let min = vec![M3uEntry { duration_secs: i64::MIN, display: String::new(), path: String::new() }];
    assert_eq!(m3u_text(&min), "#EXTM3U\n#EXTINF:-9223372036854775808,\n\n");
}
