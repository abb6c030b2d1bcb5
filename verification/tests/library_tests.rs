use lightseek::library::{
    append_entries, contains_name, ids_to_delete, migration_statements, reorder_entries, sort_column,
    track_by_id_query, track_columns, track_list_query, tracks_by_artist_query,
};

const COLS: &str = "id, path, title, artist, album, album_artist, genre, year, track_no, disc_no, duration, has_cover, file_size, mtime, bpm, beat_grid, downbeats, key, lufs, analysis_version";

fn strings(v: &[&str]) -> Vec<String> {
    v.iter().map(|s| s.to_string()).collect()
}

#[test]
fn sort_columns() {
    assert_eq!(sort_column("title"), "title");
    assert_eq!(sort_column("artist"), "artist");
    assert_eq!(sort_column("album"), "album");
    assert_eq!(sort_column("duration"), "duration");
    assert_eq!(sort_column("genre"), "genre");
    assert_eq!(sort_column("year"), "year");
    assert_eq!(sort_column("path; DROP TABLE tracks"), "title");
}

#[test]
fn list_query_without_search() {
    let q = track_list_query("artist", "desc", None);
    assert_eq!(q.sql, format!("SELECT {} FROM tracks ORDER BY artist COLLATE NOCASE DESC", COLS));
    assert!(q.pattern.is_none());
    let q = track_list_query("bogus", "up", Some(""));
    assert_eq!(q.sql, format!("SELECT {} FROM tracks ORDER BY title COLLATE NOCASE ASC", COLS));
    assert!(q.pattern.is_none());
}

#[test]
fn list_query_with_search() {
    let q = track_list_query("year", "asc", Some("love"));
    assert_eq!(
        q.sql,
        format!(
            "SELECT {} FROM tracks WHERE title LIKE ?1 OR artist LIKE ?1 OR album LIKE ?1 OR genre LIKE ?1 ORDER BY year COLLATE NOCASE ASC",
            COLS
        )
    );
    assert_eq!(q.pattern, Some("%love%".to_string()));
}

#[test]
fn single_track_queries() {
    assert_eq!(track_columns(), COLS);
    assert_eq!(track_by_id_query(), format!("SELECT {} FROM tracks WHERE id = ?1", COLS));
    assert_eq!(
        tracks_by_artist_query(),
        format!("SELECT {} FROM tracks WHERE artist = ?1 ORDER BY album COLLATE NOCASE ASC, disc_no ASC, track_no ASC", COLS)
    );
}

#[test]
fn migrations_for_first_schema() {
    let cols = strings(&["id", "path", "title"]);
    assert_eq!(
        migration_statements(&cols),
        strings(&[
            "ALTER TABLE tracks ADD COLUMN waveform BLOB;",
            "ALTER TABLE tracks ADD COLUMN bpm REAL;",
            "ALTER TABLE tracks ADD COLUMN beat_grid BLOB;",
            "ALTER TABLE tracks ADD COLUMN downbeats BLOB;",
            "ALTER TABLE tracks ADD COLUMN key TEXT;",
            "ALTER TABLE tracks ADD COLUMN analysis_version INTEGER;",
            "ALTER TABLE tracks ADD COLUMN lufs REAL;",
        ])
    );
}

#[test]
fn migrations_partial_and_complete() {
    let cols = strings(&["id", "waveform", "bpm", "key"]);
    assert_eq!(
        migration_statements(&cols),
        strings(&[
            "ALTER TABLE tracks ADD COLUMN beat_grid BLOB;",
            "ALTER TABLE tracks ADD COLUMN downbeats BLOB;",
            "ALTER TABLE tracks ADD COLUMN analysis_version INTEGER;",
            "ALTER TABLE tracks ADD COLUMN lufs REAL;",
        ])
    );
    let all = strings(&["waveform", "bpm", "beat_grid", "downbeats", "key", "analysis_version", "lufs"]);
    assert!(migration_statements(&all).is_empty());
}

#[test]
fn rescan_deletes_missing_files() {
    let rows = vec![
        ("a".to_string(), "/m/a.mp3".to_string()),
        ("b".to_string(), "/m/b.mp3".to_string()),
        ("c".to_string(), "/m/c.mp3".to_string()),
    ];
    assert_eq!(ids_to_delete(&rows, &strings(&["/m/b.mp3"])), strings(&["a", "c"]));
    assert_eq!(ids_to_delete(&rows, &strings(&["/m/a.mp3", "/m/b.mp3", "/m/c.mp3"])), Vec::<String>::new());
    assert_eq!(ids_to_delete(&rows, &Vec::new()), strings(&["a", "b", "c"]));
    assert!(contains_name(&strings(&["x", "y"]), "y"));
    assert!(!contains_name(&strings(&["x", "y"]), "z"));
}

#[test]
fn playlist_positions() {
    let ids = strings(&["t1", "t2", "t3"]);
    let e = append_entries(Some(4), &ids);
    assert_eq!(e.iter().map(|x| x.position).collect::<Vec<_>>(), vec![5, 6, 7]);
    assert_eq!(e.iter().map(|x| x.track_id.clone()).collect::<Vec<_>>(), ids);
    let e = append_entries(None, &ids);
    assert_eq!(e.iter().map(|x| x.position).collect::<Vec<_>>(), vec![0, 1, 2]);
    let e = append_entries(Some(-1), &ids);
    assert_eq!(e.iter().map(|x| x.position).collect::<Vec<_>>(), vec![0, 1, 2]);
    let r = reorder_entries(&strings(&["t3", "t1"]));
    assert_eq!(r.iter().map(|x| (x.track_id.clone(), x.position)).collect::<Vec<_>>(), vec![("t3".to_string(), 0), ("t1".to_string(), 1)]);
    assert!(reorder_entries(&Vec::new()).is_empty());
}
