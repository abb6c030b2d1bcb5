//! The library database's query logic: the statements that list tracks, the
//! schema migrations still to run, which tracks a rescan removes, and where
//! playlist entries are placed.

use vstd::prelude::*;
use crate::text::{owned, push_str, str_eq};

verus! {

/// The characters of each string, in order.
pub open spec fn strings_view(v: Seq<String>) -> Seq<Seq<char>> {
    v.map_values(|s: String| s@)
}

/// Whether one of the strings holds exactly `name`.
pub open spec fn has_name(v: Seq<String>, name: Seq<char>) -> bool {
    exists|i: int| 0 <= i < v.len() && (#[trigger] v[i])@ == name
}

/// Whether `name` is among the strings.
pub fn contains_name(v: &Vec<String>, name: &str) -> (r: bool)
    ensures
        r == has_name(v@, name@),
{
    let mut i: usize = 0;
    while i < v.len()
        invariant
            i <= v.len(),
            forall|j: int| 0 <= j < i ==> (#[trigger] v@[j])@ != name@,
        decreases v.len() - i,
    {
        if str_eq(v[i].as_str(), name) {
            return true;
        }
        i = i + 1;
    }
    false
}

/// The columns every track query selects, in the order rows are read.
pub fn track_columns() -> (r: &'static str)
    ensures
        r@ == "id, path, title, artist, album, album_artist, genre, year, track_no, disc_no, duration, has_cover, file_size, mtime, bpm, beat_grid, downbeats, key, lufs, analysis_version"@,
{
    "id, path, title, artist, album, album_artist, genre, year, track_no, disc_no, duration, has_cover, file_size, mtime, bpm, beat_grid, downbeats, key, lufs, analysis_version"
}

/// The column a track list is sorted by; unknown names sort by title.
pub open spec fn sort_column_spec(sort_by: Seq<char>) -> Seq<char> {
    if sort_by == "title"@ {
        "title"@
    } else if sort_by == "artist"@ {
        "artist"@
    } else if sort_by == "album"@ {
        "album"@
    } else if sort_by == "duration"@ {
        "duration"@
    } else if sort_by == "genre"@ {
        "genre"@
    } else if sort_by == "year"@ {
        "year"@
    } else {
        "title"@
    }
}

/// The sort direction: descending only for "desc".
pub open spec fn sort_order_spec(sort_order: Seq<char>) -> Seq<char> {
    if sort_order == "desc"@ { "DESC"@ } else { "ASC"@ }
}

/// Whether a search text filters the list (present and non-empty).
pub open spec fn filters(search: Option<Seq<char>>) -> bool {
    search is Some && search->0.len() > 0
}

/// The statement that lists tracks.
pub open spec fn track_list_sql(sort_by: Seq<char>, sort_order: Seq<char>, search: Option<Seq<char>>) -> Seq<char> {
    "SELECT "@ + "id, path, title, artist, album, album_artist, genre, year, track_no, disc_no, duration, has_cover, file_size, mtime, bpm, beat_grid, downbeats, key, lufs, analysis_version"@
        + " FROM tracks"@
        + (if filters(search) {
            " WHERE title LIKE ?1 OR artist LIKE ?1 OR album LIKE ?1 OR genre LIKE ?1"@
        } else {
            Seq::empty()
        })
        + " ORDER BY "@ + sort_column_spec(sort_by) + " COLLATE NOCASE "@ + sort_order_spec(sort_order)
}

/// A statement and the text bound to its `?1` parameter, if it has one.
pub struct TrackListQuery {
    pub sql: String,
    pub pattern: Option<String>,
}

/// The sort column for a requested sort key.
pub fn sort_column(sort_by: &str) -> (r: &'static str)
    ensures
        r@ == sort_column_spec(sort_by@),
{
    if str_eq(sort_by, "title") {
        "title"
    } else if str_eq(sort_by, "artist") {
        "artist"
    } else if str_eq(sort_by, "album") {
        "album"
    } else if str_eq(sort_by, "duration") {
        "duration"
    } else if str_eq(sort_by, "genre") {
        "genre"
    } else if str_eq(sort_by, "year") {
        "year"
    } else {
        "title"
    }
}

/// The statement that lists tracks sorted by `sort_by` in `sort_order`,
/// filtered by `search` on title, artist, album and genre when it is not
/// empty; the search text is matched anywhere in those fields.
pub fn track_list_query(sort_by: &str, sort_order: &str, search: Option<&str>) -> (r: TrackListQuery)
    ensures
        r.sql@ == track_list_sql(sort_by@, sort_order@, match search {
            Some(q) => Some(q@),
            None => None,
        }),
        match search {
            Some(q) => if q@.len() > 0 {
                r.pattern is Some && r.pattern->0@ == seq!['%'] + q@ + seq!['%']
            } else {
                r.pattern is None
            },
            None => r.pattern is None,
        },
{
    let col = sort_column(sort_by);
    let order = if str_eq(sort_order, "desc") { "DESC" } else { "ASC" };
    let ghost sv: Option<Seq<char>> = match search {
        Some(q) => Some(q@),
        None => None,
    };
    let (where_clause, pattern) = match search {
        Some(q) => if q.is_empty() {
            ("", None)
        } else {
            let mut p = String::new();
            crate::text::push_char(&mut p, '%');
            push_str(&mut p, q);
            crate::text::push_char(&mut p, '%');
            (" WHERE title LIKE ?1 OR artist LIKE ?1 OR album LIKE ?1 OR genre LIKE ?1", Some(p))
        },
        None => ("", None),
    };
    proof {
        if !filters(sv) {
            reveal_strlit("");
        }
    }
    let mut sql = String::new();
    push_str(&mut sql, "SELECT ");
    push_str(&mut sql, track_columns());
    push_str(&mut sql, " FROM tracks");
    push_str(&mut sql, where_clause);
    push_str(&mut sql, " ORDER BY ");
    push_str(&mut sql, col);
    push_str(&mut sql, " COLLATE NOCASE ");
    push_str(&mut sql, order);
    TrackListQuery { sql, pattern }
}

/// The statement that reads one track by id.
pub fn track_by_id_query() -> (r: String)
    ensures
        r@ == "SELECT "@ + "id, path, title, artist, album, album_artist, genre, year, track_no, disc_no, duration, has_cover, file_size, mtime, bpm, beat_grid, downbeats, key, lufs, analysis_version"@
            + " FROM tracks WHERE id = ?1"@,
{
    let mut sql = String::new();
    push_str(&mut sql, "SELECT ");
    push_str(&mut sql, track_columns());
    push_str(&mut sql, " FROM tracks WHERE id = ?1");
    sql
}

/// The statement that reads an artist's tracks, by album, disc and track number.
pub fn tracks_by_artist_query() -> (r: String)
    ensures
        r@ == "SELECT "@ + "id, path, title, artist, album, album_artist, genre, year, track_no, disc_no, duration, has_cover, file_size, mtime, bpm, beat_grid, downbeats, key, lufs, analysis_version"@
            + " FROM tracks WHERE artist = ?1 ORDER BY album COLLATE NOCASE ASC, disc_no ASC, track_no ASC"@,
{
    let mut sql = String::new();
    push_str(&mut sql, "SELECT ");
    push_str(&mut sql, track_columns());
    push_str(&mut sql, " FROM tracks WHERE artist = ?1 ORDER BY album COLLATE NOCASE ASC, disc_no ASC, track_no ASC");
    sql
}

/// `seq![s]` when `b` holds, else nothing.
pub open spec fn when(b: bool, s: Seq<char>) -> Seq<Seq<char>> {
    if b { seq![s] } else { Seq::empty() }
}

/// The columns added to the tracks table after its first version, in the
/// order they are added.
pub open spec fn added_columns() -> Seq<Seq<char>> {
    seq!["waveform"@, "bpm"@, "beat_grid"@, "downbeats"@, "key"@, "analysis_version"@, "lufs"@]
}

/// The statements that add the columns missing from a tracks table with the
/// given columns, in the order of `added_columns`.
pub open spec fn pending_migrations(cols: Seq<String>) -> Seq<Seq<char>> {
    when(!has_name(cols, "waveform"@), "ALTER TABLE tracks ADD COLUMN waveform BLOB;"@)
        + when(!has_name(cols, "bpm"@), "ALTER TABLE tracks ADD COLUMN bpm REAL;"@)
        + when(!has_name(cols, "beat_grid"@), "ALTER TABLE tracks ADD COLUMN beat_grid BLOB;"@)
        + when(!has_name(cols, "downbeats"@), "ALTER TABLE tracks ADD COLUMN downbeats BLOB;"@)
        + when(!has_name(cols, "key"@), "ALTER TABLE tracks ADD COLUMN key TEXT;"@)
        + when(!has_name(cols, "analysis_version"@), "ALTER TABLE tracks ADD COLUMN analysis_version INTEGER;"@)
        + when(!has_name(cols, "lufs"@), "ALTER TABLE tracks ADD COLUMN lufs REAL;"@)
}

fn push_migration(out: &mut Vec<String>, cols: &Vec<String>, name: &str, ddl: &str)
    ensures
        strings_view(final(out)@) == strings_view(old(out)@) + when(!has_name(cols@, name@), ddl@),
{
    let ghost before = out@;
    if !contains_name(cols, name) {
        out.push(owned(ddl));
        assert(strings_view(out@) == strings_view(before).push(ddl@));
    } else {
        assert(strings_view(before) + when(false, ddl@) == strings_view(before));
    }
}

/// The migration statements to run on a tracks table with columns `cols`.
pub fn migration_statements(cols: &Vec<String>) -> (r: Vec<String>)
    ensures
        strings_view(r@) == pending_migrations(cols@),
{
    let mut out: Vec<String> = Vec::new();
    assert(strings_view(out@) == Seq::<Seq<char>>::empty());
    push_migration(&mut out, cols, "waveform", "ALTER TABLE tracks ADD COLUMN waveform BLOB;");
    push_migration(&mut out, cols, "bpm", "ALTER TABLE tracks ADD COLUMN bpm REAL;");
    push_migration(&mut out, cols, "beat_grid", "ALTER TABLE tracks ADD COLUMN beat_grid BLOB;");
    push_migration(&mut out, cols, "downbeats", "ALTER TABLE tracks ADD COLUMN downbeats BLOB;");
    push_migration(&mut out, cols, "key", "ALTER TABLE tracks ADD COLUMN key TEXT;");
    push_migration(&mut out, cols, "analysis_version", "ALTER TABLE tracks ADD COLUMN analysis_version INTEGER;");
    push_migration(&mut out, cols, "lufs", "ALTER TABLE tracks ADD COLUMN lufs REAL;");
    assert(Seq::<Seq<char>>::empty() + pending_migrations(cols@) == pending_migrations(cols@));
    out
}

/// A table that already has every added column needs no migration: running
/// the migrations once is enough.
pub proof fn lemma_migrations_complete(cols: Seq<String>)
    requires
        forall|i: int| 0 <= i < added_columns().len() ==> has_name(cols, #[trigger] added_columns()[i]),
    ensures
        pending_migrations(cols) == Seq::<Seq<char>>::empty(),
{
    assert(has_name(cols, added_columns()[0]));
    assert(has_name(cols, added_columns()[1]));
    assert(has_name(cols, added_columns()[2]));
    assert(has_name(cols, added_columns()[3]));
    assert(has_name(cols, added_columns()[4]));
    assert(has_name(cols, added_columns()[5]));
    assert(has_name(cols, added_columns()[6]));
}

proof fn lemma_contains_when(a: Seq<Seq<char>>, b: bool, t: Seq<char>, x: Seq<char>)
    ensures
        (a + self::when(b, t)).contains(x) == (a.contains(x) || (b && x == t)),
        self::when(b, t).contains(x) == (b && x == t),
{
    let c = a + when(b, t);
    if b {
        assert(c[a.len() as int] == t);
        assert(when(b, t)[0] == t);
    }
    if c.contains(x) {
        let i = choose|i: int| 0 <= i < c.len() && c[i] == x;
        if i < a.len() {
            assert(a[i] == x);
        }
    }
    if a.contains(x) {
        let i = choose|i: int| 0 <= i < a.len() && a[i] == x;
        assert(c[i] == x);
    }
}

/// A migration adds a column exactly when the table lacks it: for each
/// column added after the first version of the tracks table, its
/// `ALTER TABLE` statement is among the statements to run if and only if the
/// table has no column of that name; there are no other statements, and none
/// comes twice.
pub proof fn lemma_migration_per_column(cols: Seq<String>)
    ensures
        pending_migrations(cols).contains("ALTER TABLE tracks ADD COLUMN waveform BLOB;"@) == !has_name(cols, "waveform"@),
        pending_migrations(cols).contains("ALTER TABLE tracks ADD COLUMN bpm REAL;"@) == !has_name(cols, "bpm"@),
        pending_migrations(cols).contains("ALTER TABLE tracks ADD COLUMN beat_grid BLOB;"@) == !has_name(cols, "beat_grid"@),
        pending_migrations(cols).contains("ALTER TABLE tracks ADD COLUMN downbeats BLOB;"@) == !has_name(cols, "downbeats"@),
        pending_migrations(cols).contains("ALTER TABLE tracks ADD COLUMN key TEXT;"@) == !has_name(cols, "key"@),
        pending_migrations(cols).contains("ALTER TABLE tracks ADD COLUMN analysis_version INTEGER;"@)
            == !has_name(cols, "analysis_version"@),
        pending_migrations(cols).contains("ALTER TABLE tracks ADD COLUMN lufs REAL;"@) == !has_name(cols, "lufs"@),
        pending_migrations(cols).len() == (if has_name(cols, "waveform"@) { 0int } else { 1int })
            + (if has_name(cols, "bpm"@) { 0int } else { 1int })
            + (if has_name(cols, "beat_grid"@) { 0int } else { 1int })
            + (if has_name(cols, "downbeats"@) { 0int } else { 1int })
            + (if has_name(cols, "key"@) { 0int } else { 1int })
            + (if has_name(cols, "analysis_version"@) { 0int } else { 1int })
            + (if has_name(cols, "lufs"@) { 0int } else { 1int }),
{
    reveal_strlit("ALTER TABLE tracks ADD COLUMN waveform BLOB;");
    reveal_strlit("ALTER TABLE tracks ADD COLUMN bpm REAL;");
    reveal_strlit("ALTER TABLE tracks ADD COLUMN beat_grid BLOB;");
    reveal_strlit("ALTER TABLE tracks ADD COLUMN downbeats BLOB;");
    reveal_strlit("ALTER TABLE tracks ADD COLUMN key TEXT;");
    reveal_strlit("ALTER TABLE tracks ADD COLUMN analysis_version INTEGER;");
    reveal_strlit("ALTER TABLE tracks ADD COLUMN lufs REAL;");
    let s0 = "ALTER TABLE tracks ADD COLUMN waveform BLOB;"@;
    let s1 = "ALTER TABLE tracks ADD COLUMN bpm REAL;"@;
    let s2 = "ALTER TABLE tracks ADD COLUMN beat_grid BLOB;"@;
    let s3 = "ALTER TABLE tracks ADD COLUMN downbeats BLOB;"@;
    let s4 = "ALTER TABLE tracks ADD COLUMN key TEXT;"@;
    let s5 = "ALTER TABLE tracks ADD COLUMN analysis_version INTEGER;"@;
    let s6 = "ALTER TABLE tracks ADD COLUMN lufs REAL;"@;
    let b0 = !has_name(cols, "waveform"@);
    let b1 = !has_name(cols, "bpm"@);
    let b2 = !has_name(cols, "beat_grid"@);
    let b3 = !has_name(cols, "downbeats"@);
    let b4 = !has_name(cols, "key"@);
    let b5 = !has_name(cols, "analysis_version"@);
    let b6 = !has_name(cols, "lufs"@);
    // The seven statements differ from each other at the character after
    // "ALTER TABLE tracks ADD COLUMN " or in their length.
    assert(s0[30] == 'w' && s1[30] == 'b' && s1[31] == 'p' && s2[30] == 'b' && s2[31] == 'e' && s3[30] == 'd'
        && s4[30] == 'k' && s5[30] == 'a' && s6[30] == 'l');
    let w0 = when(b0, s0);
    let w1 = w0 + when(b1, s1);
    let w2 = w1 + when(b2, s2);
    let w3 = w2 + when(b3, s3);
    let w4 = w3 + when(b4, s4);
    let w5 = w4 + when(b5, s5);
    let w6 = w5 + when(b6, s6);
    assert(w6 == pending_migrations(cols));
    let xs = seq![s0, s1, s2, s3, s4, s5, s6];
    assert forall|k: int| 0 <= k < 7 implies
        w6.contains(#[trigger] xs[k]) == (xs[k] == s0 && b0 || xs[k] == s1 && b1 || xs[k] == s2 && b2
            || xs[k] == s3 && b3 || xs[k] == s4 && b4 || xs[k] == s5 && b5 || xs[k] == s6 && b6) by {
        let x = xs[k];
        lemma_contains_when(Seq::empty(), b0, s0, x);
        lemma_contains_when(w0, b1, s1, x);
        lemma_contains_when(w1, b2, s2, x);
        lemma_contains_when(w2, b3, s3, x);
        lemma_contains_when(w3, b4, s4, x);
        lemma_contains_when(w4, b5, s5, x);
        lemma_contains_when(w5, b6, s6, x);
    }
    assert(xs[0] == s0 && xs[1] == s1 && xs[2] == s2 && xs[3] == s3 && xs[4] == s4 && xs[5] == s5 && xs[6] == s6);
}

/// The ids of the rows (id, path) whose path is not among `existing`, in row order.
pub open spec fn stale_ids(rows: Seq<(String, String)>, existing: Seq<String>) -> Seq<Seq<char>>
    decreases rows.len(),
{
    if rows.len() == 0 {
        Seq::empty()
    } else {
        stale_ids(rows.drop_last(), existing) + when(!has_name(existing, rows.last().1@), rows.last().0@)
    }
}

/// The ids of the tracks to remove after a rescan: those whose path was not
/// found on disk. With no paths found, every track goes.
pub fn ids_to_delete(rows: &Vec<(String, String)>, existing_paths: &Vec<String>) -> (r: Vec<String>)
    ensures
        strings_view(r@) == stale_ids(rows@, existing_paths@),
{
    let mut out: Vec<String> = Vec::new();
    let mut i: usize = 0;
    while i < rows.len()
        invariant
            i <= rows.len(),
            strings_view(out@) == stale_ids(rows@.subrange(0, i as int), existing_paths@),
        decreases rows.len() - i,
    {
        let ghost before = out@;
        assert(rows@.subrange(0, i + 1).drop_last() == rows@.subrange(0, i as int));
        if !contains_name(existing_paths, rows[i].1.as_str()) {
            out.push(rows[i].0.clone());
            assert(strings_view(out@) == strings_view(before).push(rows@[i as int].0@));
        } else {
            assert(strings_view(out@) == strings_view(before) + when(false, rows@[i as int].0@));
        }
        i = i + 1;
    }
    assert(rows@.subrange(0, rows.len() as int) == rows@);
    out
}

proof fn lemma_stale_ids_members(rows: Seq<(String, String)>, existing: Seq<String>, k: int)
    requires
        0 <= k < rows.len(),
        !has_name(existing, rows[k].1@),
    ensures
        stale_ids(rows, existing).contains(rows[k].0@),
    decreases rows.len(),
{
    let s = stale_ids(rows, existing);
    if k == rows.len() - 1 {
        assert(s[s.len() - 1] == rows[k].0@);
    } else {
        lemma_stale_ids_members(rows.drop_last(), existing, k);
        let t = stale_ids(rows.drop_last(), existing);
        let j = choose|j: int| 0 <= j < t.len() && t[j] == rows[k].0@;
        assert(s[j] == t[j]);
    }
}

/// Whether some row with id `id` has a path that is not among `existing`.
pub open spec fn from_missing_row(rows: Seq<(String, String)>, existing: Seq<String>, id: Seq<char>) -> bool {
    exists|k: int| 0 <= k < rows.len() && (#[trigger] rows[k]).0@ == id && !has_name(existing, rows[k].1@)
}

proof fn lemma_stale_ids_sources(rows: Seq<(String, String)>, existing: Seq<String>, j: int)
    requires
        0 <= j < stale_ids(rows, existing).len(),
    ensures
        from_missing_row(rows, existing, stale_ids(rows, existing)[j]),
    decreases rows.len(),
{
    let t = stale_ids(rows.drop_last(), existing);
    if j < t.len() {
        lemma_stale_ids_sources(rows.drop_last(), existing, j);
        let k = choose|k: int| 0 <= k < rows.drop_last().len() && (#[trigger] rows.drop_last()[k]).0@ == t[j]
            && !has_name(existing, rows.drop_last()[k].1@);
        assert(rows[k] == rows.drop_last()[k]);
    } else {
        assert(rows[rows.len() - 1] == rows.last());
    }
}

/// A rescan removes exactly the tracks whose files are gone: a row's id is
/// among the ids to delete if its path was not found, and every id to delete
/// belongs to a row whose path was not found.
pub proof fn lemma_rescan_removes_missing(rows: Seq<(String, String)>, existing: Seq<String>)
    ensures
        forall|k: int| 0 <= k < rows.len() && !has_name(existing, (#[trigger] rows[k]).1@)
            ==> stale_ids(rows, existing).contains(rows[k].0@),
        forall|j: int| 0 <= j < stale_ids(rows, existing).len()
            ==> from_missing_row(rows, existing, #[trigger] stale_ids(rows, existing)[j]),
{
    assert forall|k: int| 0 <= k < rows.len() && !has_name(existing, (#[trigger] rows[k]).1@)
        implies stale_ids(rows, existing).contains(rows[k].0@) by {
        lemma_stale_ids_members(rows, existing, k);
    }
    assert forall|j: int| 0 <= j < stale_ids(rows, existing).len()
        implies from_missing_row(rows, existing, #[trigger] stale_ids(rows, existing)[j]) by {
        lemma_stale_ids_sources(rows, existing, j);
    }
}

/// A playlist track and its position.
pub struct PlaylistEntry {
    pub track_id: String,
    pub position: i64,
}

/// Entries for tracks appended to a playlist whose largest position is
/// `max_position` (none when the playlist is empty or the lookup failed,
/// which counts as -1): the tracks take the next positions, in order.
pub fn append_entries(max_position: Option<i64>, track_ids: &Vec<String>) -> (r: Vec<PlaylistEntry>)
    requires
        match max_position {
            Some(m) => m + 1 + track_ids.len() <= i64::MAX,
            None => track_ids.len() <= i64::MAX,
        },
    ensures
        r.len() == track_ids.len(),
        forall|i: int| 0 <= i < r.len() ==> (#[trigger] r[i]).track_id@ == track_ids[i]@
            && r[i].position == (match max_position {
                Some(m) => m as int,
                None => -1,
            }) + 1 + i,
{
    let first: i64 = match max_position {
        Some(m) => m + 1,
        None => 0,
    };
    let mut out: Vec<PlaylistEntry> = Vec::new();
    let mut pos = first;
    let mut i: usize = 0;
    while i < track_ids.len()
        invariant
            i <= track_ids.len(),
            first + track_ids.len() <= i64::MAX,
            pos == first + i,
            out.len() == i,
            forall|j: int| 0 <= j < i ==> (#[trigger] out[j]).track_id@ == track_ids[j]@
                && out[j].position == first + j,
        decreases track_ids.len() - i,
    {
        out.push(PlaylistEntry { track_id: track_ids[i].clone(), position: pos });
        pos = pos + 1;
        i = i + 1;
    }
    out
}

/// Entries that give a playlist exactly the listed tracks, at positions
/// 0, 1, 2, ... in the listed order.
pub fn reorder_entries(track_ids: &Vec<String>) -> (r: Vec<PlaylistEntry>)
    requires
        track_ids.len() <= i64::MAX,
    ensures
        r.len() == track_ids.len(),
        forall|i: int| 0 <= i < r.len() ==> (#[trigger] r[i]).track_id@ == track_ids[i]@ && r[i].position == i,
{
    append_entries(None, track_ids)
}

/// Positions handed out for appended tracks follow every existing one and
/// strictly increase, so reading the playlist by position gives the tracks
/// back in the order they were added.
pub proof fn lemma_append_order(max_position: i64, entries: Seq<PlaylistEntry>, n: int)
    requires
        entries.len() == n,
        forall|i: int| 0 <= i < n ==> (#[trigger] entries[i]).position == max_position + 1 + i,
    ensures
        forall|i: int| 0 <= i < n ==> (#[trigger] entries[i]).position > max_position,
        forall|i: int, j: int| 0 <= i < j < n ==> (#[trigger] entries[i]).position < (#[trigger] entries[j]).position,
{
}

} // verus!
