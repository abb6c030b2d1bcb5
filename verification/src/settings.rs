//! How the user settings are stored: one (key, value) row per setting.
//!
//! The playback speed is a number; it is stored as its text, and turning the
//! text back into a number is left to the caller.

use vstd::prelude::*;
use crate::text::{owned, str_eq};

verus! {

/// The settings as they are read back from the rows.
pub struct StoredSettings {
    pub theme: String,
    pub default_view: String,
    /// Every stored playback speed text, in row order; the last one that
    /// parses as a number wins, and 1.0 applies when none does.
    pub playback_speed_texts: Vec<String>,
}

/// The value of the last row with key `key`, or `default` when there is none.
pub open spec fn last_value(rows: Seq<(String, String)>, key: Seq<char>, default: Seq<char>) -> Seq<char>
    decreases rows.len(),
{
    if rows.len() == 0 {
        default
    } else if rows.last().0@ == key {
        rows.last().1@
    } else {
        last_value(rows.drop_last(), key, default)
    }
}

/// The values of all rows with key `key`, in row order.
pub open spec fn all_values(rows: Seq<(String, String)>, key: Seq<char>) -> Seq<Seq<char>>
    decreases rows.len(),
{
    if rows.len() == 0 {
        Seq::empty()
    } else if rows.last().0@ == key {
        all_values(rows.drop_last(), key).push(rows.last().1@)
    } else {
        all_values(rows.drop_last(), key)
    }
}

/// The rows written for the settings, theme first, then the default view,
/// then the playback speed.
pub open spec fn settings_rows_spec(theme: Seq<char>, default_view: Seq<char>, speed: Seq<char>) -> Seq<(Seq<char>, Seq<char>)> {
    seq![("theme"@, theme), ("default_view"@, default_view), ("playback_speed"@, speed)]
}

pub open spec fn rows_view(rows: Seq<(String, String)>) -> Seq<(Seq<char>, Seq<char>)> {
    rows.map_values(|r: (String, String)| (r.0@, r.1@))
}

/// The rows that store the given settings.
pub fn settings_rows(theme: &str, default_view: &str, playback_speed: &str) -> (r: Vec<(String, String)>)
    ensures
        rows_view(r@) == settings_rows_spec(theme@, default_view@, playback_speed@),
{
    let mut rows: Vec<(String, String)> = Vec::new();
    rows.push((owned("theme"), owned(theme)));
    rows.push((owned("default_view"), owned(default_view)));
    rows.push((owned("playback_speed"), owned(playback_speed)));
    assert(rows_view(rows@) =~= settings_rows_spec(theme@, default_view@, playback_speed@));
    rows
}

/// The settings held by the stored rows: the last theme and default view
/// written ("system" and "library" when none is), and every playback speed text.
pub fn read_settings(rows: &Vec<(String, String)>) -> (r: StoredSettings)
    ensures
        r.theme@ == last_value(rows@, "theme"@, "system"@),
        r.default_view@ == last_value(rows@, "default_view"@, "library"@),
        r.playback_speed_texts@.map_values(|s: String| s@) == all_values(rows@, "playback_speed"@),
{
    let mut theme = owned("system");
    let mut view = owned("library");
    let mut speeds: Vec<String> = Vec::new();
    let mut i: usize = 0;
    while i < rows.len()
        invariant
            i <= rows.len(),
            theme@ == last_value(rows@.subrange(0, i as int), "theme"@, "system"@),
            view@ == last_value(rows@.subrange(0, i as int), "default_view"@, "library"@),
            speeds@.map_values(|s: String| s@) == all_values(rows@.subrange(0, i as int), "playback_speed"@),
        decreases rows.len() - i,
    {
        proof {
            reveal_strlit("theme");
            reveal_strlit("default_view");
            reveal_strlit("playback_speed");
            assert("theme"@[0] == 't' && "default_view"@[0] == 'd' && "playback_speed"@[0] == 'p');
        }
        let ghost before = speeds@;
        let ghost prefix = rows@.subrange(0, i + 1);
        assert(prefix.drop_last() == rows@.subrange(0, i as int));
        assert(prefix.last() == rows@[i as int]);
        let key = rows[i].0.as_str();
        if str_eq(key, "theme") {
            theme = rows[i].1.clone();
        } else if str_eq(key, "playback_speed") {
            speeds.push(rows[i].1.clone());
            assert(speeds@.map_values(|s: String| s@) == before.map_values(|s: String| s@).push(rows@[i as int].1@));
        } else if str_eq(key, "default_view") {
            view = rows[i].1.clone();
        }
        i = i + 1;
    }
    assert(rows@.subrange(0, rows.len() as int) == rows@);
    StoredSettings { theme, default_view: view, playback_speed_texts: speeds }
}

/// Reading back freshly written settings gives the same theme and default
/// view, and exactly the written playback speed text.
pub proof fn lemma_settings_round_trip(rows: Seq<(String, String)>, theme: Seq<char>, default_view: Seq<char>, speed: Seq<char>)
    requires
        rows_view(rows) == settings_rows_spec(theme, default_view, speed),
    ensures
        last_value(rows, "theme"@, "system"@) == theme,
        last_value(rows, "default_view"@, "library"@) == default_view,
        all_values(rows, "playback_speed"@) == seq![speed],
{
    reveal_strlit("theme");
    reveal_strlit("default_view");
    reveal_strlit("playback_speed");
    assert(rows_view(rows).len() == rows.len());
    assert(rows.len() == 3);
    assert(rows_view(rows)[0] == (rows[0].0@, rows[0].1@));
    assert(rows_view(rows)[1] == (rows[1].0@, rows[1].1@));
    assert(rows_view(rows)[2] == (rows[2].0@, rows[2].1@));
    assert(rows[0].0@ == "theme"@ && rows[0].1@ == theme);
    assert(rows[1].0@ == "default_view"@ && rows[1].1@ == default_view);
    assert(rows[2].0@ == "playback_speed"@ && rows[2].1@ == speed);
    let r1 = rows.drop_last();
    let r0 = r1.drop_last();
    assert(r0.drop_last().len() == 0);
    assert(r1.last() == rows[1]);
    assert(r0.last() == rows[0]);
    assert("theme"@[0] == 't' && "default_view"@[0] == 'd' && "playback_speed"@[0] == 'p');
    assert("theme"@ != "playback_speed"@);
    assert("default_view"@ != "playback_speed"@);
    assert("theme"@ != "default_view"@);
    reveal_with_fuel(last_value, 4);
    reveal_with_fuel(all_values, 4);
}

} // verus!
