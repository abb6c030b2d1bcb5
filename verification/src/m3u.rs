//! Writing a playlist as an extended M3U document.

use vstd::prelude::*;
use crate::text::{owned, push_char, push_signed_decimal, push_str};

verus! {

/// How a track is named in the document: "ARTIST - TITLE", or the title
/// alone when the artist is unknown.
pub open spec fn display_spec(artist: Seq<char>, title: Seq<char>) -> Seq<char> {
    if artist.len() == 0 { title } else { artist + " - "@ + title }
}

/// How a track is named in the document.
pub fn m3u_display(artist: &str, title: &str) -> (r: String)
    ensures
        r@ == display_spec(artist@, title@),
{
    if artist.is_empty() {
        owned(title)
    } else {
        let mut s = owned(artist);
        push_str(&mut s, " - ");
        push_str(&mut s, title);
        s
    }
}

/// One track of the document: its length in whole seconds, its name and its path.
pub struct M3uEntry {
    pub duration_secs: i64,
    pub display: String,
    pub path: String,
}

/// The two lines written for a track.
pub open spec fn entry_text(e: M3uEntry) -> Seq<char> {
    "#EXTINF:"@ + crate::text::signed_decimal(e.duration_secs as int) + seq![','] + e.display@ + seq!['\n']
        + e.path@ + seq!['\n']
}

/// The lines written for the tracks, in order.
pub open spec fn entries_text(es: Seq<M3uEntry>) -> Seq<char>
    decreases es.len(),
{
    if es.len() == 0 {
        Seq::empty()
    } else {
        entries_text(es.drop_last()) + entry_text(es.last())
    }
}

/// The whole document: the `#EXTM3U` header line, then two lines per track.
pub open spec fn m3u_spec(es: Seq<M3uEntry>) -> Seq<char> {
    "#EXTM3U"@ + seq!['\n'] + entries_text(es)
}

/// The M3U document for the tracks of a playlist, in playlist order.
pub fn m3u_text(entries: &Vec<M3uEntry>) -> (r: String)
    ensures
        r@ == m3u_spec(entries@),
{
    let mut s = owned("#EXTM3U");
    push_char(&mut s, '\n');
    let mut i: usize = 0;
    while i < entries.len()
        invariant
            i <= entries.len(),
            s@ == "#EXTM3U"@ + seq!['\n'] + entries_text(entries@.subrange(0, i as int)),
        decreases entries.len() - i,
    {
        let e = &entries[i];
        let ghost before = s@;
        push_str(&mut s, "#EXTINF:");
        push_signed_decimal(&mut s, e.duration_secs);
        push_char(&mut s, ',');
        push_str(&mut s, e.display.as_str());
        push_char(&mut s, '\n');
        push_str(&mut s, e.path.as_str());
        push_char(&mut s, '\n');
        assert(entries@.subrange(0, i + 1).drop_last() == entries@.subrange(0, i as int));
        assert(entries@.subrange(0, i + 1).last() == entries@[i as int]);
        assert(s@ == before + entry_text(entries@[i as int]));
        i = i + 1;
    }
    assert(entries@.subrange(0, entries.len() as int) == entries@);
    s
}

} // verus!
