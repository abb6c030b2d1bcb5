//! Cover art: the files a track's covers are stored in, which one is shown,
//! and which online search result a cover is taken from.

use vstd::prelude::*;
use crate::text::{chars_of, contains_str, owned, push_char, push_str, str_eq, string_of, to_lowercase};

verus! {

/// The two stored sizes of a cover.
#[derive(Clone, Copy, Debug, PartialEq, Eq, Structural)]
pub enum CoverSize {
    /// 600 pixels.
    Full,
    /// 256 pixels.
    Thumb,
}

/// The size asked for: "thumb" means the thumbnail, anything else the full cover.
pub fn cover_size(size: &str) -> (r: CoverSize)
    ensures
        r == (if size@ == "thumb"@ { CoverSize::Thumb } else { CoverSize::Full }),
{
    if str_eq(size, "thumb") {
        CoverSize::Thumb
    } else {
        CoverSize::Full
    }
}

/// The file name of a track's cover: `ID_full.jpg` or `ID_thumb.jpg`.
pub fn cover_file_name(track_id: &str, size: CoverSize) -> (r: String)
    ensures
        r@ == track_id@ + (match size {
            CoverSize::Full => "_full.jpg"@,
            CoverSize::Thumb => "_thumb.jpg"@,
        }),
{
    let mut s = owned(track_id);
    match size {
        CoverSize::Full => push_str(&mut s, "_full.jpg"),
        CoverSize::Thumb => push_str(&mut s, "_thumb.jpg"),
    }
    s
}

/// The file name covers had before thumbnails existed: `ID.jpg`.
pub fn legacy_cover_file_name(track_id: &str) -> (r: String)
    ensures
        r@ == track_id@ + ".jpg"@,
{
    let mut s = owned(track_id);
    push_str(&mut s, ".jpg");
    s
}

/// The cover shown: the file of the requested size when it exists, else the
/// old single file when that exists, else none.
pub fn pick_cover(sized: String, sized_exists: bool, legacy: String, legacy_exists: bool) -> (r: Option<String>)
    ensures
        r == (if sized_exists {
            Some(sized)
        } else if legacy_exists {
            Some(legacy)
        } else {
            None::<String>
        }),
{
    if sized_exists {
        Some(sized)
    } else if legacy_exists {
        Some(legacy)
    } else {
        None
    }
}

/// Whether an old single cover file is promoted to the full-size file: when
/// it exists and the full-size file does not.
pub fn should_promote_legacy(legacy_exists: bool, full_exists: bool) -> (r: bool)
    ensures
        r == (legacy_exists && !full_exists),
{
    legacy_exists && !full_exists
}

/// One result of the iTunes search.
#[derive(Clone, Debug)]
pub struct ItunesResult {
    pub artist_name: Option<String>,
    pub track_name: Option<String>,
    pub artwork_url100: Option<String>,
}

/// The search text sent to iTunes: artist, a space, title.
pub fn itunes_search_term(artist: &str, title: &str) -> (r: String)
    ensures
        r@ == artist@ + seq![' '] + title@,
{
    let mut s = owned(artist);
    push_char(&mut s, ' ');
    push_str(&mut s, title);
    s
}

/// Whether a result's artist name contains the artist searched for, both
/// compared in lowercase.
pub open spec fn artist_matches(r: ItunesResult, artist: Seq<char>) -> bool {
    match r.artist_name {
        Some(a) => crate::text::contains_run(crate::text::lowercase(a@), crate::text::lowercase(artist)),
        None => false,
    }
}

/// The first result at or after `i` whose artist matches.
pub open spec fn first_match_from(results: Seq<ItunesResult>, artist: Seq<char>, i: int) -> Option<int>
    decreases results.len() - i,
{
    if i < 0 || i >= results.len() {
        None
    } else if artist_matches(results[i], artist) {
        Some(i)
    } else {
        first_match_from(results, artist, i + 1)
    }
}

proof fn lemma_first_match_in_range(results: Seq<ItunesResult>, artist: Seq<char>, k: int)
    ensures
        first_match_from(results, artist, k) matches Some(i) ==> k <= i < results.len(),
    decreases results.len() - k,
{
    if 0 <= k < results.len() && !artist_matches(results[k], artist) {
        lemma_first_match_in_range(results, artist, k + 1);
    }
}

proof fn lemma_first_match_is_first(results: Seq<ItunesResult>, artist: Seq<char>, k: int)
    requires
        0 <= k,
    ensures
        match first_match_from(results, artist, k) {
            Some(j) => k <= j < results.len() && artist_matches(results[j], artist)
                && forall|m: int| k <= m < j ==> !artist_matches(#[trigger] results[m], artist),
            None => forall|m: int| k <= m < results.len() ==> !artist_matches(#[trigger] results[m], artist),
        },
    decreases results.len() - k,
{
    if k < results.len() && !artist_matches(results[k], artist) {
        lemma_first_match_is_first(results, artist, k + 1);
    }
}

/// The cover is taken from the first result whose artist name, in
/// lowercase, contains the searched artist in lowercase; when no result's
/// artist does, from the first result; and from none when there are no
/// results. In particular a result whose artist name equals the searched
/// artist up to letter case is chosen unless an earlier result matches.
pub proof fn lemma_best_match_prefers_artist(results: Seq<ItunesResult>, artist: Seq<char>)
    ensures
        (exists|i: int| 0 <= i < results.len() && (#[trigger] results[i]).artist_name is Some
            && crate::text::contains_run(crate::text::lowercase(results[i].artist_name->0@), crate::text::lowercase(artist)))
            ==> (best_index(results, artist) is Some && 0 <= best_index(results, artist)->0 < results.len()
                && results[best_index(results, artist)->0].artist_name is Some
                && crate::text::contains_run(crate::text::lowercase(results[best_index(results, artist)->0].artist_name->0@),
                    crate::text::lowercase(artist))
                && forall|m: int| 0 <= m < best_index(results, artist)->0 ==> !((#[trigger] results[m]).artist_name is Some
                    && crate::text::contains_run(crate::text::lowercase(results[m].artist_name->0@), crate::text::lowercase(artist)))),
        !(exists|i: int| 0 <= i < results.len() && (#[trigger] results[i]).artist_name is Some
            && crate::text::contains_run(crate::text::lowercase(results[i].artist_name->0@), crate::text::lowercase(artist)))
            ==> best_index(results, artist) == (if results.len() > 0 { Some(0int) } else { None::<int> }),
        forall|i: int| 0 <= i < results.len() && (#[trigger] results[i]).artist_name is Some
            && crate::text::lowercase(results[i].artist_name->0@) == crate::text::lowercase(artist)
            ==> best_index(results, artist) is Some && best_index(results, artist)->0 <= i,
{
    lemma_first_match_is_first(results, artist, 0);
    assert forall|i: int| 0 <= i < results.len() && (#[trigger] results[i]).artist_name is Some
        && crate::text::lowercase(results[i].artist_name->0@) == crate::text::lowercase(artist)
        implies best_index(results, artist) is Some && best_index(results, artist)->0 <= i by {
        let la = crate::text::lowercase(results[i].artist_name->0@);
        assert(la.subrange(0int, 0int + la.len()) == la);
        assert(crate::text::contains_run(la, crate::text::lowercase(artist)));
        assert(artist_matches(results[i], artist));
    }
    if exists|i: int| 0 <= i < results.len() && (#[trigger] results[i]).artist_name is Some
        && crate::text::contains_run(crate::text::lowercase(results[i].artist_name->0@), crate::text::lowercase(artist)) {
        let i = choose|i: int| 0 <= i < results.len() && (#[trigger] results[i]).artist_name is Some
            && crate::text::contains_run(crate::text::lowercase(results[i].artist_name->0@), crate::text::lowercase(artist));
        assert(artist_matches(results[i], artist));
    }
}

/// The result a cover is taken from: the first whose artist matches, else
/// the first result; none when there are no results.
pub open spec fn best_index(results: Seq<ItunesResult>, artist: Seq<char>) -> Option<int> {
    match first_match_from(results, artist, 0) {
        Some(i) => Some(i),
        None => if results.len() > 0 { Some(0) } else { None },
    }
}

/// The index of the result a cover is taken from.
pub fn best_match(results: &Vec<ItunesResult>, artist: &str) -> (r: Option<usize>)
    ensures
        match r {
            Some(i) => i < results.len() && best_index(results@, artist@) == Some(i as int),
            None => best_index(results@, artist@) is None,
        },
{
    proof {
        lemma_first_match_in_range(results@, artist@, 0);
    }
    let artist_lower = to_lowercase(artist);
    let mut i: usize = 0;
    while i < results.len()
        invariant
            i <= results.len(),
            artist_lower@ == crate::text::lowercase(artist@),
            first_match_from(results@, artist@, 0) == first_match_from(results@, artist@, i as int),
        decreases results.len() - i,
    {
        let found = match &results[i].artist_name {
            Some(a) => {
                let al = to_lowercase(a.as_str());
                contains_str(al.as_str(), artist_lower.as_str())
            },
            None => false,
        };
        if found {
            return Some(i);
        }
        i = i + 1;
    }
    if results.len() > 0 {
        Some(0)
    } else {
        None
    }
}

/// `s` with every occurrence of the non-empty `from` replaced by `to`,
/// scanning left to right without overlaps (std `str::replace`).
pub open spec fn replace_all(s: Seq<char>, from: Seq<char>, to: Seq<char>) -> Seq<char>
    decreases s.len(),
{
    if from.len() == 0 || s.len() < from.len() {
        s
    } else if s.subrange(0, from.len() as int) == from {
        to + replace_all(s.subrange(from.len() as int, s.len() as int), from, to)
    } else {
        seq![s[0]] + replace_all(s.drop_first(), from, to)
    }
}

fn matches_at(c: &Vec<char>, i: usize, p: &Vec<char>) -> (r: bool)
    requires
        i <= c.len(),
    ensures
        r == (p.len() <= c.len() - i && c@.subrange(i as int, i + p.len()) == p@),
{
    if p.len() > c.len() - i {
        return false;
    }
    let mut j: usize = 0;
    while j < p.len()
        invariant
            p.len() <= c.len() - i,
            j <= p.len(),
            c@.subrange(i as int, i + j) == p@.subrange(0, j as int),
        decreases p.len() - j,
    {
        if c[i + j] != p[j] {
            assert(c@.subrange(i as int, i + p.len())[j as int] != p@[j as int]);
            return false;
        }
        assert(c@.subrange(i as int, i + j + 1) == c@.subrange(i as int, i + j).push(c@[i + j]));
        assert(p@.subrange(0, j + 1) == p@.subrange(0, j as int).push(p@[j as int]));
        j = j + 1;
    }
    assert(p@.subrange(0, p.len() as int) == p@);
    true
}

/// `s` with every occurrence of `from` replaced by `to`, scanning left to
/// right. `from` must not be empty: std's `str::replace` would then insert
/// `to` before every character and at the end, which no caller here needs.
pub fn replace_str(s: &str, from: &str, to: &str) -> (r: String)
    requires
        from@.len() > 0,
    ensures
        r@ == replace_all(s@, from@, to@),
{
    let c = chars_of(s);
    let f = chars_of(from);
    let t = chars_of(to);
    let n = c.len();
    let mut out: Vec<char> = Vec::new();
    let mut i: usize = 0;
    assert(c@.subrange(0, n as int) == c@);
    assert(out@ + replace_all(s@, from@, to@) == replace_all(s@, from@, to@));
    while i < n
        invariant
            n == c.len(),
            c@ == s@,
            f@ == from@,
            t@ == to@,
            f@.len() > 0,
            i <= n,
            replace_all(s@, from@, to@) == out@ + replace_all(c@.subrange(i as int, n as int), from@, to@),
        decreases n - i,
    {
        let ghost rest = c@.subrange(i as int, n as int);
        if matches_at(&c, i, &f) {
            assert(rest.subrange(0, f@.len() as int) == f@);
            assert(rest.subrange(f@.len() as int, rest.len() as int) == c@.subrange(i + f@.len(), n as int));
            let ghost before = out@;
            let mut k: usize = 0;
            while k < t.len()
                invariant
                    k <= t.len(),
                    out@ == before + t@.subrange(0, k as int),
                decreases t.len() - k,
            {
                out.push(t[k]);
                assert(t@.subrange(0, k + 1) == t@.subrange(0, k as int).push(t@[k as int]));
                k = k + 1;
            }
            assert(t@.subrange(0, t.len() as int) == t@);
            assert(before + (t@ + replace_all(c@.subrange(i + f@.len(), n as int), from@, to@))
                == out@ + replace_all(c@.subrange(i + f@.len(), n as int), from@, to@));
            i = i + f.len();
        } else {
            proof {
                if rest.len() >= f@.len() {
                    assert(rest.subrange(0, f@.len() as int) == c@.subrange(i as int, i + f@.len()));
                }
                assert(rest.drop_first() == c@.subrange(i + 1, n as int));
                assert(rest[0] == c@[i as int]);
            }
            let ghost before = out@;
            out.push(c[i]);
            assert(before + (seq![c@[i as int]] + replace_all(c@.subrange(i + 1, n as int), from@, to@))
                == out@ + replace_all(c@.subrange(i + 1, n as int), from@, to@));
            i = i + 1;
        }
    }
    assert(c@.subrange(n as int, n as int).len() == 0);
    assert(out@ + Seq::<char>::empty() == out@);
    string_of(&out)
}

/// The 600-pixel artwork address for a 100-pixel one: every `100x100bb`
/// becomes `600x600bb`.
pub fn upgrade_artwork_url(url: &str) -> (r: String)
    ensures
        r@ == replace_all(url@, "100x100bb"@, "600x600bb"@),
{
    proof {
        reveal_strlit("100x100bb");
    }
    replace_str(url, "100x100bb", "600x600bb")
}

/// The artwork address a cover is downloaded from: the best result's
/// 100-pixel artwork address, upgraded to 600 pixels; none when there is no
/// result or the best one has no artwork.
pub fn artwork_url(results: &Vec<ItunesResult>, artist: &str) -> (r: Option<String>)
    ensures
        match best_index(results@, artist@) {
            Some(i) => match results@[i].artwork_url100 {
                Some(u) => r is Some && r->0@ == replace_all(u@, "100x100bb"@, "600x600bb"@),
                None => r is None,
            },
            None => r is None,
        },
{
    match best_match(results, artist) {
        Some(i) => match &results[i].artwork_url100 {
            Some(u) => Some(upgrade_artwork_url(u.as_str())),
            None => None,
        },
        None => None,
    }
}

/// Edge length in pixels the full-size cover is scaled to fit.
pub const FULL_COVER_PIXELS: u32 = 600;
/// JPEG quality of the full-size cover.
pub const FULL_COVER_QUALITY: u8 = 85;
/// Edge length in pixels the thumbnail is scaled to fit.
pub const THUMB_COVER_PIXELS: u32 = 256;
/// JPEG quality of the thumbnail.
pub const THUMB_COVER_QUALITY: u8 = 75;

/// What the `image` crate makes of the picture bytes `data`: `None` when it
/// cannot read them as a picture (the format is guessed from the first
/// bytes); otherwise the JPEG, at `quality`, of the picture scaled with the
/// Lanczos3 filter to fit in `size` by `size` pixels keeping its aspect
/// ratio, or `Some(None)` when that JPEG cannot be encoded.
pub uninterp spec fn resized_jpeg(data: Seq<u8>, size: u32, quality: u8) -> Option<Option<Seq<u8>>>;

/// The bytes held by an optional buffer.
pub open spec fn bytes_of(o: Option<Vec<u8>>) -> Option<Seq<u8>> {
    match o {
        Some(v) => Some(v@),
        None => None,
    }
}

/// The bytes held by the result of a picture conversion.
pub open spec fn jpeg_view(r: Option<Option<Vec<u8>>>) -> Option<Option<Seq<u8>>> {
    match r {
        Some(o) => Some(bytes_of(o)),
        None => None,
    }
}

/// `image::load_from_memory`, `DynamicImage::resize` with
/// `FilterType::Lanczos3`, and `JpegEncoder::new_with_quality(..).encode_image`
/// into memory. Trusted: the result is the named conversion of `data` at
/// `size` and `quality`. The format guess reads the crate's table of known
/// signatures, which only code that registers decoding hooks changes; this
/// crate registers none.
#[verifier::external_body]
fn resize_to_jpeg(data: &[u8], size: u32, quality: u8) -> (r: Option<Option<Vec<u8>>>)
    ensures
        jpeg_view(r) == resized_jpeg(data@, size, quality),
{
    let img = match image::load_from_memory(data) {
        Ok(img) => img,
        Err(_) => return None,
    };
    let scaled = img.resize(size, size, image::imageops::FilterType::Lanczos3);
    let mut out: Vec<u8> = Vec::new();
    match image::codecs::jpeg::JpegEncoder::new_with_quality(&mut out, quality).encode_image(&scaled) {
        Ok(()) => Some(Some(out)),
        Err(_) => Some(None),
    }
}

/// The files stored for a cover picture.
#[derive(Debug)]
pub enum CoverFiles {
    /// The picture could be read: the full-size and thumbnail JPEGs, each
    /// `None` where it could not be encoded (its file is then left empty).
    Resized { full: Option<Vec<u8>>, thumb: Option<Vec<u8>> },
    /// The picture could not be read: its bytes are kept unchanged as the
    /// full-size file, and there is no thumbnail.
    Raw(Vec<u8>),
}

/// The cover files for picture bytes: a 600-pixel JPEG at quality 85 and a
/// 256-pixel JPEG at quality 75 when the picture can be read, else the bytes
/// themselves as the full-size file.
pub fn cover_files(data: &[u8]) -> (r: CoverFiles)
    ensures
        match resized_jpeg(data@, FULL_COVER_PIXELS, FULL_COVER_QUALITY) {
            None => r matches CoverFiles::Raw(raw) && raw@ == data@,
            Some(full) => r matches CoverFiles::Resized { full: f, thumb: t } && bytes_of(f) == full
                && bytes_of(t) == (match resized_jpeg(data@, THUMB_COVER_PIXELS, THUMB_COVER_QUALITY) {
                    Some(x) => x,
                    None => None::<Seq<u8>>,
                }),
        },
{
    match resize_to_jpeg(data, FULL_COVER_PIXELS, FULL_COVER_QUALITY) {
        None => CoverFiles::Raw(vstd::slice::slice_to_vec(data)),
        Some(full) => {
            let thumb = match resize_to_jpeg(data, THUMB_COVER_PIXELS, THUMB_COVER_QUALITY) {
                Some(t) => t,
                None => None,
            };
            CoverFiles::Resized { full, thumb }
        },
    }
}

/// What the `image` crate makes of `data` read as a JPEG (the format a
/// `.jpg` file name selects): `None` when it cannot be decoded as one;
/// otherwise the JPEG, at `quality`, of the picture scaled with the Lanczos3
/// filter to fit in `size` by `size` pixels keeping its aspect ratio, or
/// `Some(None)` when that JPEG cannot be encoded.
pub uninterp spec fn resized_jpeg_of_jpeg(data: Seq<u8>, size: u32, quality: u8) -> Option<Option<Seq<u8>>>;

/// `image::load_from_memory_with_format` with `ImageFormat::Jpeg`,
/// `DynamicImage::resize` with `FilterType::Lanczos3`, and
/// `JpegEncoder::new_with_quality(..).encode_image` into memory. Trusted: the
/// result is the named conversion of `data` at `size` and `quality`.
#[verifier::external_body]
fn resize_jpeg_to_jpeg(data: &[u8], size: u32, quality: u8) -> (r: Option<Option<Vec<u8>>>)
    ensures
        jpeg_view(r) == resized_jpeg_of_jpeg(data@, size, quality),
{
    let img = match image::load_from_memory_with_format(data, image::ImageFormat::Jpeg) {
        Ok(img) => img,
        Err(_) => return None,
    };
    let scaled = img.resize(size, size, image::imageops::FilterType::Lanczos3);
    let mut out: Vec<u8> = Vec::new();
    match image::codecs::jpeg::JpegEncoder::new_with_quality(&mut out, quality).encode_image(&scaled) {
        Ok(()) => Some(Some(out)),
        Err(_) => Some(None),
    }
}

/// The thumbnail made from the bytes of an existing full-size cover file.
/// The file's name ends in `.jpg`, so its bytes are read as a JPEG: `None`
/// when they cannot be, else the 256-pixel JPEG at quality 75 (`Some(None)`
/// when it cannot be encoded).
pub fn cover_thumbnail(data: &[u8]) -> (r: Option<Option<Vec<u8>>>)
    ensures
        jpeg_view(r) == resized_jpeg_of_jpeg(data@, THUMB_COVER_PIXELS, THUMB_COVER_QUALITY),
{
    resize_jpeg_to_jpeg(data, THUMB_COVER_PIXELS, THUMB_COVER_QUALITY)
}

} // verus!
