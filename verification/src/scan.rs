//! Decisions of a library scan: which files are audio, how a track is
//! identified, which files must be read again, and when progress is reported.

use vstd::prelude::*;
use crate::text::{owned, push_char, str_eq, to_lowercase};
use vstd::string::StringSliceAdditionalSpecFns;

verus! {

/// The BLAKE3 hash of `data` (32 bytes).
pub uninterp spec fn blake3_digest(data: Seq<u8>) -> Seq<u8>;

/// `blake3::hash`. Trusted: the 32 bytes returned are the named BLAKE3 digest
/// of `data`.
#[verifier::external_body]
fn blake3_hash(data: &[u8]) -> (r: [u8; 32])
    ensures
        r@ == blake3_digest(data@),
{
    *blake3::hash(data).as_bytes()
}

/// The lowercase hexadecimal digit for `n` (0 through 15).
pub open spec fn hex_digit(n: int) -> char {
    if n < 10 {
        crate::text::digit_char(n)
    } else if n == 10 {
        'a'
    } else if n == 11 {
        'b'
    } else if n == 12 {
        'c'
    } else if n == 13 {
        'd'
    } else if n == 14 {
        'e'
    } else {
        'f'
    }
}

/// Lowercase hexadecimal text of the bytes, two digits per byte, high half first.
pub open spec fn hex_lower(b: Seq<u8>) -> Seq<char>
    decreases b.len(),
{
    if b.len() == 0 {
        Seq::empty()
    } else {
        hex_lower(b.drop_last()) + seq![hex_digit(b.last() as int / 16), hex_digit(b.last() as int % 16)]
    }
}

proof fn lemma_hex_len(b: Seq<u8>)
    ensures
        hex_lower(b).len() == 2 * b.len(),
    decreases b.len(),
{
    if b.len() > 0 {
        lemma_hex_len(b.drop_last());
    }
}

fn hex_char(n: u8) -> (c: char)
    requires
        n < 16,
    ensures
        c == hex_digit(n as int),
{
    if n < 10 {
        let d: u64 = n as u64;
        if d == 0 { '0' }
        else if d == 1 { '1' }
        else if d == 2 { '2' }
        else if d == 3 { '3' }
        else if d == 4 { '4' }
        else if d == 5 { '5' }
        else if d == 6 { '6' }
        else if d == 7 { '7' }
        else if d == 8 { '8' }
        else { '9' }
    } else if n == 10 {
        'a'
    } else if n == 11 {
        'b'
    } else if n == 12 {
        'c'
    } else if n == 13 {
        'd'
    } else if n == 14 {
        'e'
    } else {
        'f'
    }
}

/// Lowercase hexadecimal text of the bytes (as `blake3::Hash::to_hex` writes it).
pub fn to_hex_lower(b: &[u8]) -> (r: String)
    ensures
        r@ == hex_lower(b@),
        r@.len() == 2 * b@.len(),
{
    let mut s = String::new();
    let mut i: usize = 0;
    while i < b.len()
        invariant
            i <= b@.len(),
            s@ == hex_lower(b@.subrange(0, i as int)),
        decreases b.len() - i,
    {
        let x = b[i];
        assert(b@.subrange(0, i + 1).drop_last() == b@.subrange(0, i as int));
        push_char(&mut s, hex_char(x / 16));
        push_char(&mut s, hex_char(x % 16));
        i = i + 1;
    }
    assert(b@.subrange(0, b@.len() as int) == b@);
    proof {
        lemma_hex_len(b@);
    }
    s
}

/// The id of the track stored at `path`: the BLAKE3 hash of the path's UTF-8
/// bytes, as 64 lowercase hexadecimal digits.
pub fn generate_track_id(path: &str) -> (r: String)
    ensures
        r@ == hex_lower(blake3_digest(path.spec_bytes())),
        r@.len() == 64,
{
    let digest = blake3_hash(path.as_bytes());
    to_hex_lower(&digest)
}

/// The file extensions, in lowercase, that the scanner treats as audio.
pub open spec fn audio_extensions() -> Seq<Seq<char>> {
    seq!["mp3"@, "m4a"@, "aac"@, "flac"@, "ogg"@, "opus"@, "wav"@]
}

/// Whether a file with this extension is audio: its lowercase form is one of
/// the audio extensions. Files without an extension are not.
pub fn is_audio_extension(ext: Option<&str>) -> (r: bool)
    ensures
        r == match ext {
            Some(e) => audio_extensions().contains(crate::text::lowercase(e@)),
            None => false,
        },
{
    match ext {
        Some(e) => {
            let lower = to_lowercase(e);
            let l = lower.as_str();
            let ghost exts = audio_extensions();
            let r = str_eq(l, "mp3") || str_eq(l, "m4a") || str_eq(l, "aac") || str_eq(l, "flac")
                || str_eq(l, "ogg") || str_eq(l, "opus") || str_eq(l, "wav");
            proof {
                if r {
                    if l@ == "mp3"@ { assert(exts[0] == l@); }
                    else if l@ == "m4a"@ { assert(exts[1] == l@); }
                    else if l@ == "aac"@ { assert(exts[2] == l@); }
                    else if l@ == "flac"@ { assert(exts[3] == l@); }
                    else if l@ == "ogg"@ { assert(exts[4] == l@); }
                    else if l@ == "opus"@ { assert(exts[5] == l@); }
                    else { assert(exts[6] == l@); }
                } else if exts.contains(l@) {
                    let k = choose|k: int| 0 <= k < exts.len() && exts[k] == l@;
                    assert(k == 0 || k == 1 || k == 2 || k == 3 || k == 4 || k == 5 || k == 6);
                }
            }
            r
        },
        None => false,
    }
}

/// Whether a file must be read again: when no stored modification time is
/// known for its track, when the file's time differs from the stored one,
/// or when no tempo is stored for the track.
pub fn needs_rescan(file_mtime: i64, stored_mtime: Option<i64>, has_bpm: bool) -> (r: bool)
    ensures
        r == match stored_mtime {
            Some(m) => m != file_mtime || !has_bpm,
            None => true,
        },
{
    match stored_mtime {
        Some(m) => if file_mtime != m {
            true
        } else {
            !has_bpm
        },
        None => true,
    }
}

/// Whether to report progress after `count` of `total` files: every 50
/// files and after the last one.
pub fn should_report_progress(count: usize, total: usize) -> (r: bool)
    ensures
        r == (count % 50 == 0 || count == total),
{
    count % 50 == 0 || count == total
}

/// The title recorded for a track: its tag title, or the file name without
/// extension when the tag has none (empty when that is unknown too).
pub fn title_or_stem(title: String, stem: Option<&str>) -> (r: String)
    ensures
        r@ == (if title@.len() > 0 {
            title@
        } else {
            match stem {
                Some(s) => s@,
                None => Seq::empty(),
            }
        }),
{
    if title.as_str().is_empty() {
        match stem {
            Some(s) => owned(s),
            None => String::new(),
        }
    } else {
        title
    }
}

} // verus!
