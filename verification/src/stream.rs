//! Serving audio and cover files over the `stream://` scheme: the file path
//! carried by a request, the content type of a file, and the byte range that
//! a `Range` header asks for.

use vstd::prelude::*;
use crate::text::{chars_of, owned, push_char, push_decimal, str_eq};

verus! {

/// The text of `s` after percent-decoding it and decoding the resulting bytes
/// as UTF-8, invalid sequences replaced (`percent_encoding`'s
/// `percent_decode_str(..).decode_utf8_lossy()`).
pub uninterp spec fn percent_decoded(s: Seq<char>) -> Seq<char>;

/// Percent-decodes `s` with `percent_encoding::percent_decode_str` and decodes
/// the bytes with `decode_utf8_lossy`. Trusted: the result is the named
/// decoding of `s`, and a string without `%` comes back unchanged (its bytes
/// are copied one for one and are valid UTF-8).
#[verifier::external_body]
fn percent_decode_lossy(s: &str) -> (r: String)
    ensures
        r@ == percent_decoded(s@),
        !s@.contains('%') ==> r@ == s@,
{
    percent_encoding::percent_decode_str(s).decode_utf8_lossy().to_string()
}

/// The file path a request names: the percent-decoded URI path without one
/// leading `/`.
pub open spec fn stream_path_spec(uri_path: Seq<char>) -> Seq<char> {
    let d = percent_decoded(uri_path);
    if d.len() > 0 && d[0] == '/' { d.drop_first() } else { d }
}

/// The file path a `stream://` request names.
pub fn stream_file_path(uri_path: &str) -> (r: String)
    ensures
        r@ == stream_path_spec(uri_path@),
        !uri_path@.contains('%') ==> r@ == (if uri_path@.len() > 0 && uri_path@[0] == '/' {
            uri_path@.drop_first()
        } else {
            uri_path@
        }),
{
    let decoded = percent_decode_lossy(uri_path);
    let chars = chars_of(decoded.as_str());
    if chars.len() > 0 && chars[0] == '/' {
        let mut rest: Vec<char> = Vec::new();
        let mut i: usize = 1;
        while i < chars.len()
            invariant
                1 <= i <= chars.len(),
                rest@ == chars@.subrange(1, i as int),
            decreases chars.len() - i,
        {
            rest.push(chars[i]);
            assert(chars@.subrange(1, i + 1) == chars@.subrange(1, i as int).push(chars@[i as int]));
            i = i + 1;
        }
        assert(rest@ == chars@.drop_first());
        crate::text::string_of(&rest)
    } else {
        decoded
    }
}

/// The content type served for a file extension.
pub open spec fn mime_spec(ext: Seq<char>) -> Seq<char> {
    if ext == "mp3"@ {
        "audio/mpeg"@
    } else if ext == "m4a"@ || ext == "aac"@ {
        "audio/mp4"@
    } else if ext == "flac"@ {
        "audio/flac"@
    } else if ext == "ogg"@ || ext == "opus"@ {
        "audio/ogg"@
    } else if ext == "wav"@ {
        "audio/wav"@
    } else if ext == "jpg"@ || ext == "jpeg"@ {
        "image/jpeg"@
    } else if ext == "png"@ {
        "image/png"@
    } else {
        "application/octet-stream"@
    }
}

/// The content type served for a file with the given extension (empty when
/// the file has none).
pub fn mime_for_extension(ext: &str) -> (r: String)
    ensures
        r@ == mime_spec(ext@),
{
    if str_eq(ext, "mp3") {
        owned("audio/mpeg")
    } else if str_eq(ext, "m4a") || str_eq(ext, "aac") {
        owned("audio/mp4")
    } else if str_eq(ext, "flac") {
        owned("audio/flac")
    } else if str_eq(ext, "ogg") || str_eq(ext, "opus") {
        owned("audio/ogg")
    } else if str_eq(ext, "wav") {
        owned("audio/wav")
    } else if str_eq(ext, "jpg") || str_eq(ext, "jpeg") {
        owned("image/jpeg")
    } else if str_eq(ext, "png") {
        owned("image/png")
    } else {
        owned("application/octet-stream")
    }
}

/// The prefix that a `Range` header value starts with.
pub open spec fn bytes_prefix() -> Seq<char> {
    seq!['b', 'y', 't', 'e', 's', '=']
}

/// `s` with every leading copy of `p` removed (std `trim_start_matches`).
pub open spec fn trim_prefix_repeatedly(s: Seq<char>, p: Seq<char>) -> Seq<char>
    decreases s.len(),
{
    if p.len() > 0 && p.len() <= s.len() && s.subrange(0, p.len() as int) == p {
        trim_prefix_repeatedly(s.subrange(p.len() as int, s.len() as int), p)
    } else {
        s
    }
}

/// The text before the first `-` (all of `s` when there is none).
pub open spec fn first_field(s: Seq<char>) -> Seq<char>
    decreases s.len(),
{
    if s.len() == 0 {
        s
    } else if s[0] == '-' {
        Seq::empty()
    } else {
        seq![s[0]] + first_field(s.drop_first())
    }
}

/// The text after the first `-`, if there is one.
pub open spec fn after_dash(s: Seq<char>) -> Option<Seq<char>>
    decreases s.len(),
{
    if s.len() == 0 {
        None
    } else if s[0] == '-' {
        Some(s.drop_first())
    } else {
        after_dash(s.drop_first())
    }
}

pub open spec fn all_digits(s: Seq<char>) -> bool {
    forall|i: int| 0 <= i < s.len() ==> '0' <= #[trigger] s[i] <= '9'
}

/// The value of a string of decimal digits.
pub open spec fn digits_value(s: Seq<char>) -> int
    decreases s.len(),
{
    if s.len() == 0 {
        0
    } else {
        digits_value(s.drop_last()) * 10 + (s.last() as int - '0' as int)
    }
}

/// std's `u64::from_str`: an optional `+`, then at least one decimal digit,
/// with a value that fits in 64 bits.
pub open spec fn parse_u64_spec(s: Seq<char>) -> Option<u64> {
    let d = if s.len() > 0 && s[0] == '+' { s.drop_first() } else { s };
    if d.len() == 0 || !all_digits(d) || digits_value(d) > u64::MAX {
        None
    } else {
        Some(digits_value(d) as u64)
    }
}

/// The header value with its `bytes=` prefixes removed.
pub open spec fn range_text(v: Seq<char>) -> Seq<char> {
    trim_prefix_repeatedly(v, bytes_prefix())
}

/// The first byte asked for: the number before the dash, 0 when it does not parse.
pub open spec fn requested_start(v: Seq<char>) -> u64 {
    match parse_u64_spec(first_field(range_text(v))) {
        Some(x) => x,
        None => 0,
    }
}

/// The last byte asked for, when the header names one that parses.
pub open spec fn explicit_end(v: Seq<char>) -> Option<u64> {
    match after_dash(range_text(v)) {
        Some(rest) => if first_field(rest).len() > 0 {
            parse_u64_spec(first_field(rest))
        } else {
            None
        },
        None => None,
    }
}

/// The largest number of bytes served for one request (512 KiB).
pub open spec fn max_chunk() -> int {
    524288int
}

/// The last byte served: the one asked for (the end of the file when none is
/// named), capped to 512 KiB from the start and to the end of the file.
pub open spec fn served_end(v: Seq<char>, len: u64) -> int {
    let asked: int = match explicit_end(v) {
        Some(e) => e as int,
        None => len - 1,
    };
    let capped = if asked < requested_start(v) + max_chunk() - 1 {
        asked
    } else {
        requested_start(v) + max_chunk() - 1
    };
    if capped < len - 1 { capped } else { len - 1 }
}

/// The inputs on which the range arithmetic stays in range: a non-empty file,
/// a start that leaves room for the 512 KiB cap, and a start not after the
/// served end. Outside them the arithmetic of the range computation overflows.
pub open spec fn range_servable(v: Seq<char>, len: u64) -> bool {
    &&& len >= 1
    &&& requested_start(v) + max_chunk() - 1 <= u64::MAX
    &&& requested_start(v) <= served_end(v, len)
}

/// A range can be served exactly when the file is not empty, the requested
/// start lies in the file and leaves room for the 512 KiB cap, and a named
/// end is not before the start. A named end past the file, or past the cap,
/// does not stop a range from being served: the end served is cut to the
/// last byte of the file and to 512 KiB from the start, and otherwise is the
/// end named (or the file's last byte when none is named).
pub proof fn lemma_range_servable_when(v: Seq<char>, len: u64)
    ensures
        range_servable(v, len) == (len >= 1 && requested_start(v) <= len - 1
            && requested_start(v) + max_chunk() - 1 <= u64::MAX
            && match explicit_end(v) {
                Some(e) => requested_start(v) <= e,
                None => true,
            }),
        len >= 1 ==> served_end(v, len) <= len - 1,
        len >= 1 ==> served_end(v, len) <= requested_start(v) + max_chunk() - 1,
        len >= 1 ==> (match explicit_end(v) {
            Some(e) => served_end(v, len) <= e && (served_end(v, len) == e
                || served_end(v, len) == len - 1 || served_end(v, len) == requested_start(v) + max_chunk() - 1),
            None => served_end(v, len) == len - 1 || served_end(v, len) == requested_start(v) + max_chunk() - 1,
        }),
{
}

/// A byte range to serve: first and last byte, and how many bytes that is.
#[derive(Clone, Copy, Debug, PartialEq, Eq, Structural)]
pub struct ByteRange {
    pub start: u64,
    pub end: u64,
    pub chunk_len: u64,
}

proof fn lemma_fields(s: Seq<char>, k: int)
    requires
        0 <= k <= s.len(),
        forall|i: int| 0 <= i < k ==> s[i] != '-',
        k == s.len() || s[k] == '-',
    ensures
        first_field(s) == s.subrange(0, k),
        after_dash(s) == (if k < s.len() { Some(s.subrange(k + 1, s.len() as int)) } else { None::<Seq<char>> }),
    decreases k,
{
    if k == 0 {
        if s.len() == 0 {
            assert(s.subrange(0, 0) == s);
        } else {
            assert(s.subrange(0, 0) == Seq::<char>::empty());
            assert(s.subrange(1, s.len() as int) == s.drop_first());
        }
    } else {
        let t = s.drop_first();
        assert forall|i: int| 0 <= i < k - 1 implies t[i] != '-' by {
            assert(t[i] == s[i + 1]);
        }
        lemma_fields(t, k - 1);
        assert(t.subrange(0, k - 1) == s.subrange(1, k));
        assert(s.subrange(0, k) == seq![s[0]] + s.subrange(1, k));
        if k < s.len() {
            assert(t.subrange(k, t.len() as int) == s.subrange(k + 1, s.len() as int));
        }
    }
}

proof fn lemma_digits_prefix_bound(s: Seq<char>, k: int)
    requires
        all_digits(s),
        0 <= k <= s.len(),
    ensures
        digits_value(s) >= digits_value(s.subrange(0, k)),
        digits_value(s) >= 0,
    decreases s.len(),
{
    if s.len() == 0 {
        assert(s.subrange(0, k) == s);
    } else if k == s.len() {
        assert(s.subrange(0, k) == s);
        lemma_digits_prefix_bound(s.drop_last(), 0);
    } else {
        let t = s.drop_last();
        assert forall|i: int| 0 <= i < t.len() implies '0' <= #[trigger] t[i] <= '9' by {
            assert(t[i] == s[i]);
        }
        lemma_digits_prefix_bound(t, k);
        assert(t.subrange(0, k) == s.subrange(0, k));
        assert('0' <= s[s.len() - 1] <= '9');
    }
}

/// Parses `c[lo..hi]` the way `u64::from_str` does.
fn parse_u64_at(c: &Vec<char>, lo: usize, hi: usize) -> (r: Option<u64>)
    requires
        lo <= hi <= c.len(),
    ensures
        r == parse_u64_spec(c@.subrange(lo as int, hi as int)),
{
    let ghost s = c@.subrange(lo as int, hi as int);
    let mut i = lo;
    if i < hi && c[i] == '+' {
        i = i + 1;
    }
    let start = i;
    let ghost d = c@.subrange(start as int, hi as int);
    assert(d == (if s.len() > 0 && s[0] == '+' { s.drop_first() } else { s }));
    if i == hi {
        return None;
    }
    let mut acc: u64 = 0;
    while i < hi
        invariant
            lo <= start <= i <= hi <= c.len(),
            d == c@.subrange(start as int, hi as int),
            s == c@.subrange(lo as int, hi as int),
            d == (if s.len() > 0 && s[0] == '+' { s.drop_first() } else { s }),
            all_digits(c@.subrange(start as int, i as int)),
            acc == digits_value(c@.subrange(start as int, i as int)),
        decreases hi - i,
    {
        let ch = c[i];
        assert(c@.subrange(start as int, i as int + 1).drop_last() == c@.subrange(start as int, i as int));
        assert(d[i - start] == ch);
        if !('0' <= ch && ch <= '9') {
            assert(!all_digits(d));
            return None;
        }
        let v: u64 = (ch as u32 - '0' as u32) as u64;
        assert(v as int == ch as int - '0' as int);
        if acc > (u64::MAX - v) / 10 {
            assert(digits_value(c@.subrange(start as int, i as int + 1)) > u64::MAX);
            proof {
                if all_digits(d) {
                    lemma_digits_prefix_bound(d, i + 1 - start);
                    assert(d.subrange(0, i + 1 - start) == c@.subrange(start as int, i as int + 1));
                }
            }
            return None;
        }
        acc = acc * 10 + v;
        assert forall|j: int| 0 <= j < i + 1 - start implies '0' <= #[trigger] c@.subrange(start as int, i as int + 1)[j] <= '9' by {
            if j < i - start {
                assert(c@.subrange(start as int, i as int + 1)[j] == c@.subrange(start as int, i as int)[j]);
            }
        }
        i = i + 1;
    }
    assert(c@.subrange(start as int, i as int) == d);
    Some(acc)
}

/// The position after the leading `bytes=` prefixes of `c`.
fn skip_prefixes(c: &Vec<char>) -> (pos: usize)
    ensures
        pos <= c.len(),
        range_text(c@) == c@.subrange(pos as int, c.len() as int),
{
    let n = c.len();
    let mut pos: usize = 0;
    assert(c@.subrange(0, n as int) == c@);
    loop
        invariant
            n == c.len(),
            pos <= n,
            range_text(c@) == trim_prefix_repeatedly(c@.subrange(pos as int, n as int), bytes_prefix()),
        decreases n - pos,
    {
        let ghost rest = c@.subrange(pos as int, n as int);
        if n - pos >= 6 && c[pos] == 'b' && c[pos + 1] == 'y' && c[pos + 2] == 't' && c[pos + 3] == 'e'
            && c[pos + 4] == 's' && c[pos + 5] == '=' {
            assert(rest.subrange(0, 6) == bytes_prefix());
            assert(rest.subrange(6, rest.len() as int) == c@.subrange(pos + 6, n as int));
            pos = pos + 6;
        } else {
            proof {
                if 6 <= rest.len() && rest.subrange(0, 6) == bytes_prefix() {
                    assert(rest.subrange(0, 6)[0] == c@[pos as int]);
                    assert(rest.subrange(0, 6)[1] == c@[pos + 1]);
                    assert(rest.subrange(0, 6)[2] == c@[pos + 2]);
                    assert(rest.subrange(0, 6)[3] == c@[pos + 3]);
                    assert(rest.subrange(0, 6)[4] == c@[pos + 4]);
                    assert(rest.subrange(0, 6)[5] == c@[pos + 5]);
                }
            }
            return pos;
        }
    }
}

/// The first index at or after `from` holding `-` (or the length).
fn find_dash(c: &Vec<char>, from: usize) -> (k: usize)
    requires
        from <= c.len(),
    ensures
        from <= k <= c.len(),
        forall|i: int| from <= i < k ==> c@[i] != '-',
        k == c.len() || c@[k as int] == '-',
{
    let mut k = from;
    while k < c.len() && c[k] != '-'
        invariant
            from <= k <= c.len(),
            forall|i: int| from <= i < k ==> c@[i] != '-',
        decreases c.len() - k,
    {
        k = k + 1;
    }
    k
}

/// The requested start and, when named and parseable, the requested end.
fn requested_bounds(range_val: &str) -> (r: (u64, Option<u64>))
    ensures
        r.0 == requested_start(range_val@),
        r.1 == explicit_end(range_val@),
{
    let c = chars_of(range_val);
    let n = c.len();
    let pos = skip_prefixes(&c);
    let ghost t = c@.subrange(pos as int, n as int);
    let k = find_dash(&c, pos);
    proof {
        assert forall|i: int| 0 <= i < k - pos implies t[i] != '-' by {
            assert(t[i] == c@[pos + i]);
        }
        lemma_fields(t, k - pos);
        assert(t.subrange(0, k - pos) == c@.subrange(pos as int, k as int));
    }
    let start = match parse_u64_at(&c, pos, k) {
        Some(x) => x,
        None => 0,
    };
    if k == n {
        return (start, None);
    }
    let k2 = find_dash(&c, k + 1);
    let ghost rest = t.subrange(k - pos + 1, t.len() as int);
    proof {
        assert(rest == c@.subrange(k + 1, n as int));
        assert forall|i: int| 0 <= i < k2 - (k + 1) implies rest[i] != '-' by {
            assert(rest[i] == c@[k + 1 + i]);
        }
        lemma_fields(rest, k2 - (k + 1));
        assert(rest.subrange(0, k2 - (k + 1)) == c@.subrange(k + 1, k2 as int));
    }
    if k2 == k + 1 {
        return (start, None);
    }
    (start, parse_u64_at(&c, k + 1, k2))
}

/// Whether a `Range` header value can be served for a file of `len` bytes
/// (see `range_servable`).
pub fn range_is_servable(range_val: &str, len: u64) -> (r: bool)
    ensures
        r == range_servable(range_val@, len),
{
    if len == 0 {
        return false;
    }
    let (start, explicit) = requested_bounds(range_val);
    if start > u64::MAX - (512 * 1024 - 1) {
        return false;
    }
    let asked = match explicit {
        Some(e) => e,
        None => len - 1,
    };
    let capped = if asked < start + (512 * 1024 - 1) { asked } else { start + (512 * 1024 - 1) };
    let end = if capped < len - 1 { capped } else { len - 1 };
    start <= end
}

/// The byte range served for a `Range` header value on a file of `len` bytes.
pub fn parse_range(range_val: &str, len: u64) -> (r: ByteRange)
    requires
        range_servable(range_val@, len),
    ensures
        r.start == requested_start(range_val@),
        r.end == served_end(range_val@, len),
        r.chunk_len == r.end - r.start + 1,
        r.chunk_len <= max_chunk(),
{
    let (start, explicit) = requested_bounds(range_val);
    let asked = match explicit {
        Some(e) => e,
        None => len - 1,
    };
    let capped = if asked < start + (512 * 1024 - 1) { asked } else { start + (512 * 1024 - 1) };
    let end = if capped < len - 1 { capped } else { len - 1 };
    ByteRange { start, end, chunk_len: end - start + 1 }
}

/// The `Content-Range` value for a served range: `bytes START-END/LEN`.
pub open spec fn content_range_spec(start: u64, end: u64, len: u64) -> Seq<char> {
    seq!['b', 'y', 't', 'e', 's', ' '] + crate::text::decimal(start as nat) + seq!['-'] + crate::text::decimal(end as nat)
        + seq!['/'] + crate::text::decimal(len as nat)
}

/// The `Content-Range` header value for a served range.
pub fn content_range(start: u64, end: u64, len: u64) -> (r: String)
    ensures
        r@ == content_range_spec(start, end, len),
{
    let mut s = String::new();
    push_char(&mut s, 'b');
    push_char(&mut s, 'y');
    push_char(&mut s, 't');
    push_char(&mut s, 'e');
    push_char(&mut s, 's');
    push_char(&mut s, ' ');
    push_decimal(&mut s, start);
    push_char(&mut s, '-');
    push_decimal(&mut s, end);
    push_char(&mut s, '/');
    push_decimal(&mut s, len);
    s
}

} // verus!
