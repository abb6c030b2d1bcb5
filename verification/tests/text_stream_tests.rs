use lightseek::stream::{content_range, mime_for_extension, parse_range, range_is_servable, stream_file_path, ByteRange};
use lightseek::text::{chars_of, contains_str, owned, str_eq, string_of, u64_to_decimal};

#[test]
fn decimal_text() {
    assert_eq!(u64_to_decimal(0), "0");
    assert_eq!(u64_to_decimal(7), "7");
    assert_eq!(u64_to_decimal(1234567890), "1234567890");
    assert_eq!(u64_to_decimal(u64::MAX), "18446744073709551615");
}

#[test]
fn string_helpers() {
    assert!(str_eq("abc", "abc"));
    assert!(!str_eq("abc", "abd"));
    assert!(!str_eq("abc", "ab"));
    assert_eq!(chars_of("héllo"), vec!['h', 'é', 'l', 'l', 'o']);
    assert_eq!(string_of(&vec!['x', 'ÿ']), "xÿ");
    assert_eq!(owned("q"), "q");
    assert!(contains_str("the beatles", "beat"));
    assert!(contains_str("abc", ""));
    assert!(!contains_str("abc", "abcd"));
    assert!(!contains_str("abc", "ac"));
}

#[test]
fn stream_path_decoding() {
    assert_eq!(stream_file_path("/Users/me/My%20Music/a.mp3"), "Users/me/My Music/a.mp3");
    assert_eq!(stream_file_path("/plain/path.flac"), "plain/path.flac");
    assert_eq!(stream_file_path("relative.ogg"), "relative.ogg");
    assert_eq!(stream_file_path("/%C3%A9t%C3%A9.wav"), "été.wav");
    assert_eq!(stream_file_path("//double"), "/double");
}

#[test]
fn mime_types() {
    assert_eq!(mime_for_extension("mp3"), "audio/mpeg");
    assert_eq!(mime_for_extension("m4a"), "audio/mp4");
    assert_eq!(mime_for_extension("aac"), "audio/mp4");
    assert_eq!(mime_for_extension("flac"), "audio/flac");
    assert_eq!(mime_for_extension("ogg"), "audio/ogg");
    assert_eq!(mime_for_extension("opus"), "audio/ogg");
    assert_eq!(mime_for_extension("wav"), "audio/wav");
    assert_eq!(mime_for_extension("jpg"), "image/jpeg");
    assert_eq!(mime_for_extension("jpeg"), "image/jpeg");
    assert_eq!(mime_for_extension("png"), "image/png");
    assert_eq!(mime_for_extension("MP3"), "application/octet-stream");
    assert_eq!(mime_for_extension(""), "application/octet-stream");
}

#[test]
fn ranges_open_and_closed() {
    let len = 10_000_000u64;
    assert!(range_is_servable("bytes=0-", len));
    assert_eq!(parse_range("bytes=0-", len), ByteRange { start: 0, end: 524_287, chunk_len: 524_288 });
    assert_eq!(parse_range("bytes=100-199", len), ByteRange { start: 100, end: 199, chunk_len: 100 });
    assert_eq!(parse_range("bytes=9999990-", len), ByteRange { start: 9_999_990, end: 9_999_999, chunk_len: 10 });
    assert_eq!(parse_range("bytes=5-5", len), ByteRange { start: 5, end: 5, chunk_len: 1 });
}

#[test]
fn ranges_odd_forms() {
    let len = 1000u64;
    // Unparseable start counts as 0, unparseable end as the end of the file.
    assert_eq!(parse_range("bytes=x-10", len), ByteRange { start: 0, end: 10, chunk_len: 11 });
    assert_eq!(parse_range("bytes=10-zz", len), ByteRange { start: 10, end: 999, chunk_len: 990 });
    // Every leading "bytes=" is removed; a "+" sign is accepted.
    assert_eq!(parse_range("bytes=bytes=+3-4", len), ByteRange { start: 3, end: 4, chunk_len: 2 });
    // No dash at all: the whole value is the start.
    assert_eq!(parse_range("bytes=7", len), ByteRange { start: 7, end: 999, chunk_len: 993 });
    // A third field is ignored.
    assert_eq!(parse_range("bytes=1-2-3", len), ByteRange { start: 1, end: 2, chunk_len: 2 });
    // End past the file is cut to the last byte.
    assert_eq!(parse_range("bytes=0-5000", len), ByteRange { start: 0, end: 999, chunk_len: 1000 });
}

#[test]
fn ranges_that_cannot_be_served() {
    assert!(!range_is_servable("bytes=0-", 0));
    assert!(!range_is_servable("bytes=500-", 100));
    assert!(!range_is_servable("bytes=50-10", 100));
    assert!(!range_is_servable("bytes=18446744073709551615-", 100));
    assert!(range_is_servable("bytes=99-", 100));
}

#[test]
fn content_range_header() {
    assert_eq!(content_range(0, 99, 1000), "bytes 0-99/1000");
    assert_eq!(content_range(5, 5, 6), "bytes 5-5/6");
}
