use std::io::Cursor;

use lightseek::covers::{cover_files, cover_thumbnail, CoverFiles};
use lightseek::frames::{read_stereo_frame, stereo_pair};
use lightseek::mixer::{MixerState, UNITY_GAIN_BITS};

fn png_bytes(width: u32, height: u32) -> Vec<u8> {
    let img = image::DynamicImage::ImageRgb8(image::RgbImage::from_pixel(width, height, image::Rgb([200, 30, 90])));
    let mut out: Vec<u8> = Vec::new();
    img.write_to(&mut Cursor::new(&mut out), image::ImageFormat::Png).unwrap();
    out
}

#[test]
fn readable_picture_gives_two_jpegs() {
    let data = png_bytes(1000, 500);
    match cover_files(&data) {
        CoverFiles::Resized { full, thumb } => {
            let full = full.expect("full-size JPEG");
            let thumb = thumb.expect("thumbnail JPEG");
            assert_eq!(&full[..2], &[0xFF, 0xD8]);
            assert_eq!(&thumb[..2], &[0xFF, 0xD8]);
            let f = image::load_from_memory(&full).unwrap();
            let t = image::load_from_memory(&thumb).unwrap();
            assert_eq!((f.width(), f.height()), (600, 300));
            assert_eq!((t.width(), t.height()), (256, 128));
        }
        CoverFiles::Raw(_) => panic!("a readable picture must be converted"),
    }
}

#[test]
fn unreadable_picture_is_kept_raw() {
    let data: Vec<u8> = vec![1, 2, 3, 4, 5, 6, 7, 8];
    match cover_files(&data) {
        CoverFiles::Raw(raw) => assert_eq!(raw, data),
        CoverFiles::Resized { .. } => panic!("garbage cannot be read as a picture"),
    }
    assert!(cover_thumbnail(&data).is_none());
}

fn jpeg_bytes(width: u32, height: u32) -> Vec<u8> {
    let img = image::DynamicImage::ImageRgb8(image::RgbImage::from_pixel(width, height, image::Rgb([20, 140, 60])));
    let mut out: Vec<u8> = Vec::new();
    img.write_to(&mut Cursor::new(&mut out), image::ImageFormat::Jpeg).unwrap();
    out
}

#[test]
fn thumbnail_from_existing_cover() {
    let thumb = cover_thumbnail(&jpeg_bytes(300, 600)).expect("readable").expect("encodable");
    let t = image::load_from_memory(&thumb).unwrap();
    assert_eq!((t.width(), t.height()), (128, 256));
}

#[test]
fn existing_cover_is_read_as_jpeg_only() {
    // The full-size file is named `.jpg`; other picture bytes in it do not decode.
    assert!(cover_thumbnail(&png_bytes(300, 600)).is_none());
}

#[test]
fn stereo_frames_from_ring_buffer() {
    let mut none: Option<rtrb::Consumer<i32>> = None;
    assert_eq!(read_stereo_frame(&mut none, 0), (0, 0));
    assert!(none.is_none());

    let (mut producer, consumer) = rtrb::RingBuffer::<i32>::new(8);
    producer.push(5).unwrap();
    producer.push(-5).unwrap();
    producer.push(7).unwrap();
    let mut some = Some(consumer);
    assert_eq!(read_stereo_frame(&mut some, 0), (5, -5));
    assert_eq!(read_stereo_frame(&mut some, 0), (7, 0));
    assert_eq!(read_stereo_frame(&mut some, 0), (0, 0));
    assert!(some.is_some());
}

#[test]
fn mixer_default_is_unity() {
    let m = MixerState::default();
    assert_eq!(m.master_volume.load_bits(std::sync::atomic::Ordering::Relaxed), UNITY_GAIN_BITS);
    assert_eq!(m.deck_a_gain.load_bits(std::sync::atomic::Ordering::Relaxed), UNITY_GAIN_BITS);
    assert_eq!(m.deck_b_gain.load_bits(std::sync::atomic::Ordering::Relaxed), UNITY_GAIN_BITS);
}

#[test]
fn stereo_pairs_keep_reading_order() {
    assert_eq!(stereo_pair(Some(1), Some(2), 0), (1, 2));
    assert_eq!(stereo_pair(Some(1), None, 0), (1, 0));
    assert_eq!(stereo_pair(None, Some(2), 9), (9, 2));
    assert_eq!(stereo_pair::<i32>(None, None, 9), (9, 9));
}
