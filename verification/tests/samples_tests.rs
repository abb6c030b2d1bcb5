use lightseek::fft::{bit_reverse_8, bit_reverse_permute, bit_reverse_table};
use lightseek::frames::{decode_audio, deinterleave, fill_frame, interleave, stereo_frames, SampleBuffer};
use lightseek::mixer::{set_visualization_active, MixerState, UNITY_GAIN_BITS};
use lightseek::waveform::{bar_bounds, flat_waveform, floor_bar, waveform_from_levels, MIN_BAR, NUM_BARS};
use std::sync::atomic::{AtomicBool, Ordering};

#[test]
fn flat_and_floored_waveforms() {
    let f = flat_waveform();
    assert_eq!(f.len(), NUM_BARS);
    assert!(f.iter().all(|&b| b == MIN_BAR));
    assert_eq!(floor_bar(0), 10);
    assert_eq!(floor_bar(9), 10);
    assert_eq!(floor_bar(10), 10);
    assert_eq!(floor_bar(255), 255);
    assert_eq!(waveform_from_levels(&vec![0, 200, 10, 11]), vec![10, 200, 10, 11]);
}

#[test]
fn bar_ranges() {
    assert!(bar_bounds(0).is_none());
    assert!(bar_bounds(127).is_none());
    let b = bar_bounds(128).unwrap();
    assert_eq!(b.len(), 128);
    assert_eq!(b[0], (0, 1));
    assert_eq!(b[127], (127, 128));
    let b = bar_bounds(1000).unwrap();
    assert_eq!(b[0], (0, 7));
    assert_eq!(b[1], (7, 14));
    assert_eq!(b[126], (882, 889));
    assert_eq!(b[127], (889, 1000));
    for i in 0..127 {
        assert_eq!(b[i].1, b[i + 1].0);
    }
}

#[test]
fn bit_reversal() {
    assert_eq!(bit_reverse_8(0b0000_0001), 0b1000_0000);
    assert_eq!(bit_reverse_8(0b1100_1010), 0b0101_0011);
    let t = bit_reverse_table();
    for i in 0..256usize {
        assert_eq!(t[i], ((i as u32).reverse_bits() >> 24) as u8);
        assert_eq!(bit_reverse_8(bit_reverse_8(i as u8)), i as u8);
    }
    let mut re: Vec<f32> = (0..256).map(|i| i as f32).collect();
    let mut im: Vec<f32> = (0..256).map(|i| -(i as f32)).collect();
    bit_reverse_permute(&mut re, &mut im);
    for i in 0..256usize {
        assert_eq!(re[i], t[i] as f32);
        assert_eq!(im[i], -(t[i] as f32));
    }
}

#[test]
fn stereo_framing() {
    let s = [1.0f32, 2.0, 3.0, 4.0, 5.0, 6.0, 7.0];
    assert_eq!(stereo_frames(&s, 2), vec![1.0, 2.0, 3.0, 4.0, 5.0, 6.0]);
    assert_eq!(stereo_frames(&s, 3), vec![1.0, 2.0, 4.0, 5.0]);
    assert_eq!(stereo_frames(&s[..2], 1), vec![1.0, 1.0, 2.0, 2.0]);
    assert_eq!(stereo_frames(&s[..2], 0), vec![1.0, 1.0, 2.0, 2.0]);
    assert!(stereo_frames::<f32>(&[], 2).is_empty());
}

#[test]
fn channel_split_and_join() {
    let x = [1, 2, 3, 4, 5, 6, 7];
    let d = deinterleave(&x, 2);
    assert_eq!(d, vec![vec![1, 3, 5], vec![2, 4, 6]]);
    assert_eq!(interleave(&d, 3), vec![1, 2, 3, 4, 5, 6]);
    let d3 = deinterleave(&x, 3);
    assert_eq!(d3, vec![vec![1, 4], vec![2, 5], vec![3, 6]]);
    assert_eq!(interleave(&d3, 2), vec![1, 2, 3, 4, 5, 6]);
    assert_eq!(interleave(&d3, 1), vec![1, 2, 3]);
}

#[test]
fn device_frames() {
    let mut f = [9.0f32; 4];
    fill_frame(&mut f, 0.5, -0.5, 0.0);
    assert_eq!(f, [0.5, -0.5, 0.0, 0.0]);
    let mut one = [9.0f32; 1];
    fill_frame(&mut one, 0.5, -0.5, 0.0);
    assert_eq!(one, [0.5]);
}

#[test]
fn sample_windows() {
    let mut b: SampleBuffer<f32> = SampleBuffer::new(16);
    assert!(b.next_window(1).is_none());
    b.push(&[1.0, 2.0, 3.0]);
    assert_eq!(b.next_window(2), Some(vec![1.0, 2.0]));
    assert!(b.next_window(2).is_none());
    b.push(&[4.0]);
    assert_eq!(b.next_window(2), Some(vec![3.0, 4.0]));
    assert_eq!(b.next_window(0), Some(vec![]));
    assert!(b.next_window(1).is_none());
}

#[test]
fn archived_decoder_reports_missing() {
    let r = decode_audio::<f32>("x.mp3");
    assert_eq!(r.unwrap_err(), "Archived placeholder: audio decoding API not implemented");
}

#[test]
fn mixer_starts_at_unity() {
    let m = MixerState::new();
    assert_eq!(m.master_volume.load_bits(Ordering::Relaxed), UNITY_GAIN_BITS);
    assert_eq!(f32::from_bits(m.deck_a_gain.load_bits(Ordering::Relaxed)), 1.0);
    assert_eq!(f32::from_bits(m.deck_b_gain.load_bits(Ordering::Relaxed)), 1.0);
    m.master_volume.store_bits(0.5f32.to_bits(), Ordering::Relaxed);
    assert_eq!(f32::from_bits(m.master_volume.load_bits(Ordering::Relaxed)), 0.5);
    let flag = AtomicBool::new(false);
    set_visualization_active(&flag, true);
    assert!(flag.load(Ordering::Relaxed));
    set_visualization_active(&flag, false);
    assert!(!flag.load(Ordering::Relaxed));
}
