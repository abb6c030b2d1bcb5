use lightseek::analysis::{key_name, long_enough_for_analysis, ANALYSIS_SAMPLE_CAP, ANALYSIS_VERSION};

#[test]
fn analysis_needs_two_seconds() {
    assert!(!long_enough_for_analysis(0, 44100));
    assert!(!long_enough_for_analysis(88199, 44100));
    assert!(long_enough_for_analysis(88200, 44100));
    assert!(long_enough_for_analysis(ANALYSIS_SAMPLE_CAP, 44100));
    assert!(long_enough_for_analysis(0, 0));
    assert!(!long_enough_for_analysis(usize::MAX / 2, u32::MAX) || usize::MAX as u64 / 2 >= 2 * u32::MAX as u64);
}

#[test]
fn analysis_constants() {
    assert_eq!(ANALYSIS_VERSION, 3);
    assert_eq!(ANALYSIS_SAMPLE_CAP, 44100 * 300);
}

#[test]
fn key_names() {
    assert_eq!(key_name(String::new()), None);
    assert_eq!(key_name("A minor".to_string()), Some("A minor".to_string()));
}
