//! Bookkeeping of track analysis (tempo, beat grid, key, loudness). The
//! analysis itself works on floating-point samples and is done by the caller.

use vstd::prelude::*;

verus! {

/// Current analysis algorithm version; raising it makes existing tracks be
/// analysed again.
pub const ANALYSIS_VERSION: i32 = 3;

/// Samples decoded for analysis at most: five minutes at 44.1 kHz.
pub const ANALYSIS_SAMPLE_CAP: usize = 13_230_000;

/// Whether a decoded track is long enough for tempo and key analysis: at
/// least two seconds of samples.
pub fn long_enough_for_analysis(sample_count: usize, sample_rate: u32) -> (r: bool)
    ensures
        r == (sample_count >= 2 * sample_rate),
{
    let needed: u64 = 2 * (sample_rate as u64);
    (sample_count as u64) >= needed
}

/// The key name kept for a track: none when the analysis named none.
pub fn key_name(name: String) -> (r: Option<String>)
    ensures
        r == (if name@.len() == 0 { None } else { Some(name) }),
{
    if name.as_str().is_empty() {
        None
    } else {
        Some(name)
    }
}

} // verus!
