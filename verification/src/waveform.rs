//! The 128-bar overview waveform: how the samples are split into bars and
//! the floor every bar is raised to. The loudness of each bar is measured by
//! the caller.

use vstd::prelude::*;

verus! {

/// Bars in a waveform.
pub const NUM_BARS: usize = 128;

/// The lowest height a bar is drawn with.
pub const MIN_BAR: u8 = 10;

/// The waveform of silence or of too few samples: every bar at the floor.
pub fn flat_waveform() -> (r: Vec<u8>)
    ensures
        r@.len() == NUM_BARS,
        forall|i: int| 0 <= i < r@.len() ==> r@[i] == MIN_BAR,
{
    let mut v: Vec<u8> = Vec::new();
    let mut i: usize = 0;
    while i < NUM_BARS
        invariant
            i <= NUM_BARS,
            v@.len() == i,
            forall|j: int| 0 <= j < i ==> v@[j] == MIN_BAR,
        decreases NUM_BARS - i,
    {
        v.push(MIN_BAR);
        i = i + 1;
    }
    v
}

/// Samples per bar (all but the last bar; the last one takes the rest).
pub open spec fn bar_width(total: int) -> int {
    total / 128
}

/// The first sample of bar `i`.
pub open spec fn bar_start(total: int, i: int) -> int {
    i * bar_width(total)
}

/// One past the last sample of bar `i`: the next bar's start, or the end of
/// the samples for the last bar.
pub open spec fn bar_end(total: int, i: int) -> int {
    if i == 127 { total } else { (i + 1) * bar_width(total) }
}

proof fn lemma_bar_arith(total: int, i: int)
    requires
        total >= 0,
        0 <= i < 128,
    ensures
        0 <= bar_start(total, i) <= bar_start(total, i) + bar_width(total) <= total,
        (i + 1) * bar_width(total) == bar_start(total, i) + bar_width(total),
        i < 127 ==> (i + 1) * bar_width(total) + bar_width(total) <= total,
{
    let b = total / 128;
    assert(0 <= b);
    assert(128 * b <= total) by (nonlinear_arith)
        requires b == total / 128, total >= 0;
    assert(i * b + b == (i + 1) * b) by (nonlinear_arith);
    assert((i + 1) * b <= 128 * b) by (nonlinear_arith)
        requires 0 <= i < 128, b >= 0;
    assert(0 <= i * b) by (nonlinear_arith)
        requires 0 <= i, b >= 0;
    if i < 127 {
        assert((i + 2) * b <= 128 * b) by (nonlinear_arith)
            requires 0 <= i < 127, b >= 0;
        assert((i + 1) * b + b == (i + 2) * b) by (nonlinear_arith);
    }
}

/// The sample ranges [start, end) of the bars, or none when there are fewer
/// samples than bars (the waveform is then flat).
pub fn bar_bounds(total: usize) -> (r: Option<Vec<(usize, usize)>>)
    ensures
        match r {
            None => total / 128 == 0,
            Some(v) => total / 128 > 0 && v@.len() == NUM_BARS && forall|i: int| 0 <= i < 128
                ==> (#[trigger] v@[i]).0 == bar_start(total as int, i) && v@[i].1 == bar_end(total as int, i),
        },
{
    let width = total / NUM_BARS;
    if width == 0 {
        return None;
    }
    let mut v: Vec<(usize, usize)> = Vec::new();
    let mut start: usize = 0;
    let mut i: usize = 0;
    while i < NUM_BARS
        invariant
            width == total / 128,
            width > 0,
            i <= NUM_BARS,
            v@.len() == i,
            i < 128 ==> start == bar_start(total as int, i as int),
            forall|j: int| 0 <= j < i ==> (#[trigger] v@[j]).0 == bar_start(total as int, j)
                && v@[j].1 == bar_end(total as int, j),
        decreases NUM_BARS - i,
    {
        proof {
            lemma_bar_arith(total as int, i as int);
        }
        let end = if i == NUM_BARS - 1 { total } else { start + width };
        v.push((start, end));
        start = end;
        i = i + 1;
    }
    Some(v)
}

/// Bars tile the samples: the first starts at 0, each ends where the next
/// starts, the last ends at the final sample, and none is empty.
pub proof fn lemma_bars_tile(total: int)
    requires
        total / 128 > 0,
    ensures
        bar_start(total, 0) == 0,
        bar_end(total, 127) == total,
        forall|i: int| 0 <= i < 127 ==> #[trigger] bar_end(total, i) == bar_start(total, i + 1),
        forall|i: int| 0 <= i < 128 ==> #[trigger] bar_start(total, i) < bar_end(total, i),
{
    assert(0 * bar_width(total) == 0);
    assert forall|i: int| 0 <= i < 128 implies #[trigger] bar_start(total, i) < bar_end(total, i) by {
        lemma_bar_arith(total, i);
    }
}

/// A bar's height: the measured level, raised to the floor.
pub fn floor_bar(level: u8) -> (r: u8)
    ensures
        r == (if level < MIN_BAR { MIN_BAR } else { level }),
{
    if level < MIN_BAR {
        MIN_BAR
    } else {
        level
    }
}

/// The waveform for measured bar levels: each raised to the floor.
pub fn waveform_from_levels(levels: &Vec<u8>) -> (r: Vec<u8>)
    ensures
        r@.len() == levels@.len(),
        forall|i: int| 0 <= i < r@.len() ==> r@[i] == (if levels@[i] < MIN_BAR { MIN_BAR } else { levels@[i] }),
        forall|i: int| 0 <= i < r@.len() ==> r@[i] >= MIN_BAR,
{
    let mut v: Vec<u8> = Vec::new();
    let mut i: usize = 0;
    while i < levels.len()
        invariant
            i <= levels.len(),
            v@.len() == i,
            forall|j: int| 0 <= j < i ==> v@[j] == (if levels@[j] < MIN_BAR { MIN_BAR } else { levels@[j] }),
        decreases levels.len() - i,
    {
        v.push(floor_bar(levels[i]));
        i = i + 1;
    }
    v
}

} // verus!
