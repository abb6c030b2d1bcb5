//! Arranging interleaved audio samples: stereo framing of decoded packets,
//! splitting into and joining from per-channel buffers, filling device
//! frames, and cutting a sample stream into windows. Samples are carried by
//! value; what they are does not matter here.

use vstd::prelude::*;
use crate::text::owned;
use vstd::slice::SliceAdditionalExecFns;

verus! {

proof fn lemma_frame_index(f: int, ch: int, c: int, len: int)
    requires
        ch >= 1,
        0 <= f < len / ch,
        0 <= c < ch,
        len >= 0,
    ensures
        0 <= f * ch + c < len,
        f * ch + c < (f + 1) * ch,
        (f + 1) * ch <= len,
        (f + 1) * ch == f * ch + ch,
{
    assert(f * ch + ch == (f + 1) * ch) by (nonlinear_arith);
    assert((f + 1) * ch <= (len / ch) * ch) by (nonlinear_arith)
        requires f + 1 <= len / ch, ch >= 1;
    assert((len / ch) * ch <= len) by (nonlinear_arith)
        requires ch >= 1, len >= 0;
    assert(0 <= f * ch) by (nonlinear_arith)
        requires f >= 0, ch >= 1;
}

/// The channel count used for framing: at least one.
pub open spec fn effective_channels(channels: usize) -> int {
    if channels == 0 { 1 } else { channels as int }
}

/// Sample `k` of the stereo stream made from `s` with `ch` channels: even
/// positions hold a frame's first channel, odd ones its second (the first
/// again for mono).
pub open spec fn stereo_sample<T>(s: Seq<T>, ch: int, k: int) -> T {
    if k % 2 == 0 {
        s[(k / 2) * ch]
    } else if ch >= 2 {
        s[(k / 2) * ch + 1]
    } else {
        s[(k / 2) * ch]
    }
}

/// Interleaved stereo from interleaved samples with `channels` channels: the
/// first two channels of each whole frame, or the single channel twice for
/// mono. A trailing partial frame is dropped.
pub fn stereo_frames<T: Copy>(samples: &[T], channels: usize) -> (r: Vec<T>)
    ensures
        r@.len() == 2 * (samples@.len() as int / effective_channels(channels)),
        forall|k: int| 0 <= k < r@.len() ==> #[trigger] r@[k] == stereo_sample(samples@, effective_channels(channels), k),
{
    let ch: usize = if channels == 0 { 1 } else { channels };
    let frames = samples.len() / ch;
    let mut out: Vec<T> = Vec::new();
    let mut f: usize = 0;
    let mut base: usize = 0;
    while f < frames
        invariant
            ch as int == effective_channels(channels),
            ch >= 1,
            frames == samples@.len() as int / ch as int,
            f <= frames,
            base == f * ch,
            out@.len() == 2 * f,
            forall|k: int| 0 <= k < out@.len() ==> #[trigger] out@[k] == stereo_sample(samples@, ch as int, k),
        decreases frames - f,
    {
        proof {
            lemma_frame_index(f as int, ch as int, 0, samples@.len() as int);
            if ch >= 2 {
                lemma_frame_index(f as int, ch as int, 1, samples@.len() as int);
            }
        }
        let left = samples[base];
        let right = if ch >= 2 { samples[base + 1] } else { left };
        out.push(left);
        out.push(right);
        assert((2 * f as int) / 2 == f && (2 * f as int) % 2 == 0);
        assert((2 * f + 1) / 2 == f && (2 * f + 1) % 2 == 1);
        base = base + ch;
        f = f + 1;
    }
    out
}

/// Splits interleaved samples into one buffer per channel; a trailing partial
/// frame is dropped.
pub fn deinterleave<T: Copy>(input: &[T], channels: usize) -> (r: Vec<Vec<T>>)
    requires
        channels >= 1,
    ensures
        r@.len() == channels,
        forall|c: int| 0 <= c < channels ==> (#[trigger] r@[c])@.len() == input@.len() as int / channels as int,
        forall|c: int, f: int| 0 <= c < channels && 0 <= f < input@.len() as int / channels as int
            ==> #[trigger] r@[c]@[f] == input@[f * channels + c],
{
    let frames = input.len() / channels;
    let len = input.len();
    let mut out: Vec<Vec<T>> = Vec::new();
    let mut c: usize = 0;
    while c < channels
        invariant
            frames == input@.len() as int / channels as int,
            len == input@.len(),
            channels >= 1,
            c <= channels,
            out@.len() == c,
            forall|d: int| 0 <= d < c ==> (#[trigger] out@[d])@.len() == frames,
            forall|d: int, f: int| 0 <= d < c && 0 <= f < frames ==> #[trigger] out@[d]@[f] == input@[f * channels + d],
        decreases channels - c,
    {
        let mut buf: Vec<T> = Vec::new();
        let mut f: usize = 0;
        while f < frames
            invariant
                frames == input@.len() as int / channels as int,
                len == input@.len(),
                channels >= 1,
                c < channels,
                f <= frames,
                buf@.len() == f,
                forall|g: int| 0 <= g < f ==> #[trigger] buf@[g] == input@[g * channels + c],
            decreases frames - f,
        {
            proof {
                lemma_frame_index(f as int, channels as int, c as int, input@.len() as int);
            }
            buf.push(input[f * channels + c]);
            f = f + 1;
        }
        out.push(buf);
        c = c + 1;
    }
    out
}

/// Joins per-channel buffers into interleaved samples: `frames` frames of one
/// sample from each buffer, buffers in order.
pub fn interleave<T: Copy>(bufs: &Vec<Vec<T>>, frames: usize) -> (r: Vec<T>)
    requires
        bufs@.len() >= 1,
        forall|c: int| 0 <= c < bufs@.len() ==> (#[trigger] bufs@[c])@.len() >= frames,
    ensures
        r@.len() == frames * bufs@.len(),
        forall|k: int| 0 <= k < r@.len() ==> #[trigger] r@[k] == bufs@[k % bufs@.len() as int]@[k / bufs@.len() as int],
{
    let ch = bufs.len();
    let mut out: Vec<T> = Vec::new();
    let mut f: usize = 0;
    while f < frames
        invariant
            ch == bufs@.len(),
            ch >= 1,
            forall|c: int| 0 <= c < ch ==> (#[trigger] bufs@[c])@.len() >= frames,
            f <= frames,
            out@.len() == f * ch,
            forall|k: int| 0 <= k < out@.len() ==> #[trigger] out@[k] == bufs@[k % ch as int]@[k / ch as int],
        decreases frames - f,
    {
        let mut c: usize = 0;
        while c < ch
            invariant
                ch == bufs@.len(),
                ch >= 1,
                forall|d: int| 0 <= d < ch ==> (#[trigger] bufs@[d])@.len() >= frames,
                f < frames,
                c <= ch,
                out@.len() == f * ch + c,
                forall|k: int| 0 <= k < out@.len() ==> #[trigger] out@[k] == bufs@[k % ch as int]@[k / ch as int],
            decreases ch - c,
        {
            let ghost k = f * ch + c;
            assert(k % (ch as int) == c && k / (ch as int) == f) by (nonlinear_arith)
                requires k == f * ch + c, 0 <= c < ch, f >= 0;
            out.push(bufs[c][f]);
            c = c + 1;
        }
        assert((f + 1) * ch == f * ch + ch) by (nonlinear_arith);
        f = f + 1;
    }
    out
}

/// Splitting samples into channels and joining them again gives back every
/// whole frame unchanged.
pub proof fn lemma_interleave_round_trip<T>(input: Seq<T>, channels: int, bufs: Seq<Seq<T>>, out: Seq<T>)
    requires
        channels >= 1,
        bufs.len() == channels,
        forall|c: int, f: int| 0 <= c < channels && 0 <= f < input.len() as int / channels
            ==> #[trigger] bufs[c][f] == input[f * channels + c],
        out.len() == (input.len() as int / channels) * channels,
        forall|k: int| 0 <= k < out.len() ==> #[trigger] out[k] == bufs[k % channels][k / channels],
    ensures
        out == input.subrange(0, (input.len() as int / channels) * channels),
{
    let n = (input.len() as int / channels) * channels;
    assert((input.len() as int / channels) * channels <= input.len()) by (nonlinear_arith)
        requires channels >= 1, input.len() >= 0;
    assert forall|k: int| 0 <= k < n implies out[k] == input[k] by {
        let f = k / channels;
        let c = k % channels;
        assert(k == f * channels + c && 0 <= c < channels) by (nonlinear_arith)
            requires channels >= 1, k >= 0, f == k / channels, c == k % channels;
        assert(f < input.len() as int / channels) by (nonlinear_arith)
            requires k < (input.len() as int / channels) * channels, k == f * channels + c, 0 <= c < channels, channels >= 1;
        assert(bufs[c][f] == input[f * channels + c]);
    }
    assert(out =~= input.subrange(0, n));
}

/// Fills one device frame: the left sample, the right sample, then silence
/// for any further channels.
pub fn fill_frame<T: Copy>(frame: &mut [T], left: T, right: T, silence: T)
    ensures
        final(frame)@.len() == old(frame)@.len(),
        forall|i: int| 0 <= i < final(frame)@.len() ==> #[trigger] final(frame)@[i] == (if i == 0 {
            left
        } else if i == 1 {
            right
        } else {
            silence
        }),
{
    let n = frame.len();
    let mut i: usize = 0;
    while i < n
        invariant
            n == frame@.len(),
            i <= n,
            forall|j: int| 0 <= j < i ==> #[trigger] frame@[j] == (if j == 0 {
                left
            } else if j == 1 {
                right
            } else {
                silence
            }),
        decreases n - i,
    {
        let v = if i == 0 {
            left
        } else if i == 1 {
            right
        } else {
            silence
        };
        frame[i] = v;
        i = i + 1;
    }
}

/// The reading end of a single-producer ring buffer of samples
/// (`rtrb::Consumer`).
#[verifier::external_type_specification]
#[verifier::external_body]
#[verifier::reject_recursive_types(T)]
pub struct ExConsumer<T>(rtrb::Consumer<T>);

/// `rtrb::Consumer::pop`: the oldest sample pushed and not yet read, or
/// `None` when the buffer holds none. Trusted, and nothing is stated of the
/// result: what the buffer holds depends on what the producing thread has
/// pushed meanwhile.
#[verifier::external_body]
fn pop_sample<T>(consumer: &mut rtrb::Consumer<T>) -> Option<T> {
    consumer.pop().ok()
}

/// One stereo frame read from a deck's ring buffer: the next two samples,
/// left then right, each `silence` when the buffer has run dry; silence on
/// both sides when no buffer is attached. The attachment is left as it was.
pub fn read_stereo_frame<T>(consumer: &mut Option<rtrb::Consumer<T>>, silence: T) -> (r: (T, T))
    where
        T: Copy,
    ensures
        *old(consumer) is None ==> r == (silence, silence),
        *final(consumer) is Some <==> *old(consumer) is Some,
{
    match consumer {
        Some(c) => {
            let first = pop_sample(c);
            let second = pop_sample(c);
            stereo_pair(first, second, silence)
        },
        None => (silence, silence),
    }
}

/// A stereo frame from the two samples read for it, in reading order: left
/// is the first, right the second, and a sample that could not be read is
/// `silence`.
pub fn stereo_pair<T: Copy>(first: Option<T>, second: Option<T>, silence: T) -> (r: (T, T))
    ensures
        r.0 == (match first {
            Some(v) => v,
            None => silence,
        }),
        r.1 == (match second {
            Some(v) => v,
            None => silence,
        }),
{
    let left = match first {
        Some(v) => v,
        None => silence,
    };
    let right = match second {
        Some(v) => v,
        None => silence,
    };
    (left, right)
}

/// A growing stream of samples cut into consecutive windows.
pub struct SampleBuffer<T> {
    data: Vec<T>,
    position: usize,
}

impl<T> SampleBuffer<T> {
    /// Earlier windows never took more than was pushed.
    pub closed spec fn wf(&self) -> bool {
        self.position <= self.data@.len()
    }

    /// Every sample pushed so far.
    pub closed spec fn samples(&self) -> Seq<T> {
        self.data@
    }

    /// How many samples earlier windows have taken.
    pub closed spec fn taken(&self) -> nat {
        self.position as nat
    }

    /// An empty buffer (room for `capacity` samples reserved).
    pub fn new(capacity: usize) -> (r: SampleBuffer<T>)
        ensures
            r.wf(),
            r.samples() == Seq::<T>::empty(),
            r.taken() == 0,
    {
        SampleBuffer { data: Vec::with_capacity(capacity), position: 0 }
    }

    /// Appends samples to the stream.
    pub fn push(&mut self, samples: &[T])
        where T: Copy
        requires
            old(self).wf(),
        ensures
            final(self).wf(),
            final(self).samples() == old(self).samples() + samples@,
            final(self).taken() == old(self).taken(),
    {
        let mut i: usize = 0;
        let ghost d0 = self.data@;
        let ghost p0 = self.position;
        while i < samples.len()
            invariant
                self.position == p0,
                i <= samples@.len(),
                self.data@ == d0 + samples@.subrange(0, i as int),
                self.position <= d0.len(),
            decreases samples.len() - i,
        {
            self.data.push(samples[i]);
            assert(samples@.subrange(0, i + 1) == samples@.subrange(0, i as int).push(samples@[i as int]));
            i = i + 1;
        }
        assert(samples@.subrange(0, samples@.len() as int) == samples@);
    }

    /// The next `window_size` samples, if that many are left; they are then
    /// taken. Nothing changes when fewer are left.
    pub fn next_window(&mut self, window_size: usize) -> (r: Option<Vec<T>>)
        where T: Copy
        requires
            old(self).wf(),
            old(self).taken() + window_size <= usize::MAX,
        ensures
            final(self).wf(),
            final(self).samples() == old(self).samples(),
            old(self).taken() + window_size > old(self).samples().len() ==> r is None && final(self).taken() == old(self).taken(),
            old(self).taken() + window_size <= old(self).samples().len() ==> r is Some
                && r->0@ == old(self).samples().subrange(old(self).taken() as int, old(self).taken() + window_size)
                && final(self).taken() == old(self).taken() + window_size,
    {
        if self.position + window_size > self.data.len() {
            return None;
        }
        let mut w: Vec<T> = Vec::new();
        let mut i: usize = 0;
        let n = self.data.len();
        while i < window_size
            invariant
                n == self.data@.len(),
                self.position + window_size <= self.data@.len(),
                i <= window_size,
                w@ == self.data@.subrange(self.position as int, self.position + i),
            decreases window_size - i,
        {
            w.push(self.data[self.position + i]);
            assert(self.data@.subrange(self.position as int, self.position + i + 1)
                == self.data@.subrange(self.position as int, self.position + i).push(self.data@[self.position + i]));
            i = i + 1;
        }
        self.position = self.position + window_size;
        Some(w)
    }
}

/// Consecutive windows are consecutive runs of the stream: a window taken
/// after another starts where that one ended.
pub proof fn lemma_windows_consecutive<T>(data: Seq<T>, p: int, w1: int, w2: int)
    requires
        0 <= p,
        0 <= w1,
        0 <= w2,
        p + w1 + w2 <= data.len(),
    ensures
        data.subrange(p, p + w1) + data.subrange(p + w1, p + w1 + w2) == data.subrange(p, p + w1 + w2),
{
    assert(data.subrange(p, p + w1) + data.subrange(p + w1, p + w1 + w2) =~= data.subrange(p, p + w1 + w2));
}

/// The archived file decoder: it is not implemented and always reports so.
pub fn decode_audio<S>(path: &str) -> (r: Result<(Vec<S>, u32, u32), String>)
    ensures
        r is Err,
        r matches Err(e) && e@ == "Archived placeholder: audio decoding API not implemented"@,
{
    Err(owned("Archived placeholder: audio decoding API not implemented"))
}

} // verus!
