//! Cutting a stream of samples into frames, and a spectrum into bands.

use crate::dsp::fft::{DEFAULT_FFT_FRAME_SIZE, DEFAULT_FFT_HOP_SIZE};
use crate::spans;
use std::collections::VecDeque;
use vstd::prelude::*;

verus! {

/// The number of whole frames in `len` samples: frames of `frame` samples begin `hop` samples
/// apart.
pub open spec fn frame_total(len: nat, frame: nat, hop: nat) -> nat {
    spans::item_count(len, hop, frame)
}

/// The whole frames of a stream of samples.
pub open spec fn frames_of<T>(stream: Seq<T>, frame: nat, hop: nat) -> Seq<Seq<T>> {
    Seq::new(
        frame_total(stream.len(), frame, hop),
        |k: int| stream.subrange(k * hop, k * hop + frame),
    )
}

/// The samples of a stream that frames to come still need.
pub open spec fn rest_of<T>(stream: Seq<T>, frame: nat, hop: nat) -> Seq<T> {
    stream.skip((frame_total(stream.len(), frame, hop) * hop) as int)
}

/// The samples that have come in and that frames to come still need.
pub struct SampleWindow<T> {
    frame_size: usize,
    hop_size: usize,
    input_buffer: VecDeque<T>,
}

impl<T> View for SampleWindow<T> {
    type V = Seq<T>;

    closed spec fn view(&self) -> Seq<T> {
        self.input_buffer@
    }
}

impl<T> SampleWindow<T> {
    /// The number of samples of one frame.
    pub closed spec fn frame(self) -> nat {
        self.frame_size as nat
    }

    /// The number of samples from one frame to the next.
    pub closed spec fn hop(self) -> nat {
        self.hop_size as nat
    }

    /// What holds of every window: a frame has two samples or more, frames overlap or touch, and
    /// no whole frame is left over.
    pub open spec fn wf(self) -> bool {
        &&& self.frame() >= 2
        &&& 1 <= self.hop() <= self.frame()
        &&& self@.len() < self.frame()
    }
}

/// The frames that are handed out need no more samples to be dropped than there are.
proof fn lemma_frames_inside(len: nat, frame: nat, hop: nat)
    requires
        1 <= hop <= frame,
    ensures
        0 <= frame_total(len, frame, hop) * hop <= len,
{
    let t = frame_total(len, frame, hop) as int;
    spans::law_as_many_items_as_fit(len, hop, frame, t as nat);
    if t > 0 {
        assert(t * hop == (t - 1) * hop + hop && 0 <= (t - 1) * hop) by (nonlinear_arith)
            requires
                t > 0,
                hop >= 1,
        ;
    } else {
        assert(t * hop == 0) by (nonlinear_arith)
            requires
                t == 0,
        ;
    }
}

/// A stream is cut into the same frames whether its samples come at once or in two portions: the
/// frames of the first portion, then those of what it left over together with the second.
pub proof fn law_portions_do_not_matter<T>(first: Seq<T>, second: Seq<T>, frame: nat, hop: nat)
    requires
        frame >= 2,
        1 <= hop <= frame,
    ensures
        frames_of(first + second, frame, hop) == frames_of(first, frame, hop) + frames_of(
            rest_of(first, frame, hop) + second,
            frame,
            hop,
        ),
        rest_of(first + second, frame, hop) == rest_of(
            rest_of(first, frame, hop) + second,
            frame,
            hop,
        ),
{
    let all = first + second;
    let k = frame_total(first.len(), frame, hop) as int;
    spans::law_as_many_items_as_fit(first.len(), hop, frame, k as nat);
    lemma_frames_inside(first.len(), frame, hop);
    let later = rest_of(first, frame, hop) + second;
    assert(later =~= all.skip(k * hop));
    let m = frame_total(later.len(), frame, hop) as int;
    spans::law_as_many_items_as_fit(later.len(), hop, frame, m as nat);
    lemma_frames_inside(later.len(), frame, hop);
    assert((k + m) * hop == k * hop + m * hop) by (nonlinear_arith);
    if m > 0 {
        assert((k + m - 1) * hop == k * hop + (m - 1) * hop) by (nonlinear_arith);
    } else {
        assert(m * hop == 0) by (nonlinear_arith)
            requires
                m == 0,
        ;
    }
    spans::law_as_many_items_as_fit(all.len(), hop, frame, (k + m) as nat);
    assert(frame_total(all.len(), frame, hop) == k + m);
    let joined = frames_of(first, frame, hop) + frames_of(later, frame, hop);
    assert forall|i: int| 0 <= i < k + m implies frames_of(all, frame, hop)[i] == #[trigger] joined[i]
        by {
        if i < k {
            spans::lemma_item_inside(first.len(), hop, frame, i);
            assert(all.subrange(i * hop, i * hop + frame) =~= first.subrange(
                i * hop,
                i * hop + frame,
            ));
        } else {
            let j = i - k;
            spans::lemma_item_inside(later.len(), hop, frame, j);
            assert(i * hop == k * hop + j * hop) by (nonlinear_arith)
                requires
                    i == k + j,
            ;
            assert(all.subrange(i * hop, i * hop + frame) =~= later.subrange(
                j * hop,
                j * hop + frame,
            ));
        }
    }
    assert(frames_of(all, frame, hop) =~= joined);
    assert(rest_of(all, frame, hop) =~= rest_of(later, frame, hop));
}

impl<T: Copy> SampleWindow<T> {
    /// An empty window.
    pub fn new(frame_size: usize, hop_size: usize) -> (r: Self)
        requires
            frame_size >= 2,
            1 <= hop_size <= frame_size,
        ensures
            r.wf(),
            r.frame() == frame_size,
            r.hop() == hop_size,
            r@ == Seq::<T>::empty(),
    {
        SampleWindow { frame_size, hop_size, input_buffer: VecDeque::new() }
    }

    /// An empty window with the default sizes.
    pub fn with_default_sizes() -> (r: Self)
        ensures
            r.wf(),
            r.frame() == DEFAULT_FFT_FRAME_SIZE,
            r.hop() == DEFAULT_FFT_HOP_SIZE,
            r@ == Seq::<T>::empty(),
    {
        SampleWindow::new(DEFAULT_FFT_FRAME_SIZE, DEFAULT_FFT_HOP_SIZE)
    }

    /// The oldest samples, as many as a frame has.
    fn current_frame(&self) -> (r: Vec<T>)
        requires
            self@.len() >= self.frame(),
        ensures
            r@ == self@.take(self.frame() as int),
    {
        let mut frame: Vec<T> = Vec::new();
        for i in 0..self.frame_size
            invariant
                self@.len() >= self.frame_size,
                frame@ == self@.take(i as int),
        {
            frame.push(self.input_buffer[i]);
            assert(self@.take(i + 1) =~= self@.take(i as int).push(self@[i as int]));
        }
        frame
    }

    /// Drops the samples that no frame to come needs any more.
    fn discard_hop(&mut self)
        requires
            old(self)@.len() >= old(self).hop(),
        ensures
            final(self)@ == old(self)@.skip(old(self).hop() as int),
            final(self).frame() == old(self).frame(),
            final(self).hop() == old(self).hop(),
    {
        let count: usize = self.hop_size;
        let ghost before = self@;
        for i in 0..count
            invariant
                count == self.hop_size,
                count <= before.len(),
                self@ == before.skip(i as int),
                self.frame() == old(self).frame(),
                self.hop() == old(self).hop(),
        {
            let _ = self.input_buffer.pop_front();
            assert(before.skip(i as int).drop_first() =~= before.skip(i + 1));
            assert(self@ =~= before.skip(i + 1));
        }
    }

    /// Takes in samples and hands out the whole frames that are there with them, the oldest first.
    pub fn push_samples(&mut self, samples: &[T]) -> (r: Vec<Vec<T>>)
        requires
            old(self).wf(),
        ensures
            final(self).wf(),
            final(self).frame() == old(self).frame(),
            final(self).hop() == old(self).hop(),
            Seq::new(r@.len(), |i: int| r@[i]@) == frames_of(
                old(self)@ + samples@,
                old(self).frame(),
                old(self).hop(),
            ),
            final(self)@ == rest_of(
                old(self)@ + samples@,
                old(self).frame(),
                old(self).hop(),
            ),
    {
        let ghost frame = self.frame();
        let ghost hop = self.hop();
        let ghost all = self@ + samples@;
        assert(self@ =~= self@ + samples@.take(0));
        for i in 0..samples.len()
            invariant
                self.frame() == frame,
                self.hop() == hop,
                self@ == old(self)@ + samples@.take(i as int),
        {
            self.input_buffer.push_back(samples[i]);
            assert(samples@.take(i + 1) =~= samples@.take(i as int).push(samples@[i as int]));
            assert(self@ =~= old(self)@ + samples@.take(i + 1));
        }
        assert(samples@.take(samples@.len() as int) =~= samples@);
        let mut frames: Vec<Vec<T>> = Vec::new();
        let ghost mut k: int = 0;
        assert(self@ =~= all.skip(k * hop)) by {
            assert(k * hop == 0) by (nonlinear_arith)
                requires
                    k == 0,
            ;
        }
        while self.input_buffer.len() >= self.frame_size
            invariant
                frame >= 2,
                1 <= hop <= frame,
                self.frame() == frame,
                self.hop() == hop,
                0 <= k,
                0 <= k * hop <= all.len(),
                self@ == all.skip(k * hop),
                k == 0 || (k - 1) * hop + frame <= all.len(),
                frames@.len() == k,
                forall|i: int|
                    0 <= i < k ==> (#[trigger] frames@[i])@ == all.subrange(
                        i * hop,
                        i * hop + frame,
                    ),
            decreases self@.len(),
        {
            let ghost before = self@;
            let current: Vec<T> = self.current_frame();
            assert(current@ =~= all.subrange(k * hop, k * hop + frame));
            frames.push(current);
            self.discard_hop();
            proof {
                assert((k + 1) * hop == k * hop + hop) by (nonlinear_arith);
                assert(before.skip(hop as int) =~= all.skip((k + 1) * hop));
                k = k + 1;
            }
        }
        proof {
            spans::law_as_many_items_as_fit(all.len(), hop, frame, k as nat);
            assert(Seq::new(frames@.len(), |i: int| frames@[i]@) =~= frames_of(all, frame, hop));
        }
        frames
    }
}

/// Whether the analyzer has to be set up anew: there is none yet, or the sample rate has changed.
pub fn analyzer_needs_reset(current_rate: Option<u32>, sample_rate: u32) -> (r: bool)
    ensures
        r == (current_rate != Some(sample_rate)),
{
    match current_rate {
        Some(rate) => rate != sample_rate,
        None => true,
    }
}

/// The bins of a spectrum that belong to one band.
#[derive(Debug, Clone, Copy, PartialEq, Eq, Structural)]
pub struct BandBinRange {
    pub start_bin: usize,
    /// The first bin behind the band.
    pub end_bin: usize,
}

/// Where the edges of a band lie in a spectrum: its lower edge rounded down to a bin, and its
/// upper edge rounded up.
#[derive(Debug, Clone, Copy, PartialEq, Eq, Structural)]
pub struct BandEdges {
    pub low: usize,
    pub high: usize,
}

/// The smaller of two numbers.
pub open spec fn least(a: int, b: int) -> int {
    if a <= b {
        a
    } else {
        b
    }
}

/// The larger of two numbers.
pub open spec fn most(a: int, b: int) -> int {
    if a >= b {
        a
    } else {
        b
    }
}

/// The first bin of a band in a spectrum whose last bin is `max_bin`; bin zero belongs to none.
pub open spec fn first_bin(edges: BandEdges, max_bin: int) -> int {
    most(least(edges.low as int, max_bin), 1)
}

/// The first bin behind a band: a band has a bin of its own where the spectrum has room for one.
pub open spec fn end_bin(edges: BandEdges, max_bin: int) -> int {
    least(
        most(least(edges.high as int, max_bin + 1), first_bin(edges, max_bin) + 1),
        max_bin + 1,
    )
}

/// The bins of the bands, for spectra of frames of that size.
pub fn build_log_band_ranges(edges: &Vec<BandEdges>, frame_size: usize) -> (r: Vec<BandBinRange>)
    ensures
        r@.len() == edges@.len(),
        forall|i: int|
            0 <= i < edges@.len() ==> (#[trigger] r@[i]).start_bin == first_bin(
                edges@[i],
                frame_size as int / 2,
            ) && r@[i].end_bin == end_bin(edges@[i], frame_size as int / 2),
{
    let max_bin: usize = frame_size / 2;
    let mut ranges: Vec<BandBinRange> = Vec::new();
    for i in 0..edges.len()
        invariant
            max_bin == frame_size / 2,
            ranges@.len() == i,
            forall|k: int|
                0 <= k < i ==> (#[trigger] ranges@[k]).start_bin == first_bin(
                    edges@[k],
                    max_bin as int,
                ) && ranges@[k].end_bin == end_bin(edges@[k], max_bin as int),
    {
        let mut start_bin: usize = if edges[i].low <= max_bin {
            edges[i].low
        } else {
            max_bin
        };
        if start_bin < 1 {
            start_bin = 1;
        }
        let mut end_bin: usize = if edges[i].high <= max_bin + 1 {
            edges[i].high
        } else {
            max_bin + 1
        };
        if end_bin < start_bin + 1 {
            end_bin = start_bin + 1;
        }
        if end_bin > max_bin + 1 {
            end_bin = max_bin + 1;
        }
        ranges.push(BandBinRange { start_bin, end_bin });
    }
    ranges
}

/// Every band has a bin of its own, and all its bins lie inside of the spectrum, which has one bin
/// more than half as many as the frame has samples.
pub proof fn law_bands_lie_inside(edges: BandEdges, frame_size: int)
    requires
        frame_size >= 2,
    ensures
        1 <= first_bin(edges, frame_size / 2) < end_bin(edges, frame_size / 2),
        end_bin(edges, frame_size / 2) <= frame_size / 2 + 1,
        end_bin(edges, frame_size / 2) <= frame_size,
{
}

/// A band that begins where another ends leaves no bin out between them.
pub proof fn law_bands_leave_no_gap(lower: BandEdges, upper: BandEdges, frame_size: int)
    requires
        frame_size >= 2,
        upper.low <= lower.high,
    ensures
        first_bin(upper, frame_size / 2) <= end_bin(lower, frame_size / 2),
{
}

/// Bands with higher edges begin and end at bins no lower.
pub proof fn law_bands_keep_their_order(lower: BandEdges, upper: BandEdges, frame_size: int)
    requires
        lower.low <= upper.low,
        lower.high <= upper.high,
    ensures
        first_bin(lower, frame_size / 2) <= first_bin(upper, frame_size / 2),
        end_bin(lower, frame_size / 2) <= end_bin(upper, frame_size / 2),
{
}

/// Each frame is an unbroken run of the stream: its sample `j` is the one that lies `j` samples
/// behind the beginning of the frame, and the frames begin a hop apart.
pub proof fn law_frames_are_runs_of_the_stream<T>(
    stream: Seq<T>,
    frame: nat,
    hop: nat,
    k: int,
    j: int,
)
    requires
        frame >= 2,
        1 <= hop <= frame,
        0 <= k < frames_of(stream, frame, hop).len(),
        0 <= j < frame,
    ensures
        frames_of(stream, frame, hop)[k].len() == frame,
        0 <= k * hop + j < stream.len(),
        frames_of(stream, frame, hop)[k][j] == stream[k * hop + j],
{
    spans::lemma_item_inside(stream.len(), hop, frame, k);
}

/// No whole frame is left out and none is made up: behind the last frame there are samples, but not
/// enough for the next, and what is left over is the stream from the next frame on.
pub proof fn law_rest_begins_with_the_next_frame<T>(stream: Seq<T>, frame: nat, hop: nat)
    requires
        frame >= 2,
        1 <= hop <= frame,
    ensures
        ({
            let n = frames_of(stream, frame, hop).len() as int;
            let rest = rest_of(stream, frame, hop);
            &&& n > 0 ==> (n - 1) * hop + frame <= stream.len()
            &&& n * hop + frame > stream.len()
            &&& n * hop + rest.len() == stream.len()
            &&& rest.len() < frame
            &&& forall|i: int| 0 <= i < rest.len() ==> #[trigger] rest[i] == stream[n * hop + i]
        }),
{
    let n = frame_total(stream.len(), frame, hop);
    spans::law_as_many_items_as_fit(stream.len(), hop, frame, n);
    lemma_frames_inside(stream.len(), frame, hop);
}

/// The newest frame holds the newest samples: when a frame has just been completed, its last sample
/// is the last of the stream.
pub proof fn law_frames_end_with_the_newest_sample<T>(stream: Seq<T>, frame: nat, hop: nat)
    requires
        frame >= 2,
        1 <= hop <= frame,
        frames_of(stream, frame, hop).len() > 0,
        rest_of(stream, frame, hop).len() == frame - hop,
    ensures
        frames_of(stream, frame, hop).last().last() == stream.last(),
{
    let n = frames_of(stream, frame, hop).len() as int;
    law_rest_begins_with_the_next_frame(stream, frame, hop);
    law_frames_are_runs_of_the_stream(stream, frame, hop, n - 1, frame - 1);
    assert((n - 1) * hop + hop == n * hop) by (nonlinear_arith);
}

/// A band whose edges lie inside of the spectrum gets exactly the bins from its lower edge up to
/// its upper one; an edge outside is moved to the nearest bin inside, and a band without a bin gets
/// the one at its lower edge.
pub proof fn law_bands_begin_and_end_at_their_edges(edges: BandEdges, frame_size: int)
    requires
        frame_size >= 2,
    ensures
        ({
            let max_bin = frame_size / 2;
            let first = first_bin(edges, max_bin);
            let end = end_bin(edges, max_bin);
            &&& 1 <= edges.low < edges.high <= max_bin + 1 ==> first == edges.low && end
                == edges.high
            &&& 1 <= edges.low <= max_bin ==> first == edges.low
            &&& edges.low == 0 ==> first == 1
            &&& edges.low > max_bin ==> first == max_bin
            &&& first < edges.high <= max_bin + 1 ==> end == edges.high
            &&& edges.high <= first ==> end == first + 1
            &&& edges.high > max_bin + 1 ==> end == max_bin + 1
        }),
{
}

/// Bands whose edges do not overlap share no bin.
pub proof fn law_separate_bands_share_no_bin(
    lower: BandEdges,
    upper: BandEdges,
    frame_size: int,
    bin: int,
)
    requires
        frame_size >= 2,
        1 <= lower.low < lower.high <= upper.low,
        upper.low < upper.high <= frame_size / 2 + 1,
    ensures
        !(first_bin(lower, frame_size / 2) <= bin < end_bin(lower, frame_size / 2) && first_bin(
            upper,
            frame_size / 2,
        ) <= bin < end_bin(upper, frame_size / 2)),
{
}

} // verus!
