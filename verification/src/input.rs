//! A node that replays the block of frames the host last handed in.

use crate::base::{silent, CHANNELS};
use crate::midi::{MidiDestination, MidiEvent};
use vstd::prelude::*;

verus! {

/// One block of frames, written by the host and read by the graph.
pub struct Input<F> {
    buf: Vec<F>,
}

impl<F> View for Input<F> {
    type V = Seq<F>;

    /// The frames held, first to last.
    closed spec fn view(&self) -> Seq<F> {
        self.buf@
    }
}

/// `held` with its leading frames overwritten by `frames`, as far as both reach.
pub open spec fn filled<F>(held: Seq<F>, frames: Seq<F>) -> Seq<F> {
    Seq::new(
        held.len(),
        |i: int|
            if i < frames.len() {
                frames[i]
            } else {
                held[i]
            },
    )
}

/// Number of whole frames in a buffer of `samples` samples interleaved
/// `channels` to a frame.
pub open spec fn frame_count(samples: nat, channels: nat) -> nat {
    samples / channels
}

/// The stereo frame picked from the `k`-th frame of `samples`, which hold
/// `channels` samples to a frame: the samples at lanes `left` and `right`.
pub open spec fn lane_frame<S>(samples: Seq<S>, channels: nat, left: nat, right: nat, k: int) -> Seq<
    S,
> {
    seq![samples[k * channels + left], samples[k * channels + right]]
}

impl<F: Copy> Input<F> {
    /// A block of `buffer_size` frames of `silence`.
    pub fn new(buffer_size: usize, silence: F) -> (input: Self)
        ensures
            input@ == silent(buffer_size as nat, silence),
    {
        let mut buf: Vec<F> = Vec::new();
        for n in 0..buffer_size
            invariant
                buf@ == silent(n as nat, silence),
        {
            buf.push(silence);
        }
        Input { buf }
    }

    /// Number of frames in the block.
    pub fn len(&self) -> (n: usize)
        ensures
            n == self@.len(),
    {
        self.buf.len()
    }

    /// Overwrites the block with `frames`, frame by frame from the start,
    /// until either runs out.
    pub fn fill(&mut self, frames: &[F])
        ensures
            final(self)@ == filled(old(self)@, frames@),
    {
        let n = if self.buf.len() < frames.len() {
            self.buf.len()
        } else {
            frames.len()
        };
        let mut i: usize = 0;
        while i < n
            invariant
                i <= n,
                n <= frames@.len(),
                n <= self.buf@.len(),
                self.buf@.len() == old(self).buf@.len(),
                forall|j: int| 0 <= j < i ==> self.buf@[j] == frames@[j],
                forall|j: int| i <= j < self.buf@.len() ==> self.buf@[j] == old(self).buf@[j],
            decreases n - i,
        {
            self.buf[i] = frames[i];
            i += 1;
        }
    }

    /// Overwrites `buffer`, which must be one block long, with the frames held.
    pub fn audio_requested(&self, buffer: &mut [F])
        requires
            old(buffer)@.len() == self@.len(),
        ensures
            final(buffer)@ == self@,
    {
        let n = buffer.len();
        let mut i: usize = 0;
        while i < n
            invariant
                i <= n,
                n == buffer@.len(),
                n == self.buf@.len(),
                forall|j: int| 0 <= j < i ==> buffer@[j] == self.buf@[j],
            decreases n - i,
        {
            buffer[i] = self.buf[i];
            i += 1;
        }
    }
}

impl<S: Copy> Input<[S; CHANNELS]> {
    /// Overwrites the block from a buffer of interleaved samples, `channels`
    /// to a frame, taking the samples at lanes `left` and `right` of each
    /// frame, until the block or the whole frames of the buffer run out.
    /// Samples after the last whole frame are not looked at.
    pub fn fill_lanes(&mut self, samples: &[S], channels: usize, left: usize, right: usize)
        requires
            left < channels,
            right < channels,
        ensures
            final(self)@.len() == old(self)@.len(),
            forall|k: int|
                0 <= k < old(self)@.len() ==> if k < frame_count(
                    samples@.len(),
                    channels as nat,
                ) {
                    (#[trigger] final(self)@[k])@ == lane_frame(
                        samples@,
                        channels as nat,
                        left as nat,
                        right as nat,
                        k,
                    )
                } else {
                    final(self)@[k] == old(self)@[k]
                },
    {
        let count = samples.len() / channels;
        let n = if self.buf.len() < count {
            self.buf.len()
        } else {
            count
        };
        let mut i: usize = 0;
        while i < n
            invariant
                i <= n,
                n <= count,
                n <= self.buf@.len(),
                left < channels,
                right < channels,
                count == samples@.len() / (channels as nat),
                self.buf@.len() == old(self).buf@.len(),
                forall|k: int|
                    0 <= k < i ==> (#[trigger] self.buf@[k])@ == lane_frame(
                        samples@,
                        channels as nat,
                        left as nat,
                        right as nat,
                        k,
                    ),
                forall|k: int| i <= k < self.buf@.len() ==> self.buf@[k] == old(self).buf@[k],
            decreases n - i,
        {
            assert((i + 1) * channels <= samples@.len()) by (nonlinear_arith)
                requires
                    i < count,
                    0 < channels,
                    count == samples@.len() / (channels as nat),
            ;
            assert(i * channels + channels == (i + 1) * channels) by (nonlinear_arith);
            assert(0 <= i * channels) by (nonlinear_arith);
            assert(samples@.len() == samples.len());
            let base = i * channels;
            let frame = [samples[base + left], samples[base + right]];
            assert(frame@ == lane_frame(
                samples@,
                channels as nat,
                left as nat,
                right as nat,
                i as int,
            ));
            self.buf[i] = frame;
            i += 1;
        }
    }
}

/// An input block is deaf to MIDI: events leave it as it was.
impl<F: Copy> MidiDestination for Input<F> {
    open spec fn takes(&self, events: Seq<MidiEvent>, after: &Self) -> bool {
        after@ == self@
    }

    fn process_events(&mut self, events: &[MidiEvent]) {
    }
}

/// A block that was filled with a whole block of frames holds just those
/// frames, so the next render emits them.
pub proof fn lemma_fill_whole_block<F>(held: Seq<F>, block: Seq<F>)
    requires
        block.len() == held.len(),
    ensures
        filled(held, block) == block,
{
}

/// Filling with fewer frames than the block holds leaves the rest of the
/// block as it was; frames beyond the block are dropped.
pub proof fn lemma_fill_partial<F>(held: Seq<F>, frames: Seq<F>)
    ensures
        filled(held, frames).len() == held.len(),
        frames.len() <= held.len() ==> filled(held, frames) == frames + held.skip(
            frames.len() as int,
        ),
        frames.len() >= held.len() ==> filled(held, frames) == frames.take(held.len() as int),
{
}

} // verus!
