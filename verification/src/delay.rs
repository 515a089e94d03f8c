//! A fixed-length delay line over frames of any copyable type.

use crate::base::silent;
use crate::midi::{MidiDestination, MidiEvent};
use vstd::prelude::*;

verus! {

/// A circular buffer of frames with a read-then-write cursor.
pub struct Delay<F> {
    buf: Vec<F>,
    index: usize,
}

/// The frames of `ring` from `cursor` on, followed by those before it.
pub open spec fn unrolled<F>(ring: Seq<F>, cursor: int) -> Seq<F> {
    ring.skip(cursor) + ring.take(cursor)
}

/// What a delay line holding `line` (oldest frame first) emits while it
/// takes `input`: as many frames as it takes, from the front of the line
/// followed by the input.
pub open spec fn delayed<F>(line: Seq<F>, input: Seq<F>) -> Seq<F> {
    (line + input).take(input.len() as int)
}

/// What a delay line that held `line` (oldest frame first) holds once it
/// has taken `input`: what it has not yet emitted of the line followed by
/// the input.
pub open spec fn carried<F>(line: Seq<F>, input: Seq<F>) -> Seq<F> {
    (line + input).skip(input.len() as int)
}

impl<F> Delay<F> {
    #[verifier::type_invariant]
    spec fn inv(&self) -> bool {
        0 < self.buf@.len() && self.index < self.buf@.len()
    }
}

impl<F> View for Delay<F> {
    type V = Seq<F>;

    /// The frames held, in the order in which they will be emitted.
    closed spec fn view(&self) -> Seq<F> {
        unrolled(self.buf@, self.index as int)
    }
}

impl<F: Copy> Delay<F> {
    /// A line of `buffer_size` frames of `silence`. A line has at least one
    /// frame.
    pub fn new(buffer_size: usize, silence: F) -> (delay: Self)
        requires
            buffer_size >= 1,
        ensures
            delay@ == silent(buffer_size as nat, silence),
    {
        let mut buf: Vec<F> = Vec::new();
        for n in 0..buffer_size
            invariant
                buf@ == silent(n as nat, silence),
        {
            buf.push(silence);
        }
        Delay { buf, index: 0 }
    }

    /// Replaces each frame of `buffer` by the frame that entered the line
    /// one line length earlier, and takes the frames of `buffer` into the
    /// line. What comes out and what the line holds afterwards depend on
    /// the frames held and the frames fed, and on nothing else.
    pub fn audio_requested(&mut self, buffer: &mut [F])
        ensures
            final(buffer)@ == delayed(old(self)@, old(buffer)@),
            final(self)@ == carried(old(self)@, old(buffer)@),
            final(self)@.len() == old(self)@.len(),
    {
        proof {
            use_type_invariant(&*self);
        }
        let n = buffer.len();
        let len = self.buf.len();
        let ghost stream = old(self)@ + old(buffer)@;
        let mut i: usize = 0;
        while i < n
            invariant
                i <= n,
                n == buffer@.len(),
                buffer@.len() == old(buffer)@.len(),
                0 < len == self.buf@.len(),
                self.index < len,
                stream == old(self)@ + old(buffer)@,
                old(self)@.len() == len,
                buffer@.take(i as int) == stream.take(i as int),
                buffer@.skip(i as int) == old(buffer)@.skip(i as int),
                self@ == stream.subrange(i as int, i + len),
            decreases n - i,
        {
            let ghost ring = self.buf@;
            let ghost before = buffer@;
            let in_frame = buffer[i];
            let out_frame = self.buf[self.index];
            proof {
                lemma_tick(ring, self.index as int, in_frame);
                assert(in_frame == old(buffer)@.skip(i as int)[0]);
                assert(out_frame == stream.subrange(i as int, i + len)[0]);
            }
            self.buf[self.index] = in_frame;
            buffer[i] = out_frame;
            self.index = (self.index + 1) % len;
            i += 1;
            proof {
                assert(buffer@.take(i as int) == before.take(i - 1).push(out_frame));
                assert(stream.take(i as int) == stream.take(i - 1).push(stream[i - 1]));
                assert(buffer@.skip(i as int) == before.skip(i - 1).skip(1));
                assert(old(buffer)@.skip(i as int) == old(buffer)@.skip(i - 1).skip(1));
                assert(stream.subrange(i as int, i + len) == stream.subrange(i - 1, i - 1 + len).skip(
                    1,
                ).push(in_frame));
            }
        }
        proof {
            assert(buffer@.take(n as int) == buffer@);
        }
    }
}

/// A delay line is deaf to MIDI: events leave it as it was.
impl<F: Copy> MidiDestination for Delay<F> {
    open spec fn takes(&self, events: Seq<MidiEvent>, after: &Self) -> bool {
        after@ == self@
    }

    fn process_events(&mut self, events: &[MidiEvent]) {
    }
}

/// Writing at the cursor and moving it on drops the oldest frame and
/// appends the new one.
proof fn lemma_tick<F>(ring: Seq<F>, cursor: int, frame: F)
    requires
        0 <= cursor < ring.len(),
    ensures
        unrolled(ring, cursor)[0] == ring[cursor],
        unrolled(ring.update(cursor, frame), (cursor + 1) % (ring.len() as int)) == unrolled(
            ring,
            cursor,
        ).skip(1).push(frame),
{
    let len = ring.len() as int;
    let next = (cursor + 1) % len;
    if cursor + 1 < len {
        vstd::arithmetic::div_mod::lemma_small_mod((cursor + 1) as nat, len as nat);
    } else {
        vstd::arithmetic::div_mod::lemma_mod_self_0(len);
    }
    assert(unrolled(ring.update(cursor, frame), next) =~= unrolled(ring, cursor).skip(1).push(
        frame,
    ));
}

/// Round trip: a silent line of `len` frames answers any input with `len`
/// frames of silence and then with the input itself, `len` frames late.
pub proof fn lemma_delay_round_trip<F>(len: nat, silence: F, input: Seq<F>)
    ensures
        delayed(silent(len, silence), input).len() == input.len(),
        forall|t: int|
            0 <= t < input.len() ==> #[trigger] delayed(silent(len, silence), input)[t] == if t
                < len {
                silence
            } else {
                input[t - len]
            },
{
}

/// An impulse fed to a silent line of `len` frames at time zero, with
/// silence after it, comes out at time `len` and at no other time.
pub proof fn lemma_delay_impulse<F>(len: nat, silence: F, impulse: F, input: Seq<F>)
    requires
        input.len() >= 1,
        input[0] == impulse,
        forall|t: int| 1 <= t < input.len() ==> input[t] == silence,
    ensures
        forall|t: int|
            0 <= t < input.len() ==> #[trigger] delayed(silent(len, silence), input)[t] == if t
                == len {
                impulse
            } else {
                silence
            },
{
    lemma_delay_round_trip(len, silence, input);
}

/// Feeding a line two blocks one after the other is feeding it their
/// concatenation: how a stream is cut into blocks does not show in the
/// output, and the line keeps its length.
pub proof fn lemma_delay_blocks<F>(line: Seq<F>, first: Seq<F>, second: Seq<F>)
    ensures
        delayed(line, first + second) == delayed(line, first) + delayed(
            carried(line, first),
            second,
        ),
        carried(line, first + second) == carried(carried(line, first), second),
        carried(line, first).len() == line.len(),
{
    let stream = line + (first + second);
    assert(stream == (line + first) + second);
    assert(delayed(line, first + second) =~= delayed(line, first) + delayed(
        carried(line, first),
        second,
    ));
    assert(carried(line, first + second) =~= carried(carried(line, first), second));
}

} // verus!
