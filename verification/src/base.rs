//! What every node shares: the channel count, and what silence is.

use vstd::prelude::*;

verus! {

/// Number of channels in a frame.
pub const CHANNELS: usize = 2;

/// A run of `len` frames, each of them `silence`.
pub open spec fn silent<F>(len: nat, silence: F) -> Seq<F> {
    Seq::new(len, |i: int| silence)
}

} // verus!
