//! The kinds of node that a graph can hold, and which of them listen to MIDI.

use crate::delay::Delay;
use crate::fm::PolyFmSynth;
use crate::input::Input;
use crate::midi::{MidiDestination, MidiEvent};
use vstd::prelude::*;

verus! {

/// A node of the graph: one of a closed set of kinds.
///
/// The oscillator `S`, the clipper `C` and the voice `V` work on samples and
/// are the program's to supply; the library only needs to know that a voice
/// takes MIDI events. `F` is the type of a frame.
pub enum DspNode<S, C, V, F> {
    /// Passes on what its inputs mix to; the master is one.
    Blank,
    /// A sine oscillator.
    Sine(S),
    /// The block that the host last handed in.
    Input(Input<F>),
    /// A delay line.
    Delay(Delay<F>),
    /// A soft clipper.
    ClipCubic(C),
    /// A single FM voice.
    FmSynth(V),
    /// A bank of FM voices.
    PolyFmSynth(PolyFmSynth<V>),
}

/// Events reach the node inside: a voice and a bank act on them, an input
/// block and a delay line take them and stay as they are. A blank node, an
/// oscillator and a clipper are never handed any.
impl<S, C, V: MidiDestination, F: Copy> MidiDestination for DspNode<S, C, V, F> {
    open spec fn takes(&self, events: Seq<MidiEvent>, after: &Self) -> bool {
        match (*self, *after) {
            (DspNode::Blank, DspNode::Blank) => true,
            (DspNode::Sine(before), DspNode::Sine(after)) => after == before,
            (DspNode::ClipCubic(before), DspNode::ClipCubic(after)) => after == before,
            (DspNode::Input(before), DspNode::Input(after)) => before.takes(events, &after),
            (DspNode::Delay(before), DspNode::Delay(after)) => before.takes(events, &after),
            (DspNode::FmSynth(before), DspNode::FmSynth(after)) => before.takes(events, &after),
            (DspNode::PolyFmSynth(before), DspNode::PolyFmSynth(after)) => before.takes(
                events,
                &after,
            ),
            _ => false,
        }
    }

    fn process_events(&mut self, events: &[MidiEvent]) {
        match self {
            DspNode::Blank => {},
            DspNode::Sine(_) => {},
            DspNode::ClipCubic(_) => {},
            DspNode::Input(node) => node.process_events(events),
            DspNode::Delay(node) => node.process_events(events),
            DspNode::FmSynth(node) => node.process_events(events),
            DspNode::PolyFmSynth(node) => node.process_events(events),
        }
    }
}

} // verus!
