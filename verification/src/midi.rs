//! MIDI events as the engine sees them, and what it means to receive them.

use vstd::prelude::*;

verus! {

/// Status byte of a note-on message on the first channel.
pub const NOTE_ON: u8 = 0x90;

/// Status byte of a note-off message on the first channel.
pub const NOTE_OFF: u8 = 0x80;

/// Status byte of a control-change message on the first channel.
pub const CONTROL_CHANGE: u8 = 0xB0;

/// The three bytes of a short MIDI message.
#[derive(Clone, Copy, Debug, PartialEq, Eq, Structural)]
pub struct MidiMessage {
    pub status: u8,
    pub data1: u8,
    pub data2: u8,
}

/// A message together with the time at which the host saw it.
///
/// The timestamp is carried along and never consulted: events take effect at
/// the block boundary at which they are delivered.
#[derive(Clone, Copy, Debug, PartialEq, Eq, Structural)]
pub struct MidiEvent {
    pub message: MidiMessage,
    pub timestamp: u32,
}

/// Something that a batch of MIDI events can be delivered to.
pub trait MidiDestination: Sized {
    /// Whether `after` is a state in which this destination may be found once
    /// it has taken `events`, in order. Unless a destination says more, any
    /// state may follow.
    open spec fn takes(&self, events: Seq<MidiEvent>, after: &Self) -> bool {
        true
    }

    /// Applies a batch of events.
    fn process_events(&mut self, events: &[MidiEvent])
        ensures
            old(self).takes(events@, final(self)),
    ;
}

} // verus!
