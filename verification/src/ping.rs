//! Turns a stream of pings into a repeating figure of notes.

use crate::midi::{MidiEvent, MidiMessage, NOTE_ON};
use vstd::prelude::*;

verus! {

/// A cyclic sequence of steps, each a note to sound (pitch and velocity) or a
/// rest, with a cursor on the step that the next ping plays.
pub struct PingSequencer {
    steps: Vec<Option<(u8, u8)>>,
    cursor: usize,
}

/// The figure that pings play unless told otherwise: nine notes, six rests
/// and a last low note.
pub open spec fn standard_steps() -> Seq<Option<(u8, u8)>> {
    seq![
        Some((41u8, 100u8)),
        Some((48u8, 100u8)),
        Some((53u8, 100u8)),
        Some((55u8, 100u8)),
        Some((57u8, 100u8)),
        Some((55u8, 100u8)),
        Some((53u8, 100u8)),
        Some((48u8, 100u8)),
        Some((50u8, 100u8)),
        None,
        None,
        None,
        None,
        None,
        None,
        Some((36u8, 100u8)),
    ]
}

/// The note-on event, on the first channel and without a timestamp, that
/// sounds `pitch` at `velocity`.
pub open spec fn note_on(pitch: u8, velocity: u8) -> MidiEvent {
    MidiEvent {
        message: MidiMessage { status: NOTE_ON, data1: pitch, data2: velocity },
        timestamp: 0,
    }
}

/// What a ping that finds the cursor on `step` emits: the note's event, or
/// nothing for a rest.
pub open spec fn event_of(step: Option<(u8, u8)>) -> Option<MidiEvent> {
    match step {
        Some((pitch, velocity)) => Some(note_on(pitch, velocity)),
        None => None,
    }
}

impl PingSequencer {
    #[verifier::type_invariant]
    spec fn inv(&self) -> bool {
        0 < self.steps@.len() && self.cursor < self.steps@.len()
    }

    /// The steps of the figure.
    pub closed spec fn steps(&self) -> Seq<Option<(u8, u8)>> {
        self.steps@
    }

    /// Index of the step that the next ping plays.
    pub closed spec fn cursor(&self) -> nat {
        self.cursor as nat
    }

    /// A sequencer over `steps`, of which there must be at least one, with
    /// the cursor on the first.
    pub fn new(steps: Vec<Option<(u8, u8)>>) -> (sequencer: Self)
        requires
            steps@.len() >= 1,
        ensures
            sequencer.steps() == steps@,
            sequencer.cursor() == 0,
    {
        PingSequencer { steps, cursor: 0 }
    }

    /// A sequencer over the standard figure.
    pub fn standard() -> (sequencer: Self)
        ensures
            sequencer.steps() == standard_steps(),
            sequencer.cursor() == 0,
    {
        let steps: Vec<Option<(u8, u8)>> = vec![
            Some((41u8, 100u8)),
            Some((48u8, 100u8)),
            Some((53u8, 100u8)),
            Some((55u8, 100u8)),
            Some((57u8, 100u8)),
            Some((55u8, 100u8)),
            Some((53u8, 100u8)),
            Some((48u8, 100u8)),
            Some((50u8, 100u8)),
            None,
            None,
            None,
            None,
            None,
            None,
            Some((36u8, 100u8)),
        ];
        assert(steps@ =~= standard_steps());
        PingSequencer { steps, cursor: 0 }
    }

    /// Index of the step that the next ping plays.
    pub fn position(&self) -> (cursor: usize)
        ensures
            cursor == self.cursor(),
            cursor < self.steps().len(),
    {
        proof {
            use_type_invariant(self);
        }
        self.cursor
    }

    /// Takes one ping: emits the event of the step under the cursor, if it
    /// is a note, and moves the cursor on, back to the start after the last
    /// step. A rest uses up the ping all the same.
    pub fn on_ping(&mut self) -> (event: Option<MidiEvent>)
        ensures
            event == event_of(old(self).steps()[old(self).cursor() as int]),
            final(self).steps() == old(self).steps(),
            old(self).cursor() < old(self).steps().len(),
            final(self).cursor() == if old(self).cursor() + 1 < old(self).steps().len() {
                old(self).cursor() + 1
            } else {
                0
            },
    {
        proof {
            use_type_invariant(&*self);
        }
        let len = self.steps.len();
        let event = match self.steps[self.cursor] {
            Some((pitch, velocity)) => Some(
                MidiEvent {
                    message: MidiMessage { status: NOTE_ON, data1: pitch, data2: velocity },
                    timestamp: 0,
                },
            ),
            None => None,
        };
        self.cursor = (self.cursor + 1) % len;
        proof {
            if old(self).cursor() + 1 < len {
                vstd::arithmetic::div_mod::lemma_small_mod(old(self).cursor() + 1, len as nat);
            } else {
                vstd::arithmetic::div_mod::lemma_mod_self_0(len as int);
            }
        }
        event
    }
}

/// Where the cursor stands after `pings` pings, in a figure of `len` steps.
pub open spec fn cursor_after(cursor: nat, pings: nat, len: nat) -> nat {
    (cursor + pings) % len
}

/// Each ping moves the cursor as `on_ping` says, so that after `pings` of
/// them it stands `pings` steps further round the figure; a whole figure's
/// worth of pings brings it back to where it was.
pub proof fn lemma_cursor_cycles(cursor: nat, pings: nat, len: nat)
    requires
        cursor < len,
    ensures
        cursor_after(cursor, 0, len) == cursor,
        cursor_after(cursor, pings, len) < len,
        cursor_after(cursor, pings + 1, len) == if cursor_after(cursor, pings, len) + 1 < len {
            cursor_after(cursor, pings, len) + 1
        } else {
            0
        },
        cursor_after(cursor, len, len) == cursor,
        cursor_after(cursor, pings + len, len) == cursor_after(cursor, pings, len),
{
    let here = cursor_after(cursor, pings, len);
    vstd::arithmetic::div_mod::lemma_small_mod(cursor, len);
    vstd::arithmetic::div_mod::lemma_mod_bound((cursor + pings) as int, len as int);
    vstd::arithmetic::div_mod::lemma_add_mod_noop((cursor + pings) as int, 1, len as int);
    vstd::arithmetic::div_mod::lemma_mod_add_multiples_vanish((cursor + pings) as int, len as int);
    vstd::arithmetic::div_mod::lemma_mod_add_multiples_vanish(cursor as int, len as int);
    if len == 1 {
    } else {
        vstd::arithmetic::div_mod::lemma_small_mod(1, len);
        if here + 1 < len {
            vstd::arithmetic::div_mod::lemma_small_mod(here + 1, len);
        } else {
            vstd::arithmetic::div_mod::lemma_mod_self_0(len as int);
        }
    }
}

} // verus!
