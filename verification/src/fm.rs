//! Control side of the FM voices: envelope stages, what a MIDI message asks
//! of a voice, and the bank that shares note-on events among its voices.

use crate::midi::{MidiDestination, MidiEvent, MidiMessage, CONTROL_CHANGE, NOTE_OFF, NOTE_ON};
use vstd::prelude::*;

verus! {

/// Stage of an attack/decay envelope.
#[derive(Clone, Copy, Debug, PartialEq, Eq, Structural)]
pub enum AdState {
    Off,
    Attack,
    Decay,
}

impl AdState {
    /// How far along its course a stage is: an envelope only ever moves to a
    /// later stage, unless it is triggered again.
    pub open spec fn rank(self) -> nat {
        match self {
            AdState::Attack => 0,
            AdState::Decay => 1,
            AdState::Off => 2,
        }
    }

    /// The stage that follows `self` after one step, where `segment_done`
    /// says whether the position within the segment has reached its end.
    pub open spec fn after_step(self, segment_done: bool) -> AdState {
        match self {
            AdState::Off => AdState::Off,
            AdState::Attack => if segment_done {
                AdState::Decay
            } else {
                AdState::Attack
            },
            AdState::Decay => if segment_done {
                AdState::Off
            } else {
                AdState::Decay
            },
        }
    }

    /// The stage after a run of steps, one flag for each.
    pub open spec fn after_steps(self, segments_done: Seq<bool>) -> AdState
        decreases segments_done.len(),
    {
        if segments_done.len() == 0 {
            self
        } else {
            self.after_steps(segments_done.drop_last()).after_step(segments_done.last())
        }
    }

    /// Advances the stage by one step. A finished attack gives way to decay,
    /// a finished decay to silence; silence lasts.
    pub fn step(&mut self, segment_done: bool)
        ensures
            *final(self) == old(self).after_step(segment_done),
    {
        match *self {
            AdState::Off => {},
            AdState::Attack => {
                if segment_done {
                    *self = AdState::Decay;
                }
            },
            AdState::Decay => {
                if segment_done {
                    *self = AdState::Off;
                }
            },
        }
    }

    /// Starts the envelope over, whatever stage it was in.
    pub fn trigger(&mut self)
        ensures
            *final(self) == AdState::Attack,
    {
        *self = AdState::Attack;
    }
}

/// A step keeps the stage or moves it to the next one: attack to decay,
/// decay to off. It never skips a stage, never goes back, and never leaves
/// off.
pub proof fn lemma_step_moves_forward(stage: AdState, segment_done: bool)
    ensures
        stage.after_step(segment_done) == stage || (stage == AdState::Attack && stage.after_step(
            segment_done,
        ) == AdState::Decay) || (stage == AdState::Decay && stage.after_step(segment_done)
            == AdState::Off),
        stage.rank() <= stage.after_step(segment_done).rank() <= stage.rank() + 1,
        stage == AdState::Off ==> stage.after_step(segment_done) == AdState::Off,
{
}

/// Over any run of steps the stage only moves forward, one stage a step
/// at most; an envelope that is off stays off.
pub proof fn lemma_steps_move_forward(stage: AdState, segments_done: Seq<bool>)
    ensures
        stage.rank() <= stage.after_steps(segments_done).rank() <= stage.rank()
            + segments_done.len(),
        stage == AdState::Off ==> stage.after_steps(segments_done) == AdState::Off,
    decreases segments_done.len(),
{
    if segments_done.len() > 0 {
        lemma_steps_move_forward(stage, segments_done.drop_last());
    }
}

/// MIDI note number of the A above middle C, to which voices are tuned.
pub const A4: u8 = 69;

/// Controller that sets the attack rate of the carrier's envelope.
pub const CC_CARRIER_ATTACK: u8 = 12;

/// Controller that sets the decay rate of the carrier's envelope.
pub const CC_CARRIER_DECAY: u8 = 13;

/// Controller that sets the attack rate of the modulator's envelope.
pub const CC_MODULATOR_ATTACK: u8 = 14;

/// Controller that sets the decay rate of the modulator's envelope.
pub const CC_MODULATOR_DECAY: u8 = 15;

/// What a MIDI message asks of an FM voice.
#[derive(Clone, Copy, Debug, PartialEq, Eq, Structural)]
pub enum VoiceCommand {
    /// Retune both operators to the note `semitones` above A4 (below it, if
    /// negative), set the modulation depth from `velocity`, and trigger.
    NoteOn { semitones: i32, velocity: u8 },
    /// Set the attack rate of the carrier's envelope from a controller value.
    CarrierAttack(u8),
    /// Set the decay rate of the carrier's envelope from a controller value.
    CarrierDecay(u8),
    /// Set the attack rate of the modulator's envelope from a controller value.
    ModulatorAttack(u8),
    /// Set the decay rate of the modulator's envelope from a controller value.
    ModulatorDecay(u8),
}

/// The command that `message` stands for, if a voice heeds it at all.
/// Note-off is not heeded: notes die away with their envelopes.
pub open spec fn command_of(message: MidiMessage) -> Option<VoiceCommand> {
    if message.status == NOTE_ON {
        Some(
            VoiceCommand::NoteOn {
                semitones: (message.data1 - A4) as i32,
                velocity: message.data2,
            },
        )
    } else if message.status == CONTROL_CHANGE {
        if message.data1 == CC_CARRIER_ATTACK {
            Some(VoiceCommand::CarrierAttack(message.data2))
        } else if message.data1 == CC_CARRIER_DECAY {
            Some(VoiceCommand::CarrierDecay(message.data2))
        } else if message.data1 == CC_MODULATOR_ATTACK {
            Some(VoiceCommand::ModulatorAttack(message.data2))
        } else if message.data1 == CC_MODULATOR_DECAY {
            Some(VoiceCommand::ModulatorDecay(message.data2))
        } else {
            None
        }
    } else {
        None
    }
}

impl VoiceCommand {
    /// Reads a command off a MIDI message.
    pub fn from_message(message: MidiMessage) -> (command: Option<VoiceCommand>)
        ensures
            command == command_of(message),
    {
        if message.status == NOTE_ON {
            let semitones: i32 = message.data1 as i32 - A4 as i32;
            Some(VoiceCommand::NoteOn { semitones, velocity: message.data2 })
        } else if message.status == CONTROL_CHANGE {
            if message.data1 == CC_CARRIER_ATTACK {
                Some(VoiceCommand::CarrierAttack(message.data2))
            } else if message.data1 == CC_CARRIER_DECAY {
                Some(VoiceCommand::CarrierDecay(message.data2))
            } else if message.data1 == CC_MODULATOR_ATTACK {
                Some(VoiceCommand::ModulatorAttack(message.data2))
            } else if message.data1 == CC_MODULATOR_DECAY {
                Some(VoiceCommand::ModulatorDecay(message.data2))
            } else {
                None
            }
        } else {
            None
        }
    }
}

/// A fixed set of voices that take turns at note-on events.
pub struct PolyFmSynth<V> {
    voices: Vec<V>,
    voice_ix: usize,
}

/// Whether a bank of voices `before`, with the voice at `ix` next in turn,
/// may be left as `after`, with `next` in turn, by one `event`.
///
/// A note-on goes to the voice in turn alone and passes the turn on; a
/// note-off goes to nobody; anything else goes to every voice.
pub open spec fn routes_event<V: MidiDestination>(
    before: Seq<V>,
    ix: nat,
    event: MidiEvent,
    after: Seq<V>,
    next: nat,
) -> bool {
    &&& after.len() == before.len()
    &&& if event.message.status == NOTE_ON {
        &&& next == (ix + 1) % before.len()
        &&& forall|j: int|
            0 <= j < before.len() ==> if j == ix {
                (#[trigger] before[j]).takes(seq![event], &after[j])
            } else {
                after[j] == before[j]
            }
    } else if event.message.status == NOTE_OFF {
        &&& next == ix
        &&& after == before
    } else {
        &&& next == ix
        &&& forall|j: int|
            0 <= j < before.len() ==> (#[trigger] before[j]).takes(seq![event], &after[j])
    }
}

/// Whether `trace` lists the states that a bank passes through while
/// `events` reach it one at a time: from `before` with `ix` in turn, to
/// `after` with `next` in turn.
pub open spec fn is_route<V: MidiDestination>(
    trace: Seq<(Seq<V>, nat)>,
    before: Seq<V>,
    ix: nat,
    events: Seq<MidiEvent>,
    after: Seq<V>,
    next: nat,
) -> bool {
    &&& trace.len() == events.len() + 1
    &&& trace[0] == (before, ix)
    &&& trace.last() == (after, next)
    &&& forall|i: int|
        0 <= i < events.len() ==> routes_event(
            (#[trigger] trace[i]).0,
            trace[i].1,
            events[i],
            trace[i + 1].0,
            trace[i + 1].1,
        )
}

/// Whether a bank may be left as `after`, with `next` in turn, by `events`
/// delivered one at a time in order.
pub open spec fn routes<V: MidiDestination>(
    before: Seq<V>,
    ix: nat,
    events: Seq<MidiEvent>,
    after: Seq<V>,
    next: nat,
) -> bool {
    exists|trace: Seq<(Seq<V>, nat)>| is_route(trace, before, ix, events, after, next)
}

impl<V> PolyFmSynth<V> {
    #[verifier::type_invariant]
    spec fn inv(&self) -> bool {
        0 < self.voices@.len() && self.voice_ix < self.voices@.len()
    }

    /// The voices, in the order of their turns.
    pub closed spec fn voices(&self) -> Seq<V> {
        self.voices@
    }

    /// Index of the voice that the next note-on goes to.
    pub closed spec fn voice_ix(&self) -> nat {
        self.voice_ix as nat
    }

    /// A bank of the given voices; the first of them is first in turn.
    pub fn new(voices: Vec<V>) -> (bank: Self)
        requires
            voices@.len() >= 1,
        ensures
            bank.voices() == voices@,
            bank.voice_ix() == 0,
    {
        PolyFmSynth { voices, voice_ix: 0 }
    }

    /// Number of voices.
    pub fn len(&self) -> (n: usize)
        ensures
            n == self.voices().len(),
            n >= 1,
    {
        proof {
            use_type_invariant(self);
        }
        self.voices.len()
    }

    /// Index of the voice that the next note-on goes to.
    pub fn next_voice(&self) -> (ix: usize)
        ensures
            ix == self.voice_ix(),
            ix < self.voices().len(),
    {
        proof {
            use_type_invariant(self);
        }
        self.voice_ix
    }

    /// The voice at `i`.
    pub fn voice(&self, i: usize) -> (voice: &V)
        requires
            i < self.voices().len(),
        ensures
            *voice == self.voices()[i as int],
    {
        &self.voices[i]
    }

    /// The voice at `i`, to be changed in place: the bank keeps its size and
    /// its turn.
    pub fn voice_mut(&mut self, i: usize) -> (voice: &mut V)
        requires
            i < old(self).voices().len(),
        ensures
            *voice == old(self).voices()[i as int],
            final(self).voices() == old(self).voices().update(i as int, *final(voice)),
            final(self).voice_ix() == old(self).voice_ix(),
    {
        proof {
            use_type_invariant(&*self);
        }
        &mut self.voices[i]
    }
}

impl<V: MidiDestination> MidiDestination for PolyFmSynth<V> {
    open spec fn takes(&self, events: Seq<MidiEvent>, after: &Self) -> bool {
        routes(self.voices(), self.voice_ix(), events, after.voices(), after.voice_ix())
    }

    fn process_events(&mut self, events: &[MidiEvent]) {
        proof {
            use_type_invariant(&*self);
        }
        let n = self.voices.len();
        let ghost mut trace = seq![(self.voices(), self.voice_ix())];
        let mut i: usize = 0;
        while i < events.len()
            invariant
                i <= events.len(),
                n == self.voices@.len(),
                0 < n,
                self.voice_ix < n,
                is_route(
                    trace,
                    old(self).voices(),
                    old(self).voice_ix(),
                    events@.take(i as int),
                    self.voices(),
                    self.voice_ix(),
                ),
            decreases events.len() - i,
        {
            let event = events[i];
            let single = [event];
            let ghost mid = self.voices();
            let ghost mid_ix = self.voice_ix();
            assert(single@ == seq![event]);
            if event.message.status == NOTE_ON {
                self.voices[self.voice_ix].process_events(&single);
                self.voice_ix = (self.voice_ix + 1) % n;
            } else if event.message.status == NOTE_OFF {
            } else {
                let mut k: usize = 0;
                while k < n
                    invariant
                        k <= n,
                        n == self.voices@.len(),
                        n == mid.len(),
                        self.voice_ix == mid_ix < n,
                        single@ == seq![event],
                        forall|j: int|
                            0 <= j < k ==> (#[trigger] mid[j]).takes(seq![event], &self.voices@[j]),
                        forall|j: int| k <= j < n ==> self.voices@[j] == mid[j],
                    decreases n - k,
                {
                    self.voices[k].process_events(&single);
                    k += 1;
                }
            }
            i += 1;
            proof {
                assert(routes_event(mid, mid_ix, event, self.voices(), self.voice_ix()));
                trace = trace.push((self.voices(), self.voice_ix()));
            }
        }
        proof {
            assert(events@.take(i as int) == events@);
        }
    }
}

/// A batch of one event is routed as that event is.
pub proof fn lemma_routes_one<V: MidiDestination>(
    before: Seq<V>,
    ix: nat,
    event: MidiEvent,
    after: Seq<V>,
    next: nat,
)
    ensures
        routes(before, ix, seq![event], after, next) <==> routes_event(
            before,
            ix,
            event,
            after,
            next,
        ),
{
    if routes_event(before, ix, event, after, next) {
        let trace = seq![(before, ix), (after, next)];
        assert(is_route(trace, before, ix, seq![event], after, next));
    }
    if routes(before, ix, seq![event], after, next) {
        let trace = choose|trace: Seq<(Seq<V>, nat)>|
            is_route(trace, before, ix, seq![event], after, next);
        assert(routes_event(trace[0].0, trace[0].1, seq![event][0], trace[1].0, trace[1].1));
    }
}

/// Two batches delivered one after the other are routed as the one batch
/// that they make together: how events are cut into batches does not show
/// in where they go.
pub proof fn lemma_routes_in_batches<V: MidiDestination>(
    before: Seq<V>,
    ix: nat,
    first: Seq<MidiEvent>,
    mid: Seq<V>,
    mid_ix: nat,
    second: Seq<MidiEvent>,
    after: Seq<V>,
    next: nat,
)
    requires
        routes(before, ix, first, mid, mid_ix),
        routes(mid, mid_ix, second, after, next),
    ensures
        routes(before, ix, first + second, after, next),
{
    let head = choose|trace: Seq<(Seq<V>, nat)>| is_route(trace, before, ix, first, mid, mid_ix);
    let tail = choose|trace: Seq<(Seq<V>, nat)>| is_route(trace, mid, mid_ix, second, after, next);
    let trace = head + tail.skip(1);
    let events = first + second;
    assert forall|i: int| 0 <= i < events.len() implies routes_event(
        (#[trigger] trace[i]).0,
        trace[i].1,
        events[i],
        trace[i + 1].0,
        trace[i + 1].1,
    ) by {
        if i < first.len() {
            assert(routes_event(head[i].0, head[i].1, first[i], head[i + 1].0, head[i + 1].1));
            if i + 1 == first.len() {
                assert(head[i + 1] == tail[0]);
            }
        } else {
            let j = i - first.len();
            assert(routes_event(tail[j].0, tail[j].1, second[j], tail[j + 1].0, tail[j + 1].1));
            if j == 0 {
                assert(trace[i] == head.last());
            }
        }
    }
    assert(is_route(trace, before, ix, events, after, next));
}

/// Index of the voice that takes the `k`-th of a run of note-on events,
/// counted from zero, in a bank of `n` voices where `ix` was first in turn.
pub open spec fn turn(ix: nat, k: nat, n: nat) -> nat {
    (ix + k) % n
}

/// Number of note-on events in a batch.
pub open spec fn note_ons(events: Seq<MidiEvent>) -> nat
    decreases events.len(),
{
    if events.len() == 0 {
        0
    } else if events.last().message.status == NOTE_ON {
        note_ons(events.drop_last()) + 1
    } else {
        note_ons(events.drop_last())
    }
}

/// Along a trace the bank keeps its size, and the turn moves on by one
/// voice for every note-on so far.
proof fn lemma_turn_along_trace<V: MidiDestination>(
    trace: Seq<(Seq<V>, nat)>,
    before: Seq<V>,
    ix: nat,
    events: Seq<MidiEvent>,
    after: Seq<V>,
    next: nat,
    m: nat,
)
    requires
        ix < before.len(),
        is_route(trace, before, ix, events, after, next),
        m <= events.len(),
    ensures
        trace[m as int].0.len() == before.len(),
        trace[m as int].1 == turn(ix, note_ons(events.take(m as int)), before.len()),
    decreases m,
{
    let n = before.len();
    if m == 0 {
        assert(events.take(0).len() == 0);
        vstd::arithmetic::div_mod::lemma_small_mod(ix, n);
    } else {
        let p = (m - 1) as nat;
        lemma_turn_along_trace(trace, before, ix, events, after, next, p);
        let here = trace[p as int];
        let there = trace[m as int];
        let count = note_ons(events.take(p as int));
        assert(routes_event(here.0, here.1, events[p as int], there.0, there.1));
        assert(events.take(m as int).drop_last() == events.take(p as int));
        assert(events.take(m as int).last() == events[p as int]);
        if events[p as int].message.status == NOTE_ON {
            vstd::arithmetic::div_mod::lemma_add_mod_noop((ix + count) as int, 1, n as int);
            vstd::arithmetic::div_mod::lemma_mod_bound((ix + count) as int, n as int);
            if n == 1 {
                vstd::arithmetic::div_mod::lemma_mod_self_0(1);
            } else {
                vstd::arithmetic::div_mod::lemma_small_mod(1, n);
            }
        }
    }
}

/// Whatever else a batch holds, it moves the turn on by one voice for each
/// of its note-on events, round the bank, and leaves the bank its size.
pub proof fn lemma_turn_counts_note_ons<V: MidiDestination>(
    before: Seq<V>,
    ix: nat,
    events: Seq<MidiEvent>,
    after: Seq<V>,
    next: nat,
)
    requires
        ix < before.len(),
        routes(before, ix, events, after, next),
    ensures
        after.len() == before.len(),
        next == turn(ix, note_ons(events), before.len()),
        next < before.len(),
{
    let trace = choose|trace: Seq<(Seq<V>, nat)>| is_route(trace, before, ix, events, after, next);
    lemma_turn_along_trace(trace, before, ix, events, after, next, events.len());
    assert(events.take(events.len() as int) == events);
    vstd::arithmetic::div_mod::lemma_mod_bound(
        (ix + note_ons(events)) as int,
        before.len() as int,
    );
}

/// Within one round the turns wrap around at most once.
proof fn lemma_turn_unwrapped(ix: nat, k: nat, n: nat)
    requires
        ix < n,
        k <= n,
    ensures
        turn(ix, k, n) == if ix + k < n {
            ix + k
        } else {
            (ix + k - n) as nat
        },
{
    if ix + k < n {
        vstd::arithmetic::div_mod::lemma_small_mod(ix + k, n);
    } else {
        vstd::arithmetic::div_mod::lemma_small_mod((ix + k - n) as nat, n);
        vstd::arithmetic::div_mod::lemma_mod_sub_multiples_vanish((ix + k) as int, n as int);
    }
}

/// The first `m` states of a trace of note-on events: each event so far went
/// to the voice whose turn it was, and left every other voice alone.
proof fn lemma_round_robin_prefix<V: MidiDestination>(
    trace: Seq<(Seq<V>, nat)>,
    before: Seq<V>,
    ix: nat,
    events: Seq<MidiEvent>,
    after: Seq<V>,
    next: nat,
    m: nat,
)
    requires
        ix < before.len(),
        events.len() <= before.len(),
        forall|k: int| 0 <= k < events.len() ==> (#[trigger] events[k]).message.status == NOTE_ON,
        is_route(trace, before, ix, events, after, next),
        m <= events.len(),
    ensures
        trace[m as int].0.len() == before.len(),
        trace[m as int].1 == turn(ix, m, before.len()),
        forall|k: nat|
            k < m ==> (#[trigger] before[turn(ix, k, before.len()) as int]).takes(
                seq![events[k as int]],
                &trace[m as int].0[turn(ix, k, before.len()) as int],
            ),
        forall|j: int|
            0 <= j < before.len() && (forall|k: nat| k < m ==> j != #[trigger] turn(
                ix,
                k,
                before.len(),
            )) ==> (#[trigger] trace[m as int].0[j]) == before[j],
    decreases m,
{
    let n = before.len();
    if m == 0 {
        lemma_turn_unwrapped(ix, 0, n);
    } else {
        let p = (m - 1) as nat;
        lemma_round_robin_prefix(trace, before, ix, events, after, next, p);
        let here = trace[p as int];
        let there = trace[m as int];
        let t = turn(ix, p, n);
        assert(routes_event(here.0, here.1, events[p as int], there.0, there.1));
        lemma_turn_unwrapped(ix, p, n);
        lemma_turn_unwrapped(ix, m, n);
        assert(there.1 == turn(ix, m, n)) by {
            if t + 1 < n {
                vstd::arithmetic::div_mod::lemma_small_mod(t + 1, n);
            } else {
                vstd::arithmetic::div_mod::lemma_mod_self_0(n as int);
            }
        }
        assert forall|k: nat| k < p implies t != #[trigger] turn(ix, k, n) by {
            lemma_turn_unwrapped(ix, k, n);
        }
        assert(here.0[t as int] == before[t as int]);
        assert forall|k: nat| k < m implies (#[trigger] before[turn(ix, k, n) as int]).takes(
            seq![events[k as int]],
            &there.0[turn(ix, k, n) as int],
        ) by {
            lemma_turn_unwrapped(ix, k, n);
            if k < p {
                assert(turn(ix, k, n) != t);
                assert(there.0[turn(ix, k, n) as int] == here.0[turn(ix, k, n) as int]);
            } else {
                assert(here.0[t as int].takes(seq![events[p as int]], &there.0[t as int]));
            }
        }
        assert forall|j: int|
            0 <= j < n && (forall|k: nat| k < m ==> j != #[trigger] turn(ix, k, n)) implies (
        #[trigger] there.0[j]) == before[j] by {
            assert(j != turn(ix, p, n));
            assert forall|k: nat| k < p implies j != #[trigger] turn(ix, k, n) by {
                assert(k < m);
            }
            assert(there.0[j] == here.0[j]);
        }
    }
}

/// Round robin: of a run of note-on events no longer than the bank, the
/// `k`-th goes to the voice `k` places after the one first in turn, wrapping
/// around at the end of the bank. No two of them go to the same voice, the
/// voices that had no turn are as they were, and after exactly as many events
/// as there are voices the turn is back where it started.
pub proof fn lemma_round_robin<V: MidiDestination>(
    before: Seq<V>,
    ix: nat,
    events: Seq<MidiEvent>,
    after: Seq<V>,
    next: nat,
)
    requires
        ix < before.len(),
        events.len() <= before.len(),
        forall|k: int| 0 <= k < events.len() ==> (#[trigger] events[k]).message.status == NOTE_ON,
        routes(before, ix, events, after, next),
    ensures
        after.len() == before.len(),
        next == turn(ix, events.len(), before.len()),
        events.len() == before.len() ==> next == ix,
        forall|k: nat|
            k < events.len() ==> (#[trigger] before[turn(ix, k, before.len()) as int]).takes(
                seq![events[k as int]],
                &after[turn(ix, k, before.len()) as int],
            ),
        forall|k: nat, l: nat|
            k < l < events.len() ==> #[trigger] turn(ix, k, before.len()) != #[trigger] turn(
                ix,
                l,
                before.len(),
            ),
        forall|j: int|
            0 <= j < before.len() && (forall|k: nat|
                k < events.len() ==> j != #[trigger] turn(ix, k, before.len())) ==> (
            #[trigger] after[j]) == before[j],
        ix == 0 ==> forall|k: nat| k < events.len() ==> #[trigger] turn(ix, k, before.len()) == k,
{
    let n = before.len();
    let trace = choose|trace: Seq<(Seq<V>, nat)>| is_route(trace, before, ix, events, after, next);
    lemma_round_robin_prefix(trace, before, ix, events, after, next, events.len());
    lemma_turn_unwrapped(ix, events.len(), n);
    assert forall|k: nat, l: nat| k < l < events.len() implies #[trigger] turn(ix, k, n)
        != #[trigger] turn(ix, l, n) by {
        lemma_turn_unwrapped(ix, k, n);
        lemma_turn_unwrapped(ix, l, n);
    }
    assert forall|k: nat| ix == 0 && k < events.len() implies #[trigger] turn(ix, k, n) == k by {
        lemma_turn_unwrapped(ix, k, n);
    }
}

} // verus!
