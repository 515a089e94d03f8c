use kirskuna::fm::{AdState, PolyFmSynth, VoiceCommand};
use kirskuna::midi::{MidiDestination, MidiEvent, MidiMessage};

fn event(status: u8, data1: u8, data2: u8) -> MidiEvent {
    MidiEvent { message: MidiMessage { status, data1, data2 }, timestamp: 0 }
}

/// A voice that keeps the batches it was handed.
#[derive(Debug, Default, PartialEq)]
struct Recorder {
    batches: Vec<Vec<MidiEvent>>,
}

impl MidiDestination for Recorder {
    fn process_events(&mut self, events: &[MidiEvent]) {
        self.batches.push(events.to_vec());
    }
}

fn bank(n: usize) -> PolyFmSynth<Recorder> {
    PolyFmSynth::new((0..n).map(|_| Recorder::default()).collect())
}

fn batches(bank: &PolyFmSynth<Recorder>) -> Vec<Vec<Vec<MidiEvent>>> {
    (0..bank.len()).map(|i| bank.voice(i).batches.clone()).collect()
}

#[test]
fn envelope_stages_follow_one_another() {
    let mut stage = AdState::Off;
    stage.step(true);
    assert_eq!(stage, AdState::Off);
    stage.trigger();
    assert_eq!(stage, AdState::Attack);
    stage.step(false);
    assert_eq!(stage, AdState::Attack);
    stage.step(true);
    assert_eq!(stage, AdState::Decay);
    stage.step(false);
    assert_eq!(stage, AdState::Decay);
    stage.step(true);
    assert_eq!(stage, AdState::Off);
    stage.step(false);
    assert_eq!(stage, AdState::Off);
}

#[test]
fn envelope_trigger_forces_attack_from_every_stage() {
    for start in [AdState::Off, AdState::Attack, AdState::Decay] {
        let mut stage = start;
        stage.trigger();
        assert_eq!(stage, AdState::Attack);
    }
}

#[test]
fn note_on_reads_semitones_from_a4() {
    let a4 = VoiceCommand::from_message(MidiMessage { status: 0x90, data1: 69, data2: 127 });
    assert_eq!(a4, Some(VoiceCommand::NoteOn { semitones: 0, velocity: 127 }));
    let c5 = VoiceCommand::from_message(MidiMessage { status: 0x90, data1: 72, data2: 100 });
    assert_eq!(c5, Some(VoiceCommand::NoteOn { semitones: 3, velocity: 100 }));
    let lowest = VoiceCommand::from_message(MidiMessage { status: 0x90, data1: 0, data2: 1 });
    assert_eq!(lowest, Some(VoiceCommand::NoteOn { semitones: -69, velocity: 1 }));
    let highest = VoiceCommand::from_message(MidiMessage { status: 0x90, data1: 255, data2: 0 });
    assert_eq!(highest, Some(VoiceCommand::NoteOn { semitones: 186, velocity: 0 }));
}

#[test]
fn controllers_twelve_to_fifteen_set_envelope_rates() {
    let read = |data1, data2| VoiceCommand::from_message(MidiMessage { status: 0xB0, data1, data2 });
    assert_eq!(read(12, 127), Some(VoiceCommand::CarrierAttack(127)));
    assert_eq!(read(12, 0), Some(VoiceCommand::CarrierAttack(0)));
    assert_eq!(read(13, 64), Some(VoiceCommand::CarrierDecay(64)));
    assert_eq!(read(14, 1), Some(VoiceCommand::ModulatorAttack(1)));
    assert_eq!(read(15, 99), Some(VoiceCommand::ModulatorDecay(99)));
    assert_eq!(read(11, 5), None);
    assert_eq!(read(16, 5), None);
    assert_eq!(read(1, 5), None);
}

#[test]
fn note_off_and_other_messages_ask_nothing_of_a_voice() {
    let read = |status| VoiceCommand::from_message(MidiMessage { status, data1: 69, data2: 127 });
    assert_eq!(read(0x80), None);
    assert_eq!(read(0x91), None);
    assert_eq!(read(0xB1), None);
    assert_eq!(read(0xE0), None);
    assert_eq!(read(0x00), None);
}

#[test]
fn bank_starts_with_first_voice_in_turn() {
    let bank = bank(8);
    assert_eq!(bank.len(), 8);
    assert_eq!(bank.next_voice(), 0);
}

#[test]
fn bank_hands_note_ons_round_robin() {
    let mut bank = bank(2);
    let first = event(0x90, 69, 127);
    bank.process_events(&[first]);
    assert_eq!(bank.next_voice(), 1);
    assert_eq!(batches(&bank), vec![vec![vec![first]], vec![]]);

    let second = event(0x90, 72, 127);
    bank.process_events(&[second]);
    assert_eq!(bank.next_voice(), 0);
    assert_eq!(batches(&bank), vec![vec![vec![first]], vec![vec![second]]]);

    let third = event(0x90, 60, 1);
    bank.process_events(&[third]);
    assert_eq!(bank.next_voice(), 1);
    assert_eq!(batches(&bank), vec![vec![vec![first], vec![third]], vec![vec![second]]]);
}

#[test]
fn bank_of_n_voices_gives_n_note_ons_to_n_different_voices() {
    let n = 5;
    let mut bank = bank(n);
    let notes: Vec<MidiEvent> = (0..n as u8).map(|k| event(0x90, 60 + k, 100)).collect();
    bank.process_events(&notes);
    assert_eq!(bank.next_voice(), 0);
    for (k, note) in notes.iter().enumerate() {
        assert_eq!(bank.voice(k).batches, vec![vec![*note]]);
    }
    let one_more = event(0x90, 99, 100);
    bank.process_events(&[one_more]);
    assert_eq!(bank.next_voice(), 1);
    assert_eq!(bank.voice(0).batches, vec![vec![notes[0]], vec![one_more]]);
}

#[test]
fn bank_ignores_note_off() {
    let mut bank = bank(3);
    bank.process_events(&[event(0x80, 69, 0), event(0x80, 70, 0)]);
    assert_eq!(bank.next_voice(), 0);
    assert_eq!(batches(&bank), vec![Vec::<Vec<MidiEvent>>::new(); 3]);
}

#[test]
fn bank_broadcasts_everything_else() {
    let mut bank = bank(3);
    let cc = event(0xB0, 12, 127);
    let bend = event(0xE0, 0, 64);
    bank.process_events(&[cc, bend]);
    assert_eq!(bank.next_voice(), 0);
    for voice in batches(&bank) {
        assert_eq!(voice, vec![vec![cc], vec![bend]]);
    }
}

#[test]
fn bank_keeps_the_order_of_a_mixed_batch() {
    let mut bank = bank(2);
    let n1 = event(0x90, 60, 100);
    let cc = event(0xB0, 13, 10);
    let off = event(0x80, 60, 0);
    let n2 = event(0x90, 62, 100);
    let n3 = event(0x90, 64, 100);
    bank.process_events(&[n1, cc, off, n2, n3]);
    assert_eq!(bank.next_voice(), 1);
    assert_eq!(
        batches(&bank),
        vec![vec![vec![n1], vec![cc], vec![n3]], vec![vec![cc], vec![n2]]]
    );
}

#[test]
fn bank_of_one_voice_gives_it_every_note() {
    let mut bank = bank(1);
    let n1 = event(0x90, 60, 100);
    let n2 = event(0x90, 61, 100);
    bank.process_events(&[n1, n2]);
    assert_eq!(bank.next_voice(), 0);
    assert_eq!(batches(&bank), vec![vec![vec![n1], vec![n2]]]);
}

#[test]
fn bank_of_banks_routes_through_both_levels() {
    let inner = |n: usize| PolyFmSynth::new((0..n).map(|_| Recorder::default()).collect::<Vec<_>>());
    let mut outer = PolyFmSynth::new(vec![inner(2), inner(2)]);
    let notes: Vec<MidiEvent> = (0..4u8).map(|k| event(0x90, 60 + k, 100)).collect();
    outer.process_events(&notes);
    assert_eq!(outer.next_voice(), 0);
    assert_eq!(outer.voice(0).voice(0).batches, vec![vec![notes[0]]]);
    assert_eq!(outer.voice(1).voice(0).batches, vec![vec![notes[1]]]);
    assert_eq!(outer.voice(0).voice(1).batches, vec![vec![notes[2]]]);
    assert_eq!(outer.voice(1).voice(1).batches, vec![vec![notes[3]]]);
}

#[test]
fn bank_voice_can_be_changed_in_place() {
    let mut bank = bank(2);
    bank.voice_mut(1).batches.push(vec![]);
    assert_eq!(bank.voice(1).batches, vec![Vec::<MidiEvent>::new()]);
    assert_eq!(bank.voice(0).batches, Vec::<Vec<MidiEvent>>::new());
    assert_eq!(bank.next_voice(), 0);
}

#[test]
fn bank_turn_moves_by_the_number_of_note_ons_in_a_batch() {
    let mut bank = bank(3);
    let batch = vec![
        event(0xB0, 12, 1),
        event(0x90, 60, 100),
        event(0x80, 60, 0),
        event(0x90, 61, 100),
        event(0xE0, 0, 0),
        event(0x90, 62, 100),
        event(0x90, 63, 100),
    ];
    bank.process_events(&batch);
    assert_eq!(bank.next_voice(), 4 % 3);
    bank.process_events(&[]);
    assert_eq!(bank.next_voice(), 1);
}

#[test]
fn bank_treats_other_channels_as_broadcast() {
    let mut bank = bank(2);
    let on_second_channel = event(0x91, 60, 100);
    bank.process_events(&[on_second_channel]);
    assert_eq!(bank.next_voice(), 0);
    assert_eq!(
        batches(&bank),
        vec![vec![vec![on_second_channel]], vec![vec![on_second_channel]]]
    );
}
