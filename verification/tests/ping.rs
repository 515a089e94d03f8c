use kirskuna::midi::{MidiEvent, MidiMessage};
use kirskuna::ping::PingSequencer;

fn note_on(pitch: u8, velocity: u8) -> MidiEvent {
    MidiEvent { message: MidiMessage { status: 0x90, data1: pitch, data2: velocity }, timestamp: 0 }
}

#[test]
fn standard_figure_plays_nine_notes_six_rests_and_a_low_note() {
    let mut sequencer = PingSequencer::standard();
    let played: Vec<Option<MidiEvent>> = (0..16).map(|_| sequencer.on_ping()).collect();
    let expected = vec![
        Some(note_on(41, 100)),
        Some(note_on(48, 100)),
        Some(note_on(53, 100)),
        Some(note_on(55, 100)),
        Some(note_on(57, 100)),
        Some(note_on(55, 100)),
        Some(note_on(53, 100)),
        Some(note_on(48, 100)),
        Some(note_on(50, 100)),
        None,
        None,
        None,
        None,
        None,
        None,
        Some(note_on(36, 100)),
    ];
    assert_eq!(played, expected);
}

#[test]
fn standard_figure_wraps_after_sixteen_pings() {
    let mut sequencer = PingSequencer::standard();
    assert_eq!(sequencer.position(), 0);
    for k in 0..16 {
        assert_eq!(sequencer.position(), k);
        sequencer.on_ping();
    }
    assert_eq!(sequencer.position(), 0);
    assert_eq!(sequencer.on_ping(), Some(note_on(41, 100)));
    assert_eq!(sequencer.position(), 1);
}

#[test]
fn rest_uses_up_a_ping() {
    let mut sequencer = PingSequencer::new(vec![None, Some((60, 5))]);
    assert_eq!(sequencer.on_ping(), None);
    assert_eq!(sequencer.position(), 1);
    assert_eq!(sequencer.on_ping(), Some(note_on(60, 5)));
    assert_eq!(sequencer.position(), 0);
    assert_eq!(sequencer.on_ping(), None);
}

#[test]
fn figure_of_one_step_repeats_it() {
    let mut sequencer = PingSequencer::new(vec![Some((1, 2))]);
    for _ in 0..3 {
        assert_eq!(sequencer.on_ping(), Some(note_on(1, 2)));
        assert_eq!(sequencer.position(), 0);
    }
}
