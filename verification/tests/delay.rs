use kirskuna::delay::Delay;
use kirskuna::midi::{MidiDestination, MidiEvent, MidiMessage};

const SILENCE: [f32; 2] = [0.0, 0.0];

#[test]
fn delay_emits_impulse_after_exactly_its_length() {
    let mut delay = Delay::new(3, SILENCE);
    let mut block = [[1.0f32, -1.0f32], SILENCE, SILENCE, SILENCE, SILENCE];
    delay.audio_requested(&mut block);
    assert_eq!(block, [SILENCE, SILENCE, SILENCE, [1.0, -1.0], SILENCE]);
}

#[test]
fn delay_round_trip_across_blocks_of_its_own_length() {
    let mut delay = Delay::new(64, SILENCE);
    let mut first = vec![SILENCE; 64];
    first[0] = [1.0, 1.0];
    delay.audio_requested(&mut first);
    assert!(first.iter().all(|frame| *frame == SILENCE));

    let mut second = vec![SILENCE; 64];
    delay.audio_requested(&mut second);
    assert_eq!(second[0], [1.0, 1.0]);
    assert!(second[1..].iter().all(|frame| *frame == SILENCE));

    let mut third = vec![SILENCE; 64];
    delay.audio_requested(&mut third);
    assert!(third.iter().all(|frame| *frame == SILENCE));
}

#[test]
fn delay_output_does_not_depend_on_block_boundaries() {
    let input: Vec<[f32; 2]> = (0..23).map(|k| [k as f32, -(k as f32)]).collect();

    let mut whole = input.clone();
    Delay::new(5, SILENCE).audio_requested(&mut whole);

    let mut pieces = input.clone();
    let mut delay = Delay::new(5, SILENCE);
    let (head, tail) = pieces.split_at_mut(7);
    delay.audio_requested(head);
    let (middle, last) = tail.split_at_mut(1);
    delay.audio_requested(middle);
    delay.audio_requested(last);

    assert_eq!(whole, pieces);
    for (t, frame) in whole.iter().enumerate() {
        let expected = if t < 5 { SILENCE } else { input[t - 5] };
        assert_eq!(*frame, expected);
    }
}

#[test]
fn delay_of_one_frame_lags_by_one() {
    let mut delay = Delay::new(1, 0i32);
    let mut block = [10, 20, 30];
    delay.audio_requested(&mut block);
    assert_eq!(block, [0, 10, 20]);
    let mut next = [40];
    delay.audio_requested(&mut next);
    assert_eq!(next, [30]);
}

#[test]
fn delay_handles_an_empty_block() {
    let mut delay = Delay::new(2, 7u8);
    let mut block: [u8; 0] = [];
    delay.audio_requested(&mut block);
    let mut next = [1, 2, 3];
    delay.audio_requested(&mut next);
    assert_eq!(next, [7, 7, 1]);
}

#[test]
fn delay_ignores_midi() {
    let mut delay = Delay::new(2, 0i32);
    let mut block = [5];
    delay.audio_requested(&mut block);
    let event = MidiEvent {
        message: MidiMessage { status: 0x90, data1: 69, data2: 127 },
        timestamp: 0,
    };
    delay.process_events(&[event, event]);
    let mut next = [6, 7, 8];
    delay.audio_requested(&mut next);
    assert_eq!(next, [0, 5, 6]);
}

#[test]
fn delay_render_is_repeatable() {
    let input: Vec<[f32; 2]> = (0..40).map(|k| [(k as f32).sin(), (k as f32).cos()]).collect();
    let render = || {
        let mut delay = Delay::new(7, SILENCE);
        let mut first = input[..16].to_vec();
        let mut second = input[16..].to_vec();
        delay.audio_requested(&mut first);
        delay.audio_requested(&mut second);
        (first, second)
    };
    let once = render();
    let twice = render();
    assert_eq!(once.0.iter().map(|f| [f[0].to_bits(), f[1].to_bits()]).collect::<Vec<_>>(),
        twice.0.iter().map(|f| [f[0].to_bits(), f[1].to_bits()]).collect::<Vec<_>>());
    assert_eq!(once.1.iter().map(|f| [f[0].to_bits(), f[1].to_bits()]).collect::<Vec<_>>(),
        twice.1.iter().map(|f| [f[0].to_bits(), f[1].to_bits()]).collect::<Vec<_>>());
}
