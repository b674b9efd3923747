use audio_synth::engine::Engine;
use audio_synth::error::SynthError;
use audio_synth::message::{Message, AMPLITUDE_UNIT};
use audio_synth::voice::Voice;

#[test]
fn engine_starts_at_unit_gain() {
    let engine = Engine::new(44100, 2, 4).unwrap();
    assert_eq!(engine.amplitude, AMPLITUDE_UNIT);
    assert_eq!(engine.pool.polyphony(), 4);
    assert_eq!(engine.channels, 2);
    assert!(matches!(Engine::new(44100, 2, 0), Err(SynthError::InvalidParameter)));
    assert!(matches!(Engine::new(0, 2, 1), Err(SynthError::InvalidParameter)));
    assert!(matches!(Engine::new(44100, 0, 1), Err(SynthError::InvalidParameter)));
    assert!(matches!(Engine::new(44100, 1, 1025), Err(SynthError::InvalidParameter)));
}

#[test]
fn messages_apply_in_order() {
    let mut engine = Engine::new(44100, 2, 2).unwrap();
    let messages = vec![
        Message::NoteTrigger(220),
        Message::SetAmplitude(100),
        Message::SetFrequency(330),
        Message::NoteTrigger(440),
        Message::SetAmplitude(32768),
    ];
    assert_eq!(engine.apply_all(&messages), Ok(()));
    assert_eq!(engine.amplitude, 32768);
    assert_eq!(engine.pool.voices[0].frequency, 330);
    assert_eq!(engine.pool.voices[1].frequency, 440);
    assert!(engine.pool.voices[0].active && engine.pool.voices[1].active);
}

#[test]
fn corrected_message_is_reported_and_the_rest_applied() {
    let mut engine = Engine::new(44100, 2, 2).unwrap();
    let messages = vec![Message::NoteTrigger(0), Message::SetAmplitude(7)];
    assert_eq!(engine.apply_all(&messages), Err(SynthError::InvalidParameter));
    assert_eq!(engine.pool.voices[0].frequency, 1);
    assert!(engine.pool.voices[0].active);
    assert_eq!(engine.amplitude, 7);
    assert_eq!(engine.apply(Message::SetFrequency(0)), Err(SynthError::InvalidParameter));
    assert_eq!(engine.apply(Message::SetAmplitude(0)), Ok(()));
    assert_eq!(engine.apply(Message::SetFrequency(5)), Ok(()));
}

#[test]
fn no_message_leaves_the_engine_unchanged() {
    let mut engine = Engine::new(44100, 2, 3).unwrap();
    engine.apply(Message::NoteTrigger(440)).unwrap();
    engine.apply(Message::SetAmplitude(500)).unwrap();
    engine.next_sample();
    let voices: Vec<Voice> = engine.pool.voices.clone();
    assert_eq!(engine.apply_all(&Vec::new()), Ok(()));
    assert_eq!(engine.pool.voices, voices);
    assert_eq!(engine.amplitude, 500);
    assert_eq!(engine.pool.sample_rate, 44100);
}

#[test]
fn draining_an_empty_queue_changes_nothing() {
    let (sender, receiver) = crossbeam_channel::bounded::<Message>(16);
    let mut engine = Engine::new(44100, 2, 3).unwrap();
    engine.apply(Message::NoteTrigger(440)).unwrap();
    let voices: Vec<Voice> = engine.pool.voices.clone();
    assert_eq!(engine.drain_queue(&receiver, 1024), 0);
    assert_eq!(engine.pool.voices, voices);
    assert_eq!(engine.amplitude, AMPLITUDE_UNIT);
    drop(sender);
    assert_eq!(engine.drain_queue(&receiver, 1024), 0);
    assert_eq!(engine.pool.voices, voices);
}

#[test]
fn draining_applies_what_was_sent() {
    let (sender, receiver) = crossbeam_channel::bounded::<Message>(16);
    sender.send(Message::NoteTrigger(220)).unwrap();
    sender.send(Message::NoteTrigger(440)).unwrap();
    sender.send(Message::SetAmplitude(1234)).unwrap();
    let mut engine = Engine::new(44100, 2, 2).unwrap();
    assert_eq!(engine.drain_queue(&receiver, 1024), 3);
    assert_eq!(engine.pool.voices[0].frequency, 220);
    assert_eq!(engine.pool.voices[1].frequency, 440);
    assert_eq!(engine.amplitude, 1234);
    assert!(receiver.is_empty());
}

#[test]
fn draining_stops_at_the_limit() {
    let (sender, receiver) = crossbeam_channel::bounded::<Message>(16);
    for a in 1..=5u32 {
        sender.send(Message::SetAmplitude(a)).unwrap();
    }
    let mut engine = Engine::new(44100, 2, 1).unwrap();
    assert_eq!(engine.drain_queue(&receiver, 2), 2);
    assert_eq!(engine.amplitude, 2);
    assert_eq!(receiver.len(), 3);
    assert_eq!(engine.drain_queue(&receiver, 0), 0);
    assert_eq!(engine.drain_queue(&receiver, 10), 3);
    assert_eq!(engine.amplitude, 5);
}

#[test]
fn gain_scales_the_sample_toward_zero() {
    let mut engine = Engine::new(44100, 2, 1).unwrap();
    engine.apply(Message::NoteTrigger(440)).unwrap();
    engine.apply(Message::SetAmplitude(32768)).unwrap();
    assert_eq!(engine.next_sample(), 16384);
    // 32115 / 2 rounded toward zero
    assert_eq!(engine.next_sample(), 16057);
    for _ in 2..99 {
        engine.next_sample();
    }
    // -31965 / 2 rounded toward zero
    assert_eq!(engine.next_sample(), -15982);
    engine.apply(Message::SetAmplitude(1)).unwrap();
    engine.next_sample();
    // -31965 / 65536 rounded toward zero is zero, not minus one
    engine.pool.voices[0].oscillator.phase = 99;
    assert_eq!(engine.next_sample(), 0);
    engine.apply(Message::SetAmplitude(0)).unwrap();
    assert_eq!(engine.next_sample(), 0);
    engine.apply(Message::SetAmplitude(3 * AMPLITUDE_UNIT)).unwrap();
    assert_eq!(engine.next_sample(), 3 * 32115);
}

#[test]
fn frame_gets_one_sample_on_every_channel() {
    let mut engine = Engine::new(44100, 2, 2).unwrap();
    engine.apply(Message::NoteTrigger(440)).unwrap();
    let mut frame: Vec<i64> = vec![0, 0];
    engine.fill_frame(&mut frame);
    assert_eq!(frame, vec![32768, 32768]);
    engine.fill_frame(&mut frame);
    assert_eq!(frame, vec![32115, 32115]);
    let mut none: Vec<i64> = Vec::new();
    engine.fill_frame(&mut none);
    assert!(none.is_empty());
    assert_eq!(engine.pool.voices[0].oscillator.phase, 3);
}

#[test]
fn engine_is_well_formed_while_it_runs() {
    let mut engine = Engine::new(44100, 2, 2).unwrap();
    assert!(engine.is_wf());
    engine.apply(Message::NoteTrigger(0)).unwrap_err();
    engine.next_sample();
    assert!(engine.is_wf());
    engine.channels = 0;
    assert!(!engine.is_wf());
    engine.channels = 1;
    engine.pool.voices[0].oscillator.frequency = 0;
    assert!(!engine.is_wf());
}
