use audio_synth::error::SynthError;
use audio_synth::voice::Voice;

#[test]
fn voice_starts_silent() {
    let v = Voice::new(440);
    assert!(!v.is_active());
    assert_eq!(v.frequency, 440);
    assert_eq!(v.oscillator.frequency, 440);
    assert_eq!(v.oscillator.phase, 0);
}

#[test]
fn note_on_is_idempotent() {
    let mut v = Voice::new(440);
    v.note_on();
    let once = v;
    v.note_on();
    assert_eq!(v, once);
    assert!(v.is_active());
}

#[test]
fn note_off_on_silent_voice_changes_nothing() {
    let mut v = Voice::new(330);
    let before = v;
    v.note_off();
    assert!(!v.active);
    assert_eq!(v.frequency, 330);
    assert_eq!(v, before);
}

#[test]
fn note_off_keeps_pitch_and_phase() {
    let mut v = Voice::new(441);
    v.note_on();
    v.next_sample(44100);
    v.next_sample(44100);
    v.note_off();
    assert!(!v.active);
    assert_eq!(v.frequency, 441);
    assert_eq!(v.oscillator.phase, 2);
}

#[test]
fn voice_set_frequency_reaches_the_oscillator() {
    let mut v = Voice::new(440);
    assert_eq!(v.set_frequency(220), Ok(()));
    assert_eq!(v.frequency, 220);
    assert_eq!(v.oscillator.frequency, 220);
    assert!(!v.active);
    v.note_on();
    assert_eq!(v.set_frequency(0), Err(SynthError::InvalidParameter));
    assert_eq!(v.frequency, 1);
    assert_eq!(v.oscillator.frequency, 1);
    assert!(v.active);
}

#[test]
fn silent_voice_adds_nothing_and_does_not_advance() {
    let mut v = Voice::new(440);
    assert_eq!(v.next_sample(44100), 0);
    assert_eq!(v.oscillator.phase, 0);
    v.note_on();
    assert_eq!(v.next_sample(44100), 32768);
    assert_eq!(v.next_sample(44100), 32115);
    v.note_off();
    assert_eq!(v.next_sample(44100), 0);
    assert_eq!(v.oscillator.phase, 2);
    v.note_on();
    assert_eq!(v.next_sample(44100), 31461);
}
