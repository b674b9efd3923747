use audio_synth::control::{ControlEvent, Controller, DEFAULT_PITCH, NULL_ENTITY};
use audio_synth::engine::Engine;
use audio_synth::message::Message;

#[test]
fn new_controller_has_no_knobs() {
    let (sender, _receiver) = crossbeam_channel::bounded::<Message>(4);
    let controller = Controller::new(sender);
    assert_eq!(controller.knob_one, NULL_ENTITY);
    assert_eq!(controller.knob_two, NULL_ENTITY);
    assert_eq!(controller.pitch, DEFAULT_PITCH);
}

#[test]
fn note_key_triggers_a_note_at_the_present_pitch() {
    let (sender, receiver) = crossbeam_channel::bounded::<Message>(4);
    let mut controller = Controller::new(sender);
    controller.attach_knobs(7, 9);
    assert_eq!(controller.on_event(ControlEvent::KeyDown { trigger_key: true }), 1);
    assert_eq!(receiver.try_recv(), Ok(Message::NoteTrigger(440_000)));
    assert_eq!(controller.on_event(ControlEvent::KeyDown { trigger_key: false }), 0);
    assert_eq!(controller.on_event(ControlEvent::KeyUp { trigger_key: true }), 0);
    assert_eq!(controller.on_event(ControlEvent::Other), 0);
    assert!(receiver.is_empty());
}

#[test]
fn knobs_send_gain_and_frequency() {
    let (sender, receiver) = crossbeam_channel::bounded::<Message>(4);
    let mut controller = Controller::new(sender);
    controller.attach_knobs(7, 9);
    assert_eq!(controller.on_event(ControlEvent::ValueChanged { target: 7, value: 500 }), 1);
    assert_eq!(receiver.try_recv(), Ok(Message::SetAmplitude(32768)));
    assert_eq!(controller.on_event(ControlEvent::ValueChanged { target: 9, value: 261_630 }), 1);
    assert_eq!(receiver.try_recv(), Ok(Message::SetFrequency(261_630)));
    assert_eq!(controller.pitch, 261_630);
    assert_eq!(controller.on_event(ControlEvent::ValueChanged { target: 8, value: 1 }), 0);
    assert_eq!(controller.on_event(ControlEvent::KeyDown { trigger_key: true }), 1);
    assert_eq!(receiver.try_recv(), Ok(Message::NoteTrigger(261_630)));
}

#[test]
fn one_widget_for_both_knobs_sends_both_messages() {
    let (sender, _receiver) = crossbeam_channel::bounded::<Message>(4);
    let mut controller = Controller::new(sender);
    let messages = controller.messages_for(ControlEvent::ValueChanged { target: NULL_ENTITY, value: 1000 });
    assert_eq!(messages, vec![Message::SetAmplitude(65536), Message::SetFrequency(1000)]);
    assert_eq!(controller.pitch, 1000);
}

#[test]
fn gain_conversion_rounds_down_and_saturates() {
    let (sender, _receiver) = crossbeam_channel::bounded::<Message>(4);
    let mut controller = Controller::new(sender);
    controller.attach_knobs(1, 2);
    let gain = |c: &mut Controller, value: u32| c.messages_for(ControlEvent::ValueChanged { target: 1, value });
    assert_eq!(gain(&mut controller, 0), vec![Message::SetAmplitude(0)]);
    assert_eq!(gain(&mut controller, 1), vec![Message::SetAmplitude(65)]);
    assert_eq!(gain(&mut controller, 999), vec![Message::SetAmplitude(65470)]);
    assert_eq!(gain(&mut controller, 65_535_999), vec![Message::SetAmplitude(4_294_967_230)]);
    assert_eq!(gain(&mut controller, 65_536_000), vec![Message::SetAmplitude(u32::MAX)]);
    assert_eq!(gain(&mut controller, u32::MAX), vec![Message::SetAmplitude(u32::MAX)]);
    assert_eq!(controller.pitch, DEFAULT_PITCH);
}

#[test]
fn full_queue_drops_the_message() {
    let (sender, receiver) = crossbeam_channel::bounded::<Message>(1);
    let mut controller = Controller::new(sender);
    assert_eq!(controller.on_event(ControlEvent::ValueChanged { target: NULL_ENTITY, value: 2000 }), 1);
    assert_eq!(controller.pitch, 2000);
    assert_eq!(receiver.try_recv(), Ok(Message::SetAmplitude(131072)));
    assert!(receiver.is_empty());
    drop(receiver);
    assert_eq!(controller.on_event(ControlEvent::KeyDown { trigger_key: true }), 0);
}

#[test]
fn controller_drives_the_engine_through_the_queue() {
    let (sender, receiver) = crossbeam_channel::bounded::<Message>(1024);
    let mut controller = Controller::new(sender);
    controller.attach_knobs(3, 4);
    let mut engine = Engine::new(44_100_000, 2, 2).unwrap();
    controller.on_event(ControlEvent::KeyDown { trigger_key: true });
    controller.on_event(ControlEvent::ValueChanged { target: 3, value: 250 });
    assert_eq!(engine.drain_queue(&receiver, 1024), 2);
    assert!(engine.pool.voices[0].active);
    assert_eq!(engine.pool.voices[0].frequency, 440_000);
    assert_eq!(engine.pool.voices[0].oscillator.period(44_100_000), 100);
    assert_eq!(engine.amplitude, 16384);
    assert_eq!(engine.next_sample(), 8192);
}
