use crate::message::{Message, AMPLITUDE_UNIT};
use crate::queue::try_send;
use vstd::prelude::*;

verus! {

/// The identifier that stands for no widget.
pub const NULL_ENTITY: u32 = 0xffff_ffff;

/// The pitch of the frequency knob before it is first turned, in millihertz.
pub const DEFAULT_PITCH: u32 = 440_000;

/// What the control surface reports, reduced to what the controller reads.
/// Knob values come in thousandths of the knob's unit.
#[derive(Clone, Copy, Debug, PartialEq, Eq)]
pub enum ControlEvent {
    /// A key went down; `trigger_key` says whether it is the note key.
    KeyDown { trigger_key: bool },
    /// A key went up.
    KeyUp { trigger_key: bool },
    /// The widget `target` changed its value.
    ValueChanged { target: u32, value: u32 },
    /// Anything else.
    Other,
}

/// A gain in thousandths as a gain in units of `1 / AMPLITUDE_UNIT`, rounded
/// down and capped at the largest gain there is.
pub open spec fn amplitude_from_thousandths(value: u32) -> u32 {
    let a = (value as int * AMPLITUDE_UNIT as int) / 1000;
    if a > u32::MAX as int {
        u32::MAX
    } else {
        a as u32
    }
}

/// The messages that an event gives rise to, in the order they are sent: the
/// note key starts a note at the present pitch, the first knob sets the gain,
/// the second knob sets the frequency. Releasing a key sends nothing.
pub open spec fn messages_of(knob_one: u32, knob_two: u32, pitch: u32, event: ControlEvent) -> Seq<
    Message,
> {
    match event {
        ControlEvent::KeyDown { trigger_key } => if trigger_key {
            seq![Message::NoteTrigger(pitch)]
        } else {
            Seq::empty()
        },
        ControlEvent::KeyUp { trigger_key } => Seq::empty(),
        ControlEvent::ValueChanged { target, value } => {
            let gain = if target == knob_one {
                seq![Message::SetAmplitude(amplitude_from_thousandths(value))]
            } else {
                Seq::<Message>::empty()
            };
            let tune = if target == knob_two {
                seq![Message::SetFrequency(value)]
            } else {
                Seq::<Message>::empty()
            };
            gain + tune
        },
        ControlEvent::Other => Seq::empty(),
    }
}

/// The pitch that the controller remembers after an event: the value of the
/// second knob where the event set it, else the pitch as it was.
pub open spec fn pitch_after(knob_two: u32, pitch: u32, event: ControlEvent) -> u32 {
    match event {
        ControlEvent::ValueChanged { target, value } => if target == knob_two {
            value
        } else {
            pitch
        },
        _ => pitch,
    }
}

/// Turns control-surface events into messages for the engine and puts them
/// on the queue.
pub struct Controller {
    pub command_sender: crossbeam_channel::Sender<Message>,
    pub knob_one: u32,
    pub knob_two: u32,
    pub pitch: u32,
}

impl Controller {
    /// A controller with no knobs yet, at the default pitch.
    pub fn new(command_sender: crossbeam_channel::Sender<Message>) -> (c: Controller)
        ensures
            c.command_sender == command_sender,
            c.knob_one == NULL_ENTITY,
            c.knob_two == NULL_ENTITY,
            c.pitch == DEFAULT_PITCH,
    {
        Controller { command_sender, knob_one: NULL_ENTITY, knob_two: NULL_ENTITY, pitch: DEFAULT_PITCH }
    }

    /// Records the identifiers of the gain knob and the frequency knob once
    /// the surface has built them.
    pub fn attach_knobs(&mut self, knob_one: u32, knob_two: u32)
        ensures
            final(self).knob_one == knob_one,
            final(self).knob_two == knob_two,
            final(self).pitch == old(self).pitch,
            final(self).command_sender == old(self).command_sender,
    {
        self.knob_one = knob_one;
        self.knob_two = knob_two;
    }

    /// The messages for one event, and the pitch remembered for later notes.
    pub fn messages_for(&mut self, event: ControlEvent) -> (messages: Vec<Message>)
        ensures
            messages@ == messages_of(old(self).knob_one, old(self).knob_two, old(self).pitch, event),
            final(self).pitch == pitch_after(old(self).knob_two, old(self).pitch, event),
            final(self).knob_one == old(self).knob_one,
            final(self).knob_two == old(self).knob_two,
            final(self).command_sender == old(self).command_sender,
    {
        let mut messages: Vec<Message> = Vec::new();
        match event {
            ControlEvent::KeyDown { trigger_key } => {
                if trigger_key {
                    messages.push(Message::NoteTrigger(self.pitch));
                }
            },
            ControlEvent::ValueChanged { target, value } => {
                if target == self.knob_one {
                    let scaled: u64 = (value as u64 * 65536u64) / 1000u64;
                    let gain: u32 = if scaled > 0xffff_ffffu64 {
                        0xffff_ffffu32
                    } else {
                        scaled as u32
                    };
                    messages.push(Message::SetAmplitude(gain));
                }
                if target == self.knob_two {
                    messages.push(Message::SetFrequency(value));
                    self.pitch = value;
                }
            },
            _ => {},
        }
        assert(messages@ =~= messages_of(
            old(self).knob_one,
            old(self).knob_two,
            old(self).pitch,
            event,
        ));
        messages
    }

    /// Handles one event: offers its messages to the queue in order, without
    /// blocking, and returns how many the queue took. A message that the
    /// queue has no room for is dropped.
    pub fn on_event(&mut self, event: ControlEvent) -> (sent: usize)
        ensures
            sent <= messages_of(old(self).knob_one, old(self).knob_two, old(self).pitch, event).len(),
            final(self).pitch == pitch_after(old(self).knob_two, old(self).pitch, event),
            final(self).knob_one == old(self).knob_one,
            final(self).knob_two == old(self).knob_two,
            final(self).command_sender == old(self).command_sender,
    {
        let messages = self.messages_for(event);
        let mut sent: usize = 0;
        let mut i: usize = 0;
        while i < messages.len()
            invariant
                sent <= i <= messages@.len(),
            decreases messages@.len() - i,
        {
            if try_send(&self.command_sender, messages[i]) {
                sent += 1;
            }
            i += 1;
        }
        sent
    }
}

} // verus!
