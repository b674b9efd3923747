use crate::oscillator::MIN_FREQUENCY;
use vstd::prelude::*;

verus! {

/// Amplitude units in a gain of 1.0.
pub const AMPLITUDE_UNIT: u32 = 65536;

/// One change that the control surface asks of the engine.
#[derive(Clone, Copy, Debug, PartialEq, Eq)]
pub enum Message {
    /// Sets the output gain, in units of `1 / AMPLITUDE_UNIT`.
    SetAmplitude(u32),
    /// Re-pitches every voice.
    SetFrequency(u32),
    /// Starts a note at the given pitch.
    NoteTrigger(u32),
}

impl Message {
    /// Whether the message carries a value that the engine has to correct.
    pub open spec fn out_of_domain(self) -> bool {
        match self {
            Message::SetAmplitude(_) => false,
            Message::SetFrequency(f) => f < MIN_FREQUENCY,
            Message::NoteTrigger(f) => f < MIN_FREQUENCY,
        }
    }
}

} // verus!
