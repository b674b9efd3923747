use crate::error::SynthError;
use crate::oscillator::{clamp_frequency, Oscillator, MIN_FREQUENCY, SAMPLE_HALF};
use vstd::prelude::*;

verus! {

/// One note of the pool: an oscillator, whether it sounds, and the pitch it
/// was last given.
#[derive(Clone, Copy, Debug, PartialEq, Eq)]
pub struct Voice {
    pub oscillator: Oscillator,
    pub active: bool,
    pub frequency: u32,
}

impl Voice {
    /// The voice's own record of its pitch agrees with its oscillator, and
    /// the pitch is one an oscillator can run at.
    pub open spec fn wf(self) -> bool {
        &&& self.frequency == self.oscillator.frequency
        &&& self.frequency >= MIN_FREQUENCY
    }

    /// This voice re-pitched to `frequency`, its phase and activity kept.
    pub open spec fn spec_retuned(self, frequency: u32) -> Voice {
        Voice {
            oscillator: Oscillator {
                frequency: clamp_frequency(frequency),
                phase: self.oscillator.phase,
            },
            active: self.active,
            frequency: clamp_frequency(frequency),
        }
    }

    /// This voice given `frequency` and switched on.
    pub open spec fn spec_triggered(self, frequency: u32) -> Voice {
        Voice { active: true, ..self.spec_retuned(frequency) }
    }

    /// What this voice adds to the next output sample: its oscillator's
    /// sample while it sounds, nothing while it is silent.
    pub open spec fn spec_contribution(self, sample_rate: u32) -> int {
        if self.active {
            self.oscillator.spec_sample(sample_rate)
        } else {
            0
        }
    }

    /// This voice after one output sample: a sounding voice's oscillator
    /// moves on, a silent voice stays as it is.
    pub open spec fn spec_advance(self, sample_rate: u32) -> Voice {
        if self.active {
            Voice { oscillator: self.oscillator.spec_advance(sample_rate), ..self }
        } else {
            self
        }
    }

    /// A silent voice at `frequency`, at the start of its ramp.
    pub fn new(frequency: u32) -> (v: Voice)
        ensures
            v.wf(),
            !v.active,
            v.frequency == clamp_frequency(frequency),
            v.oscillator.phase == 0,
    {
        let oscillator = Oscillator::new(frequency);
        Voice { oscillator, active: false, frequency: oscillator.frequency }
    }

    /// Whether the voice is well formed.
    pub fn is_wf(&self) -> (b: bool)
        ensures
            b == self.wf(),
    {
        self.frequency == self.oscillator.frequency && self.frequency >= MIN_FREQUENCY
    }

    /// Switches the voice on, whatever it was.
    pub fn note_on(&mut self)
        ensures
            *final(self) == (Voice { active: true, ..*old(self) }),
    {
        self.active = true;
    }

    /// Switches the voice off, whatever it was. Pitch and phase stay.
    pub fn note_off(&mut self)
        ensures
            *final(self) == (Voice { active: false, ..*old(self) }),
    {
        self.active = false;
    }

    /// Whether the voice sounds.
    pub fn is_active(&self) -> (b: bool)
        ensures
            b == self.active,
    {
        self.active
    }

    /// Re-pitches the voice and its oscillator, sounding or not. A frequency
    /// below `MIN_FREQUENCY` is raised to it and reported.
    pub fn set_frequency(&mut self, frequency: u32) -> (r: Result<(), SynthError>)
        ensures
            *final(self) == old(self).spec_retuned(frequency),
            final(self).wf(),
            frequency < MIN_FREQUENCY ==> r == Err::<(), SynthError>(SynthError::InvalidParameter),
            frequency >= MIN_FREQUENCY ==> r == Ok::<(), SynthError>(()),
    {
        let r = self.oscillator.set_frequency(frequency);
        self.frequency = self.oscillator.frequency;
        r
    }

    /// The voice's share of the next output sample. Only a sounding voice
    /// moves its oscillator on.
    pub fn next_sample(&mut self, sample_rate: u32) -> (out: i64)
        ensures
            out == old(self).spec_contribution(sample_rate),
            *final(self) == old(self).spec_advance(sample_rate),
            -SAMPLE_HALF < out <= SAMPLE_HALF,
            !old(self).active ==> out == 0 && *final(self) == *old(self),
    {
        if self.active {
            self.oscillator.next_sample(sample_rate)
        } else {
            0
        }
    }
}

/// Switching off a voice that is already silent changes nothing, and a
/// sounding voice keeps its pitch and phase when it is switched off.
pub proof fn lemma_note_off_idempotent(v: Voice)
    ensures
        !v.active ==> (Voice { active: false, ..v }) == v,
        (Voice { active: false, ..v }).frequency == v.frequency,
        (Voice { active: false, ..v }).oscillator == v.oscillator,
{
}

} // verus!
