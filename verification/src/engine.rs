use crate::error::SynthError;
use crate::message::{Message, AMPLITUDE_UNIT};
use crate::pool::{
    active_count, advance_all, lemma_active_count_bounds, mix, retune_all, spec_new_note, VoicePool,
    DEFAULT_FREQUENCY, MAX_POLYPHONY,
};
use crate::queue::try_receive;
use crate::voice::Voice;
use vstd::prelude::*;

verus! {

/// What an engine is, as plain mathematics.
pub struct EngineState {
    pub sample_rate: u32,
    pub channels: usize,
    pub voices: Seq<Voice>,
    pub amplitude: u32,
}

/// A sample scaled by a gain in units of `1 / AMPLITUDE_UNIT`, rounded
/// toward zero.
pub open spec fn scale(amplitude: u32, sample: int) -> int {
    if sample >= 0 {
        (amplitude as int * sample) / (AMPLITUDE_UNIT as int)
    } else {
        -((amplitude as int * (-sample)) / (AMPLITUDE_UNIT as int))
    }
}

impl EngineState {
    /// The state after one message.
    pub open spec fn apply(self, message: Message) -> EngineState {
        match message {
            Message::SetAmplitude(a) => EngineState { amplitude: a, ..self },
            Message::SetFrequency(f) => EngineState { voices: retune_all(self.voices, f), ..self },
            Message::NoteTrigger(f) => EngineState { voices: spec_new_note(self.voices, f), ..self },
        }
    }

    /// The state after a run of messages, applied in order.
    pub open spec fn apply_all(self, messages: Seq<Message>) -> EngineState
        decreases messages.len(),
    {
        if messages.len() == 0 {
            self
        } else {
            self.apply_all(messages.drop_last()).apply(messages.last())
        }
    }

    /// The next output sample.
    pub open spec fn output(self) -> int {
        scale(self.amplitude, mix(self.voices, self.sample_rate))
    }

    /// The state after one output sample.
    pub open spec fn advance(self) -> EngineState {
        EngineState { voices: advance_all(self.voices, self.sample_rate), ..self }
    }
}

/// Whether any message of the run carries a value that has to be corrected.
pub open spec fn any_out_of_domain(messages: Seq<Message>) -> bool {
    exists|i: int| 0 <= i < messages.len() && (#[trigger] messages[i]).out_of_domain()
}

/// A voice pool behind an output gain, driven by control messages.
pub struct Engine {
    pub pool: VoicePool,
    pub channels: usize,
    pub amplitude: u32,
}

impl Engine {
    /// The engine as plain mathematics.
    pub open spec fn view(&self) -> EngineState {
        EngineState {
            sample_rate: self.pool.sample_rate,
            channels: self.channels,
            voices: self.pool@,
            amplitude: self.amplitude,
        }
    }

    /// The pool is well formed and there is at least one output channel.
    pub open spec fn wf(&self) -> bool {
        self.pool.wf() && self.channels >= 1
    }

    /// Whether the engine is well formed.
    pub fn is_wf(&self) -> (b: bool)
        ensures
            b == self.wf(),
    {
        self.pool.is_wf() && self.channels >= 1
    }

    /// An engine at unit gain over a fresh pool of silent voices. A sample
    /// rate of zero, no channel at all, and a voice count outside
    /// `1..=MAX_POLYPHONY` are refused.
    pub fn new(sample_rate: u32, channels: usize, polyphony: usize) -> (r: Result<
        Engine,
        SynthError,
    >)
        ensures
            (sample_rate == 0 || channels == 0 || polyphony == 0 || polyphony > MAX_POLYPHONY)
                ==> r == Err::<Engine, SynthError>(SynthError::InvalidParameter),
            (sample_rate > 0 && channels >= 1 && 1 <= polyphony <= MAX_POLYPHONY) ==> r.is_ok()
                && r.unwrap().wf() && r.unwrap()@.sample_rate == sample_rate
                && r.unwrap()@.channels == channels && r.unwrap()@.amplitude == AMPLITUDE_UNIT
                && r.unwrap()@.voices.len() == polyphony && forall|i: int|
                0 <= i < polyphony ==> !(#[trigger] r.unwrap()@.voices[i]).active
                    && r.unwrap()@.voices[i].frequency == DEFAULT_FREQUENCY
                    && r.unwrap()@.voices[i].oscillator.phase == 0,
    {
        if channels == 0 {
            return Err(SynthError::InvalidParameter);
        }
        match VoicePool::new(sample_rate, polyphony) {
            Ok(pool) => Ok(Engine { pool, channels, amplitude: AMPLITUDE_UNIT }),
            Err(e) => Err(e),
        }
    }

    /// Applies one message. A value out of its domain is corrected, applied
    /// and reported.
    pub fn apply(&mut self, message: Message) -> (r: Result<(), SynthError>)
        requires
            old(self).wf(),
        ensures
            final(self).wf(),
            final(self)@ == old(self)@.apply(message),
            message.out_of_domain() ==> r == Err::<(), SynthError>(SynthError::InvalidParameter),
            !message.out_of_domain() ==> r == Ok::<(), SynthError>(()),
    {
        match message {
            Message::SetAmplitude(a) => {
                self.amplitude = a;
                Ok(())
            },
            Message::SetFrequency(f) => self.pool.set_frequency(f),
            Message::NoteTrigger(f) => self.pool.new_note(f),
        }
    }

    /// Applies a run of messages in order. With no message the engine stays
    /// as it is and nothing is reported.
    pub fn apply_all(&mut self, messages: &Vec<Message>) -> (r: Result<(), SynthError>)
        requires
            old(self).wf(),
        ensures
            final(self).wf(),
            final(self)@ == old(self)@.apply_all(messages@),
            messages@.len() == 0 ==> final(self)@ == old(self)@ && r.is_ok(),
            any_out_of_domain(messages@) ==> r == Err::<(), SynthError>(
                SynthError::InvalidParameter,
            ),
            !any_out_of_domain(messages@) ==> r == Ok::<(), SynthError>(()),
    {
        let mut corrected: bool = false;
        let mut i: usize = 0;
        while i < messages.len()
            invariant
                i <= messages@.len(),
                self.wf(),
                self@ == old(self)@.apply_all(messages@.take(i as int)),
                corrected == any_out_of_domain(messages@.take(i as int)),
            decreases messages@.len() - i,
        {
            let r = self.apply(messages[i]);
            proof {
                let before = messages@.take(i as int);
                let after = messages@.take(i + 1);
                assert(after.drop_last() =~= before);
                assert(after.last() == messages@[i as int]);
                if any_out_of_domain(before) {
                    let w = choose|w: int| 0 <= w < before.len() && (#[trigger] before[w]).out_of_domain();
                    assert(after[w].out_of_domain());
                }
                if messages@[i as int].out_of_domain() {
                    assert(after[i as int].out_of_domain());
                }
                if any_out_of_domain(after) {
                    let w = choose|w: int| 0 <= w < after.len() && (#[trigger] after[w]).out_of_domain();
                    if w < i {
                        assert(before[w].out_of_domain());
                    }
                }
            }
            if r.is_err() {
                corrected = true;
            }
            i += 1;
        }
        proof {
            assert(messages@.take(messages@.len() as int) =~= messages@);
        }
        if corrected {
            Err(SynthError::InvalidParameter)
        } else {
            Ok(())
        }
    }

    /// Takes up to `limit` pending messages from the queue without blocking
    /// and applies each as it comes, stopping at the first empty read.
    /// Returns how many were applied. Whatever the queue held, the engine is
    /// the old one after that many messages.
    pub fn drain_queue(
        &mut self,
        queue: &crossbeam_channel::Receiver<Message>,
        limit: usize,
    ) -> (count: usize)
        requires
            old(self).wf(),
        ensures
            final(self).wf(),
            count <= limit,
            exists|messages: Seq<Message>|
                messages.len() == count && final(self)@ == #[trigger] old(self)@.apply_all(messages),
            count == 0 ==> final(self)@ == old(self)@,
    {
        let ghost mut applied: Seq<Message> = Seq::empty();
        let mut count: usize = 0;
        while count < limit
            invariant
                count <= limit,
                self.wf(),
                applied.len() == count,
                self@ == old(self)@.apply_all(applied),
            decreases limit - count,
        {
            match try_receive(queue) {
                Some(message) => {
                    let _ = self.apply(message);
                    proof {
                        assert(applied.push(message).drop_last() =~= applied);
                        applied = applied.push(message);
                    }
                    count += 1;
                },
                None => {
                    break ;
                },
            }
        }
        count
    }

    /// The next output sample: the pool's sample times the gain. Every
    /// sounding voice moves one sample on.
    pub fn next_sample(&mut self) -> (out: i64)
        requires
            old(self).wf(),
        ensures
            final(self).wf(),
            out == old(self)@.output(),
            final(self)@ == old(self)@.advance(),
    {
        let ghost sounding: int = active_count(self.pool@);
        proof {
            lemma_active_count_bounds(self.pool@);
        }
        let s: i64 = self.pool.next_sample();
        assert(-33554432 <= s <= 33554432) by (nonlinear_arith)
            requires
                -(sounding * 32768) <= s <= sounding * 32768,
                0 <= sounding <= 1024,
        ;
        let magnitude: u64 = if s >= 0 {
            s as u64
        } else {
            (-s) as u64
        };
        assert(self.amplitude as u64 * magnitude <= 0xffff_ffff * 33554432) by (nonlinear_arith)
            requires
                0 <= self.amplitude <= 0xffff_ffff,
                0 <= magnitude <= 33554432,
        ;
        let scaled: u64 = (self.amplitude as u64 * magnitude) / (AMPLITUDE_UNIT as u64);
        if s >= 0 {
            scaled as i64
        } else {
            -(scaled as i64)
        }
    }

    /// Writes the next output sample to every channel of `frame`.
    pub fn fill_frame(&mut self, frame: &mut Vec<i64>)
        requires
            old(self).wf(),
        ensures
            final(self).wf(),
            final(self)@ == old(self)@.advance(),
            final(frame)@ == Seq::new(old(frame)@.len(), |i: int| old(self)@.output() as i64),
    {
        let value: i64 = self.next_sample();
        let n: usize = frame.len();
        let mut i: usize = 0;
        while i < n
            invariant
                i <= n,
                n == frame@.len(),
                n == old(frame)@.len(),
                forall|j: int| 0 <= j < i ==> frame@[j] == value,
            decreases n - i,
        {
            frame.set(i, value);
            i += 1;
        }
        assert(frame@ =~= Seq::new(old(frame)@.len(), |i: int| old(self)@.output() as i64));
    }
}

} // verus!
