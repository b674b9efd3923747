use crate::error::SynthError;
use crate::oscillator::{lemma_ramp_range, period, wrapped, MIN_FREQUENCY, SAMPLE_HALF};
use crate::voice::Voice;
use vstd::prelude::*;

verus! {

/// The largest number of voices a pool holds.
pub const MAX_POLYPHONY: usize = 1024;

/// The pitch that voices have before their first note.
pub const DEFAULT_FREQUENCY: u32 = 440;

/// Index of the first silent voice at or after `from`; the length where
/// there is none.
pub open spec fn first_inactive_from(voices: Seq<Voice>, from: int) -> int
    decreases voices.len() - from,
{
    if from < 0 || from >= voices.len() {
        voices.len() as int
    } else if !voices[from].active {
        from
    } else {
        first_inactive_from(voices, from + 1)
    }
}

/// The voice that the next note goes to: the first silent one, or, where all
/// sound, the last.
pub open spec fn target_slot(voices: Seq<Voice>) -> int {
    let i = first_inactive_from(voices, 0);
    if i < voices.len() {
        i
    } else {
        voices.len() - 1
    }
}

/// The voices after a note at `frequency` has been assigned.
pub open spec fn spec_new_note(voices: Seq<Voice>, frequency: u32) -> Seq<Voice> {
    let t = target_slot(voices);
    voices.update(t, voices[t].spec_triggered(frequency))
}

/// Number of sounding voices.
pub open spec fn active_count(voices: Seq<Voice>) -> int
    decreases voices.len(),
{
    if voices.len() == 0 {
        0
    } else {
        active_count(voices.drop_last()) + if voices.last().active {
            1int
        } else {
            0int
        }
    }
}

/// The sum of what each voice adds to the next output sample.
pub open spec fn mix(voices: Seq<Voice>, sample_rate: u32) -> int
    decreases voices.len(),
{
    if voices.len() == 0 {
        0
    } else {
        mix(voices.drop_last(), sample_rate) + voices.last().spec_contribution(sample_rate)
    }
}

/// Every voice after one output sample.
pub open spec fn advance_all(voices: Seq<Voice>, sample_rate: u32) -> Seq<Voice> {
    Seq::new(voices.len(), |i: int| voices[i].spec_advance(sample_rate))
}

/// Every voice re-pitched to `frequency`.
pub open spec fn retune_all(voices: Seq<Voice>, frequency: u32) -> Seq<Voice> {
    Seq::new(voices.len(), |i: int| voices[i].spec_retuned(frequency))
}

/// A fixed set of voices in allocation order, and the rate they run at.
pub struct VoicePool {
    pub sample_rate: u32,
    pub voices: Vec<Voice>,
}

impl VoicePool {
    /// The voices in allocation order.
    pub open spec fn view(&self) -> Seq<Voice> {
        self.voices@
    }

    /// The pool holds between one and `MAX_POLYPHONY` voices, each of them
    /// well formed, and runs at a rate above zero.
    pub open spec fn wf(&self) -> bool {
        &&& 1 <= self.voices@.len() <= MAX_POLYPHONY
        &&& self.sample_rate > 0
        &&& forall|i: int| 0 <= i < self.voices@.len() ==> (#[trigger] self.voices@[i]).wf()
    }

    /// A pool of `polyphony` silent voices at `DEFAULT_FREQUENCY`. A sample
    /// rate of zero and a voice count outside `1..=MAX_POLYPHONY` are refused.
    pub fn new(sample_rate: u32, polyphony: usize) -> (r: Result<VoicePool, SynthError>)
        ensures
            (sample_rate == 0 || polyphony == 0 || polyphony > MAX_POLYPHONY) ==> r == Err::<
                VoicePool,
                SynthError,
            >(SynthError::InvalidParameter),
            (sample_rate > 0 && 1 <= polyphony <= MAX_POLYPHONY) ==> r.is_ok() && r.unwrap().wf()
                && r.unwrap().sample_rate == sample_rate && r.unwrap()@.len() == polyphony
                && forall|i: int|
                0 <= i < polyphony ==> !(#[trigger] r.unwrap()@[i]).active && r.unwrap()@[i].frequency
                    == DEFAULT_FREQUENCY && r.unwrap()@[i].oscillator.phase == 0,
    {
        if sample_rate == 0 || polyphony == 0 || polyphony > MAX_POLYPHONY {
            return Err(SynthError::InvalidParameter);
        }
        let mut voices: Vec<Voice> = Vec::new();
        let mut i: usize = 0;
        while i < polyphony
            invariant
                i <= polyphony,
                voices@.len() == i,
                forall|j: int|
                    0 <= j < i ==> (#[trigger] voices@[j]).wf() && !voices@[j].active
                        && voices@[j].frequency == DEFAULT_FREQUENCY
                        && voices@[j].oscillator.phase == 0,
            decreases polyphony - i,
        {
            voices.push(Voice::new(DEFAULT_FREQUENCY));
            i += 1;
        }
        Ok(VoicePool { sample_rate, voices })
    }

    /// Whether the pool is well formed.
    pub fn is_wf(&self) -> (b: bool)
        ensures
            b == self.wf(),
    {
        let n: usize = self.voices.len();
        if n < 1 || n > MAX_POLYPHONY || self.sample_rate == 0 {
            return false;
        }
        let mut i: usize = 0;
        while i < n
            invariant
                i <= n,
                n == self.voices@.len(),
                forall|j: int| 0 <= j < i ==> (#[trigger] self.voices@[j]).wf(),
            decreases n - i,
        {
            if !self.voices[i].is_wf() {
                return false;
            }
            i += 1;
        }
        true
    }

    /// Number of voices.
    pub fn polyphony(&self) -> (n: usize)
        ensures
            n == self@.len(),
    {
        self.voices.len()
    }

    /// Index of the first silent voice, if there is one.
    pub fn first_inactive(&self) -> (r: Option<usize>)
        ensures
            match r {
                Some(i) => i == first_inactive_from(self@, 0) && i < self@.len(),
                None => first_inactive_from(self@, 0) == self@.len(),
            },
    {
        let mut i: usize = 0;
        while i < self.voices.len()
            invariant
                i <= self.voices@.len(),
                first_inactive_from(self@, 0) == first_inactive_from(self@, i as int),
            decreases self.voices@.len() - i,
        {
            if !self.voices[i].is_active() {
                return Some(i);
            }
            i += 1;
        }
        None
    }

    /// Assigns a note: the first silent voice in allocation order takes the
    /// pitch and sounds; where every voice sounds, the last one is cut off
    /// and takes it. No other voice changes. A frequency below
    /// `MIN_FREQUENCY` is raised to it and reported.
    pub fn new_note(&mut self, frequency: u32) -> (r: Result<(), SynthError>)
        requires
            old(self).wf(),
        ensures
            final(self).wf(),
            final(self).sample_rate == old(self).sample_rate,
            final(self)@ == spec_new_note(old(self)@, frequency),
            frequency < MIN_FREQUENCY ==> r == Err::<(), SynthError>(SynthError::InvalidParameter),
            frequency >= MIN_FREQUENCY ==> r == Ok::<(), SynthError>(()),
    {
        let slot: usize = match self.first_inactive() {
            Some(i) => i,
            None => self.voices.len() - 1,
        };
        let mut voice: Voice = self.voices[slot];
        voice.note_off();
        let r = voice.set_frequency(frequency);
        voice.note_on();
        self.voices.set(slot, voice);
        r
    }

    /// Re-pitches every voice, sounding or not. A frequency below
    /// `MIN_FREQUENCY` is raised to it and reported.
    pub fn set_frequency(&mut self, frequency: u32) -> (r: Result<(), SynthError>)
        requires
            old(self).wf(),
        ensures
            final(self).wf(),
            final(self).sample_rate == old(self).sample_rate,
            final(self)@ == retune_all(old(self)@, frequency),
            frequency < MIN_FREQUENCY ==> r == Err::<(), SynthError>(SynthError::InvalidParameter),
            frequency >= MIN_FREQUENCY ==> r == Ok::<(), SynthError>(()),
    {
        let n: usize = self.voices.len();
        let mut i: usize = 0;
        while i < n
            invariant
                i <= n,
                n == self.voices@.len(),
                n == old(self)@.len(),
                self.sample_rate == old(self).sample_rate,
                forall|j: int| 0 <= j < i ==> self@[j] == (#[trigger] old(self)@[j]).spec_retuned(frequency),
                forall|j: int| i <= j < n ==> self@[j] == #[trigger] old(self)@[j],
            decreases n - i,
        {
            let mut voice: Voice = self.voices[i];
            let _ = voice.set_frequency(frequency);
            self.voices.set(i, voice);
            i += 1;
        }
        assert(self@ =~= retune_all(old(self)@, frequency));
        if frequency < MIN_FREQUENCY {
            Err(SynthError::InvalidParameter)
        } else {
            Ok(())
        }
    }

    /// The next output sample: the unclipped sum over the sounding voices,
    /// each of which moves one sample on. Silent voices add nothing and stay
    /// where they are.
    pub fn next_sample(&mut self) -> (out: i64)
        requires
            old(self).wf(),
        ensures
            final(self).wf(),
            final(self).sample_rate == old(self).sample_rate,
            out == mix(old(self)@, old(self).sample_rate),
            final(self)@ == advance_all(old(self)@, old(self).sample_rate),
            -(active_count(old(self)@) * SAMPLE_HALF) <= out <= active_count(old(self)@)
                * SAMPLE_HALF,
    {
        let n: usize = self.voices.len();
        let mut sum: i64 = 0;
        let mut i: usize = 0;
        while i < n
            invariant
                i <= n,
                n == self.voices@.len(),
                n == old(self)@.len(),
                n <= MAX_POLYPHONY,
                self.sample_rate == old(self).sample_rate,
                forall|j: int|
                    0 <= j < i ==> self@[j] == (#[trigger] old(self)@[j]).spec_advance(
                        self.sample_rate,
                    ),
                forall|j: int| i <= j < n ==> self@[j] == #[trigger] old(self)@[j],
                sum == mix(old(self)@.take(i as int), self.sample_rate),
                0 <= active_count(old(self)@.take(i as int)) <= i,
                -(active_count(old(self)@.take(i as int)) * SAMPLE_HALF) <= sum <= active_count(
                    old(self)@.take(i as int),
                ) * SAMPLE_HALF,
            decreases n - i,
        {
            let mut voice: Voice = self.voices[i];
            let s: i64 = voice.next_sample(self.sample_rate);
            self.voices.set(i, voice);
            proof {
                assert(old(self)@.take(i + 1).drop_last() =~= old(self)@.take(i as int));
            }
            sum = sum + s;
            i += 1;
        }
        proof {
            assert(old(self)@.take(n as int) =~= old(self)@);
            assert(self@ =~= advance_all(old(self)@, self.sample_rate));
        }
        sum
    }
}

/// `first_inactive_from` returns a position between `from` and the length;
/// every voice from `from` up to it sounds, and the voice at it, if there is
/// one, is silent.
pub proof fn lemma_first_inactive_from(voices: Seq<Voice>, from: int)
    requires
        0 <= from <= voices.len(),
    ensures
        from <= first_inactive_from(voices, from) <= voices.len(),
        forall|j: int| from <= j < first_inactive_from(voices, from) ==> (#[trigger] voices[j]).active,
        first_inactive_from(voices, from) < voices.len() ==> !voices[first_inactive_from(
            voices,
            from,
        )].active,
    decreases voices.len() - from,
{
    if from < voices.len() && voices[from].active {
        lemma_first_inactive_from(voices, from + 1);
    }
}

/// A note goes to the silent voice before which every voice sounds, and
/// changes no other.
pub proof fn lemma_new_note_fills_first_silent(voices: Seq<Voice>, frequency: u32, i: int)
    requires
        0 <= i < voices.len(),
        !voices[i].active,
        forall|j: int| 0 <= j < i ==> (#[trigger] voices[j]).active,
    ensures
        target_slot(voices) == i,
        spec_new_note(voices, frequency) == voices.update(i, voices[i].spec_triggered(frequency)),
{
    lemma_first_inactive_from(voices, 0);
}

/// Where every voice sounds, a note takes the last voice over and changes no
/// other.
pub proof fn lemma_new_note_steals_last(voices: Seq<Voice>, frequency: u32)
    requires
        voices.len() > 0,
        forall|j: int| 0 <= j < voices.len() ==> (#[trigger] voices[j]).active,
    ensures
        target_slot(voices) == voices.len() - 1,
        spec_new_note(voices, frequency) == voices.update(
            voices.len() - 1,
            voices.last().spec_triggered(frequency),
        ),
{
    lemma_first_inactive_from(voices, 0);
}

/// The number of sounding voices never exceeds the number of voices.
pub proof fn lemma_active_count_bounds(voices: Seq<Voice>)
    ensures
        0 <= active_count(voices) <= voices.len(),
    decreases voices.len(),
{
    if voices.len() > 0 {
        lemma_active_count_bounds(voices.drop_last());
    }
}

/// Five notes into four silent voices: the first three voices hold the first
/// three pitches, and the last voice, which took the fourth, is taken over by
/// the fifth.
pub proof fn lemma_fifth_note_steals_fourth_voice(
    voices: Seq<Voice>,
    f1: u32,
    f2: u32,
    f3: u32,
    f4: u32,
    f5: u32,
)
    requires
        voices.len() == 4,
        forall|j: int| 0 <= j < 4 ==> !(#[trigger] voices[j]).active,
    ensures
        ({
            let four = spec_new_note(
                spec_new_note(spec_new_note(spec_new_note(voices, f1), f2), f3),
                f4,
            );
            let five = spec_new_note(four, f5);
            &&& four =~= seq![
                voices[0].spec_triggered(f1),
                voices[1].spec_triggered(f2),
                voices[2].spec_triggered(f3),
                voices[3].spec_triggered(f4),
            ]
            &&& five =~= seq![
                voices[0].spec_triggered(f1),
                voices[1].spec_triggered(f2),
                voices[2].spec_triggered(f3),
                voices[3].spec_triggered(f5),
            ]
        }),
{
    let one = spec_new_note(voices, f1);
    lemma_new_note_fills_first_silent(voices, f1, 0);
    let two = spec_new_note(one, f2);
    lemma_new_note_fills_first_silent(one, f2, 1);
    let three = spec_new_note(two, f3);
    lemma_new_note_fills_first_silent(two, f3, 2);
    let four = spec_new_note(three, f4);
    lemma_new_note_fills_first_silent(three, f4, 3);
    lemma_new_note_steals_last(four, f5);
}

/// Linearity of the mix: where every sounding voice has the oscillator state
/// of `v`, the pool's sample is the number of sounding voices times the
/// sample of `v` alone.
pub proof fn lemma_mix_linear(voices: Seq<Voice>, sample_rate: u32, v: Voice)
    requires
        v.active,
        forall|j: int|
            0 <= j < voices.len() && (#[trigger] voices[j]).active ==> voices[j].oscillator
                == v.oscillator,
    ensures
        mix(voices, sample_rate) == active_count(voices) * v.spec_contribution(sample_rate),
    decreases voices.len(),
{
    if voices.len() > 0 {
        let rest = voices.drop_last();
        assert forall|j: int| 0 <= j < rest.len() && (#[trigger] rest[j]).active implies rest[j].oscillator
            == v.oscillator by {
            assert(rest[j] == voices[j]);
        }
        lemma_mix_linear(rest, sample_rate, v);
        let c = active_count(rest);
        let x = v.spec_contribution(sample_rate);
        assert((c + 1) * x == c * x + x) by (nonlinear_arith);
    }
}

/// The mix is bounded by half scale times the number of sounding voices: a
/// single sounding voice keeps the output between -0.5 and +0.5.
pub proof fn lemma_mix_range(voices: Seq<Voice>, sample_rate: u32)
    ensures
        -(active_count(voices) * SAMPLE_HALF) <= mix(voices, sample_rate) <= active_count(voices)
            * SAMPLE_HALF,
        active_count(voices) == 1 ==> -SAMPLE_HALF <= mix(voices, sample_rate) <= SAMPLE_HALF,
    decreases voices.len(),
{
    if voices.len() > 0 {
        lemma_mix_range(voices.drop_last(), sample_rate);
        let v = voices.last();
        if v.active {
            let p = period(sample_rate, v.oscillator.frequency);
            lemma_ramp_range(wrapped(v.oscillator.phase as int, p), sample_rate, v.oscillator.frequency);
        }
    }
}

} // verus!
