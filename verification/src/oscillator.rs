use crate::error::SynthError;
use vstd::arithmetic::div_mod::{
    lemma_add_mod_noop, lemma_fundamental_div_mod, lemma_mod_add_multiples_vanish, lemma_small_mod,
};
use vstd::prelude::*;

verus! {

/// Sample units in a peak-to-peak swing of 1.0.
pub const SAMPLE_FULL: i64 = 65536;

/// Sample units in +0.5, the top of the sawtooth.
pub const SAMPLE_HALF: i64 = 32768;

/// The smallest frequency an oscillator runs at.
pub const MIN_FREQUENCY: u32 = 1;

/// The frequency an oscillator takes when asked for `frequency`.
pub open spec fn clamp_frequency(frequency: u32) -> u32 {
    if frequency < MIN_FREQUENCY {
        MIN_FREQUENCY
    } else {
        frequency
    }
}

/// Length of one waveform period in samples: the quotient of sample rate and
/// frequency, truncated, and never less than one sample.
pub open spec fn period(sample_rate: u32, frequency: u32) -> int {
    let q = sample_rate as int / clamp_frequency(frequency) as int;
    if q < 1 {
        1
    } else {
        q
    }
}

/// The sample rate divided by the frequency, rounded to the nearest integer
/// (halves upward).
pub open spec fn rounded_period(sample_rate: u32, frequency: u32) -> int {
    (2 * sample_rate as int + clamp_frequency(frequency) as int) / (2 * clamp_frequency(
        frequency,
    ) as int)
}

/// The ramp position that a stored phase stands for: a phase that has run a
/// full period starts over.
pub open spec fn wrapped(phase: int, period: int) -> int {
    if phase >= period {
        0
    } else {
        phase
    }
}

/// The divisor of the ramp's slope: the sample rate, or one where the rate
/// is zero.
pub open spec fn slope_divisor(sample_rate: u32) -> int {
    if sample_rate == 0 {
        1
    } else {
        sample_rate as int
    }
}

/// The sawtooth at ramp position `k`: it starts at +0.5 and falls by the
/// quotient of frequency and sample rate per sample, rounded to a whole
/// sample unit toward +0.5.
pub open spec fn ramp(k: int, sample_rate: u32, frequency: u32) -> int {
    SAMPLE_HALF as int - (k * clamp_frequency(frequency) as int * SAMPLE_FULL as int)
        / slope_divisor(sample_rate)
}

/// A sawtooth generator. `phase` counts the samples produced since the ramp
/// last started over.
#[derive(Clone, Copy, Debug, PartialEq, Eq)]
pub struct Oscillator {
    pub frequency: u32,
    pub phase: u32,
}

impl Oscillator {
    /// The sample that the next call of `next_sample` returns.
    pub open spec fn spec_sample(self, sample_rate: u32) -> int {
        let p = period(sample_rate, self.frequency);
        ramp(wrapped(self.phase as int, p), sample_rate, self.frequency)
    }

    /// The oscillator after one call of `next_sample`.
    pub open spec fn spec_advance(self, sample_rate: u32) -> Oscillator {
        let p = period(sample_rate, self.frequency);
        Oscillator { frequency: self.frequency, phase: (wrapped(self.phase as int, p) + 1) as u32 }
    }

    /// The oscillator after `n` calls of `next_sample` at a fixed frequency.
    pub open spec fn spec_run(self, sample_rate: u32, n: nat) -> Oscillator
        decreases n,
    {
        if n == 0 {
            self
        } else {
            self.spec_run(sample_rate, (n - 1) as nat).spec_advance(sample_rate)
        }
    }

    /// The sample with index `n` of the stream that starts at this state.
    pub open spec fn sample_at(self, sample_rate: u32, n: nat) -> int {
        self.spec_run(sample_rate, n).spec_sample(sample_rate)
    }

    /// An oscillator at the start of its ramp. A frequency below
    /// `MIN_FREQUENCY` is raised to it.
    pub fn new(frequency: u32) -> (osc: Oscillator)
        ensures
            osc.frequency == clamp_frequency(frequency),
            osc.phase == 0,
    {
        let f: u32 = if frequency < MIN_FREQUENCY {
            MIN_FREQUENCY
        } else {
            frequency
        };
        Oscillator { frequency: f, phase: 0 }
    }

    /// Replaces the frequency and keeps the phase as it is, so the ramp goes
    /// on from its present position with a new slope. A frequency below
    /// `MIN_FREQUENCY` is raised to it and reported.
    pub fn set_frequency(&mut self, frequency: u32) -> (r: Result<(), SynthError>)
        ensures
            final(self).frequency == clamp_frequency(frequency),
            final(self).phase == old(self).phase,
            frequency < MIN_FREQUENCY ==> r == Err::<(), SynthError>(SynthError::InvalidParameter),
            frequency >= MIN_FREQUENCY ==> r == Ok::<(), SynthError>(()),
    {
        if frequency < MIN_FREQUENCY {
            self.frequency = MIN_FREQUENCY;
            Err(SynthError::InvalidParameter)
        } else {
            self.frequency = frequency;
            Ok(())
        }
    }

    /// The period in samples at `sample_rate`.
    pub fn period(&self, sample_rate: u32) -> (p: u32)
        ensures
            p == period(sample_rate, self.frequency),
            p >= 1,
    {
        let f: u32 = if self.frequency < MIN_FREQUENCY {
            MIN_FREQUENCY
        } else {
            self.frequency
        };
        let q: u32 = sample_rate / f;
        if q < 1 {
            1
        } else {
            q
        }
    }

    /// Returns the waveform value at the present ramp position and moves one
    /// sample on.
    pub fn next_sample(&mut self, sample_rate: u32) -> (out: i64)
        ensures
            out == old(self).spec_sample(sample_rate),
            *final(self) == old(self).spec_advance(sample_rate),
            -SAMPLE_HALF < out <= SAMPLE_HALF,
    {
        let p: u32 = self.period(sample_rate);
        let k: u32 = if self.phase >= p {
            0
        } else {
            self.phase
        };
        let f: u64 = if self.frequency < MIN_FREQUENCY {
            MIN_FREQUENCY as u64
        } else {
            self.frequency as u64
        };
        let d: u64 = if sample_rate == 0 {
            1
        } else {
            sample_rate as u64
        };
        proof {
            lemma_ramp_range(k as int, sample_rate, self.frequency);
        }
        let fall: u64 = (k as u64 * f * 65536u64) / d;
        self.phase = k + 1;
        SAMPLE_HALF - (fall as i64)
    }
}

/// Within a period the ramp stays above -0.5 and does not exceed +0.5.
pub proof fn lemma_ramp_range(k: int, sample_rate: u32, frequency: u32)
    requires
        0 <= k < period(sample_rate, frequency),
    ensures
        0 <= k * clamp_frequency(frequency) < slope_divisor(sample_rate),
        0 <= k * clamp_frequency(frequency) * SAMPLE_FULL < slope_divisor(sample_rate)
            * SAMPLE_FULL,
        0 <= (k * clamp_frequency(frequency) * SAMPLE_FULL) / slope_divisor(sample_rate)
            < SAMPLE_FULL,
        -SAMPLE_HALF < ramp(k, sample_rate, frequency) <= SAMPLE_HALF,
{
    let f = clamp_frequency(frequency) as int;
    let s = sample_rate as int;
    let d = slope_divisor(sample_rate);
    let x = k * f;
    if s / f >= 1 {
        lemma_fundamental_div_mod(s, f);
        assert(0 <= x < d) by (nonlinear_arith)
            requires
                x == k * f,
                0 <= k,
                k + 1 <= s / f,
                s == f * (s / f) + s % f,
                0 <= s % f,
                0 < f,
                d == s,
        ;
    } else {
        assert(k == 0);
        assert(x == 0) by (nonlinear_arith)
            requires
                x == k * f,
                k == 0,
        ;
    }
    assert(0 <= x * 65536 < d * 65536 && 0 <= (x * 65536) / d < 65536) by (nonlinear_arith)
        requires
            0 <= x < d,
    ;
}

/// After `n` samples the ramp position is the starting position plus `n`,
/// taken modulo the period.
pub proof fn lemma_position_after(osc: Oscillator, sample_rate: u32, n: nat)
    ensures
        osc.spec_run(sample_rate, n).frequency == osc.frequency,
        wrapped(
            osc.spec_run(sample_rate, n).phase as int,
            period(sample_rate, osc.frequency),
        ) == (wrapped(osc.phase as int, period(sample_rate, osc.frequency)) + n) % period(
            sample_rate,
            osc.frequency,
        ),
    decreases n,
{
    let p = period(sample_rate, osc.frequency);
    let k0 = wrapped(osc.phase as int, p);
    if n == 0 {
        lemma_small_mod(k0 as nat, p as nat);
    } else {
        let m = (n - 1) as nat;
        lemma_position_after(osc, sample_rate, m);
        let prev = osc.spec_run(sample_rate, m);
        let w = wrapped(prev.phase as int, p);
        assert(osc.spec_run(sample_rate, n) == prev.spec_advance(sample_rate));
        assert(0 <= w < p);
        lemma_add_mod_noop(k0 + m, 1, p);
        if w + 1 < p {
            lemma_small_mod((w + 1) as nat, p as nat);
            lemma_small_mod(1, p as nat);
        } else {
            assert(w + 1 == p);
            lemma_mod_add_multiples_vanish(0, p);
            lemma_small_mod(0, p as nat);
            if p == 1 {
                assert(1int % 1 == 0);
            } else {
                lemma_small_mod(1, p as nat);
            }
        }
    }
}

/// At a fixed frequency the sample stream repeats after one period, and for
/// a frequency above zero and below half the sample rate that period lies
/// within one sample of the rounded quotient of sample rate and frequency.
pub proof fn lemma_sawtooth_periodic(osc: Oscillator, sample_rate: u32, n: nat)
    requires
        0 < osc.frequency,
        2 * osc.frequency < sample_rate,
    ensures
        osc.sample_at(sample_rate, n + period(sample_rate, osc.frequency) as nat) == osc.sample_at(
            sample_rate,
            n,
        ),
        period(sample_rate, osc.frequency) <= rounded_period(sample_rate, osc.frequency) <= period(
            sample_rate,
            osc.frequency,
        ) + 1,
{
    lemma_repeats_after_period(osc, sample_rate, n);
    let f = osc.frequency as int;
    let s = sample_rate as int;
    assert(s / f <= (2 * s + f) / (2 * f) <= s / f + 1 && s / f >= 1) by (nonlinear_arith)
        requires
            0 < f,
            2 * f < s,
    ;
}

/// At any fixed frequency the sample stream repeats after one period.
pub proof fn lemma_repeats_after_period(osc: Oscillator, sample_rate: u32, n: nat)
    ensures
        osc.sample_at(sample_rate, n + period(sample_rate, osc.frequency) as nat) == osc.sample_at(
            sample_rate,
            n,
        ),
{
    let p = period(sample_rate, osc.frequency);
    let k0 = wrapped(osc.phase as int, p);
    lemma_position_after(osc, sample_rate, n);
    lemma_position_after(osc, sample_rate, n + p as nat);
    lemma_mod_add_multiples_vanish(k0 + n, p);
    assert(k0 + (n + p as nat) == p + (k0 + n));
}

} // verus!
