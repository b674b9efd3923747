//! A polyphonic sawtooth synthesizer engine in fixed-point arithmetic.
//!
//! Frequencies and the sample rate are unsigned integers in one common unit
//! (the binding layer picks it, millihertz for instance). A sample is a signed
//! integer in units of `1 / SAMPLE_FULL`, so that `SAMPLE_HALF` stands for +0.5.
//!
//! The engine owns all voice state. The control surface reaches it only
//! through a bounded queue of messages, which neither side ever blocks on.

pub mod control;
pub mod engine;
pub mod error;
pub mod message;
pub mod oscillator;
pub mod pool;
pub mod queue;
pub mod voice;
