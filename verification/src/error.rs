use vstd::prelude::*;

verus! {

/// What the engine reports about a control value it had to correct.
#[derive(Clone, Copy, Debug, PartialEq, Eq, Structural)]
pub enum SynthError {
    /// A parameter lay outside its domain; the engine went on with the
    /// nearest value inside it.
    InvalidParameter,
}

} // verus!
