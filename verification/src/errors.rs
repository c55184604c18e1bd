//! The failure taxonomy of the engine.
//!
//! Every operation is all-or-nothing: an error aborts with zero partial
//! mutation, and each failure surfaces its specific kind to the caller.

use vstd::prelude::*;

verus! {

/// Why an engine operation refused to run.
#[derive(Clone, Copy, Debug, PartialEq, Eq, Structural)]
pub enum StakeError {
    /// A zero amount, an unsupported lock duration, or an index that
    /// names no entry.
    InvalidArgument,
    /// The operation is not allowed in the present state, such as
    /// removing a locked stake before it is resolved.
    InvalidState,
    /// The current round has not yet run for its minimum duration.
    RoundNotReady,
    /// A checked addition or multiplication would exceed the word size.
    ArithmeticOverflow,
    /// A checked subtraction would fall below zero.
    ArithmeticUnderflow,
    /// An external collaborator failed; embedders report such failures
    /// with this kind, unmodified. The engine itself never produces it.
    ExternalCallFailure,
}

} // verus!
