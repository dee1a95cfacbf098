//! The outcome that every mutator reports.

use vstd::prelude::*;

verus! {

/// `libafl_bolts::Error`, the error of the surrounding engine. It is only
/// handed on, never looked into.
#[verifier::external_type_specification]
#[verifier::external_body]
pub struct ExError(libafl_bolts::Error);

/// What a mutator did to its input.
#[derive(Clone, Copy, Debug, PartialEq, Eq, Structural)]
pub enum MutationResult {
    /// The input was changed.
    Mutated,
    /// Nothing was changed by this call.
    Skipped,
}

} // verus!
