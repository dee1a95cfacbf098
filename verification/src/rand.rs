//! The random source that the mutators draw from.

use vstd::prelude::*;
use libafl_bolts::rands::Rand;
use libafl_bolts::rands::StdRand;
use std::num::NonZero;

verus! {

/// `libafl_bolts::rands::RomuDuoJrRand`, the generator behind `StdRand`.
/// Nothing is known of its state.
#[verifier::external_type_specification]
#[verifier::external_body]
pub struct ExStdRand(libafl_bolts::rands::RomuDuoJrRand);

/// Calls `Rand::below` of `libafl_bolts`, which multiplies the next 64-bit
/// draw by the bound and keeps the upper 64 bits of the product; that value
/// is below the bound. Nothing more is claimed: which value comes back
/// depends on the generator's state.
#[verifier::external_body]
pub(crate) fn below(rand: &mut StdRand, bound: usize) -> (r: usize)
    requires
        bound > 0,
    ensures
        r < bound,
{
    rand.below(NonZero::new(bound).unwrap())
}

} // verus!
