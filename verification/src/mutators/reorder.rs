//! Swapping two packets.

use vstd::prelude::*;
use libafl_bolts::rands::StdRand;
use libafl_bolts::Error;
use std::marker::PhantomData;
use crate::rand::below;
use crate::result::MutationResult;

verus! {

/// `slice::swap` exchanges the elements at the two indices; it panics
/// where one of them is out of bounds.
pub assume_specification<T>[ <[T]>::swap ](slice: &mut [T], a: usize, b: usize)
    requires
        a < old(slice)@.len(),
        b < old(slice)@.len(),
    ensures
        final(slice)@ == swapped(old(slice)@, a as int, b as int),
;

/// `s` with the elements at `i` and `j` exchanged.
pub open spec fn swapped<P>(s: Seq<P>, i: int, j: int) -> Seq<P> {
    s.update(i, s[j]).update(j, s[i])
}

/// What reordering does once the two positions `from` and `to` are drawn:
/// nothing where they are the same, else the two packets change places.
pub open spec fn reorder_step<P>(
    before: Seq<P>,
    after: Seq<P>,
    result: MutationResult,
    from: int,
    to: int,
) -> bool {
    &&& 0 <= from < before.len()
    &&& 0 <= to < before.len()
    &&& if from == to {
        result == MutationResult::Skipped && after == before
    } else {
        result == MutationResult::Mutated && after == swapped(before, from, to)
    }
}

/// What reordering may do to an input: nothing to one of fewer than two
/// packets; else there are two positions in it with which it did a step.
pub open spec fn reorder_outcome<P>(
    before: Seq<P>,
    after: Seq<P>,
    result: Result<MutationResult, Error>,
) -> bool {
    if before.len() <= 1 {
        result == Ok::<MutationResult, Error>(MutationResult::Skipped) && after == before
    } else {
        exists|from: int, to: int|
            result is Ok && #[trigger] reorder_step(before, after, result->Ok_0, from, to)
    }
}

/// Reordering changes no packet and keeps each as often as it was there.
pub proof fn lemma_reorder_keeps_packets<P>(
    before: Seq<P>,
    after: Seq<P>,
    result: MutationResult,
    from: int,
    to: int,
)
    requires
        reorder_step(before, after, result, from, to),
    ensures
        after.len() == before.len(),
        after.to_multiset() == before.to_multiset(),
{
    if from != to {
        let half = before.update(from, before[to]);
        vstd::seq_lib::to_multiset_update(before, from, before[to]);
        vstd::seq_lib::to_multiset_update(half, to, before[from]);
        vstd::seq_lib::to_multiset_contains(before, before[from]);
        vstd::seq_lib::to_multiset_contains(before, before[to]);
        assert(after.to_multiset() =~= before.to_multiset());
    }
}

/// A mutator that swaps two random packets.
pub struct PacketReorderMutator<P> {
    phantom: PhantomData<P>,
}

impl<P> PacketReorderMutator<P> {
    /// A new reorder mutator.
    pub fn new() -> Self {
        PacketReorderMutator { phantom: PhantomData }
    }

    /// Reorders with the positions `from` and `to` already drawn.
    pub fn mutate_at(&self, packets: &mut Vec<P>, from: usize, to: usize) -> (result:
        MutationResult)
        requires
            from < old(packets).len(),
            to < old(packets).len(),
        ensures
            reorder_step(old(packets)@, final(packets)@, result, from as int, to as int),
    {
        if from == to {
            return MutationResult::Skipped;
        }
        packets.swap(from, to);
        MutationResult::Mutated
    }

    /// Swaps two packets at random positions. An input of fewer than two
    /// packets is skipped, and so is a draw of the same position twice.
    pub fn mutate(&mut self, rand: &mut StdRand, packets: &mut Vec<P>) -> (result: Result<
        MutationResult,
        Error,
    >)
        ensures
            reorder_outcome(old(packets)@, final(packets)@, result),
            result == Ok::<MutationResult, Error>(MutationResult::Skipped) ==> final(packets)@
                == old(packets)@,
            final(packets)@.len() == old(packets)@.len(),
            final(packets)@.to_multiset() == old(packets)@.to_multiset(),
    {
        if packets.len() <= 1 {
            return Ok(MutationResult::Skipped);
        }
        let from = below(rand, packets.len());
        let to = below(rand, packets.len());
        let done = self.mutate_at(packets, from, to);
        proof {
            lemma_reorder_keeps_packets(
                old(packets)@,
                packets@,
                done,
                from as int,
                to as int,
            );
        }
        let result = Ok(done);
        assert(reorder_step(old(packets)@, packets@, result->Ok_0, from as int, to as int));
        result
    }

    /// The mutator's name.
    pub fn name(&self) -> (name: &'static str)
        ensures
            name@ == "PacketReorderMutator"@,
    {
        "PacketReorderMutator"
    }
}

} // verus!
