//! Deleting one packet.

use vstd::prelude::*;
use libafl_bolts::rands::StdRand;
use libafl_bolts::Error;
use std::marker::PhantomData;
use crate::rand::below;
use crate::result::MutationResult;

verus! {

/// What deleting does once the position `idx` is drawn: nothing while the
/// input has no more than `min_packets` packets, else the packet at `idx` leaves.
pub open spec fn delete_step<P>(
    before: Seq<P>,
    after: Seq<P>,
    result: MutationResult,
    min_packets: int,
    idx: int,
) -> bool {
    &&& 0 <= idx < before.len()
    &&& if before.len() <= min_packets {
        result == MutationResult::Skipped && after == before
    } else {
        result == MutationResult::Mutated && after == before.remove(idx)
    }
}

/// What deleting may do to an input: nothing to one of no more than
/// `min_packets` packets; else there is a position in it with which it did
/// a step.
pub open spec fn delete_outcome<P>(
    before: Seq<P>,
    after: Seq<P>,
    result: Result<MutationResult, Error>,
    min_packets: int,
) -> bool {
    if before.len() <= min_packets {
        result == Ok::<MutationResult, Error>(MutationResult::Skipped) && after == before
    } else {
        exists|idx: int|
            result is Ok && #[trigger] delete_step(before, after, result->Ok_0, min_packets, idx)
    }
}

/// Deleting takes one packet away and changes no other.
pub proof fn lemma_delete_removes_one<P>(
    before: Seq<P>,
    after: Seq<P>,
    result: MutationResult,
    min_packets: int,
    idx: int,
)
    requires
        delete_step(before, after, result, min_packets, idx),
    ensures
        result == MutationResult::Skipped ==> after.to_multiset() == before.to_multiset(),
        result == MutationResult::Mutated ==> after.len() + 1 == before.len()
            && after.to_multiset().insert(before[idx]) == before.to_multiset(),
{
    if before.len() > min_packets {
        vstd::seq_lib::to_multiset_remove(before, idx);
        vstd::seq_lib::to_multiset_contains(before, before[idx]);
        assert(after.to_multiset().insert(before[idx]) =~= before.to_multiset());
    }
}

/// A mutator that deletes one random packet, as long as more than a given
/// number of packets is left.
pub struct PacketDeleteMutator<P> {
    phantom: PhantomData<P>,
    min_packets: usize,
}

impl<P> PacketDeleteMutator<P> {
    /// The least number of packets that the mutator leaves in an input.
    pub closed spec fn spec_min_packets(&self) -> usize {
        self.min_packets
    }

    /// A delete mutator that leaves at least `min_packets` packets, and
    /// never fewer than one.
    pub fn new(min_packets: usize) -> (mutator: Self)
        ensures
            mutator.spec_min_packets() == if min_packets < 1 {
                1
            } else {
                min_packets
            },
    {
        PacketDeleteMutator {
            phantom: PhantomData,
            min_packets: if min_packets < 1 {
                1
            } else {
                min_packets
            },
        }
    }

    /// The least number of packets that the mutator leaves in an input.
    pub fn min_packets(&self) -> (min_packets: usize)
        ensures
            min_packets == self.spec_min_packets(),
            min_packets >= 1,
    {
        proof {
            use_type_invariant(self);
        }
        self.min_packets
    }

    #[verifier::type_invariant]
    spec fn at_least_one(&self) -> bool {
        self.min_packets >= 1
    }

    /// Deletes with the position `idx` already drawn.
    pub fn mutate_at(&self, packets: &mut Vec<P>, idx: usize) -> (result: MutationResult)
        requires
            idx < old(packets).len(),
        ensures
            delete_step(
                old(packets)@,
                final(packets)@,
                result,
                self.spec_min_packets() as int,
                idx as int,
            ),
    {
        if packets.len() <= self.min_packets {
            return MutationResult::Skipped;
        }
        packets.remove(idx);
        MutationResult::Mutated
    }

    /// Deletes the packet at a random position. An input of no more than
    /// the least number of packets is skipped.
    pub fn mutate(&mut self, rand: &mut StdRand, packets: &mut Vec<P>) -> (result: Result<
        MutationResult,
        Error,
    >)
        ensures
            final(self).spec_min_packets() == old(self).spec_min_packets(),
            delete_outcome(
                old(packets)@,
                final(packets)@,
                result,
                old(self).spec_min_packets() as int,
            ),
            result == Ok::<MutationResult, Error>(MutationResult::Mutated) <==> old(packets).len()
                > old(self).spec_min_packets(),
            result == Ok::<MutationResult, Error>(MutationResult::Skipped) ==> final(packets)@
                == old(packets)@,
            result == Ok::<MutationResult, Error>(MutationResult::Mutated) ==> exists|idx: int|
                0 <= idx < old(packets)@.len() && final(packets)@.to_multiset().insert(
                    #[trigger] old(packets)@[idx],
                ) == old(packets)@.to_multiset(),
    {
        proof {
            use_type_invariant(&*self);
        }
        if packets.len() <= self.min_packets {
            return Ok(MutationResult::Skipped);
        }
        let idx = below(rand, packets.len());
        let done = self.mutate_at(packets, idx);
        proof {
            lemma_delete_removes_one(
                old(packets)@,
                packets@,
                done,
                self.min_packets as int,
                idx as int,
            );
        }
        let result = Ok(done);
        assert(delete_step(
            old(packets)@,
            packets@,
            result->Ok_0,
            self.min_packets as int,
            idx as int,
        ));
        result
    }

    /// The mutator's name.
    pub fn name(&self) -> (name: &'static str)
        ensures
            name@ == "PacketDeleteMutator"@,
    {
        "PacketDeleteMutator"
    }
}

} // verus!
