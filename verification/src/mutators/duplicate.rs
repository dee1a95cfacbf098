//! Duplicating one packet.

use vstd::prelude::*;
use libafl_bolts::rands::StdRand;
use libafl_bolts::Error;
use std::marker::PhantomData;
use crate::rand::below;
use crate::result::MutationResult;

verus! {

/// What duplicating does once the source `from` and the target `to` are
/// drawn: nothing where the input is full or the two are the same, else a
/// clone of the packet at `from` is put in before position `to`.
pub open spec fn duplicate_step<P: Clone>(
    before: Seq<P>,
    after: Seq<P>,
    result: MutationResult,
    max_packets: int,
    from: int,
    to: int,
) -> bool {
    &&& 0 <= from < before.len()
    &&& 0 <= to <= before.len()
    &&& if before.len() >= max_packets || from == to {
        result == MutationResult::Skipped && after == before
    } else {
        &&& result == MutationResult::Mutated
        &&& after.len() == before.len() + 1
        &&& cloned(before[from], after[to])
        &&& after == before.insert(to, after[to])
    }
}

/// What duplicating may do to an input: nothing to an empty one and to one
/// of `max_packets` packets or more; else there are a source and a target
/// position with which it did a step.
pub open spec fn duplicate_outcome<P: Clone>(
    before: Seq<P>,
    after: Seq<P>,
    result: Result<MutationResult, Error>,
    max_packets: int,
) -> bool {
    if before.len() == 0 || before.len() >= max_packets {
        result == Ok::<MutationResult, Error>(MutationResult::Skipped) && after == before
    } else {
        exists|from: int, to: int|
            result is Ok && #[trigger] duplicate_step(
                before,
                after,
                result->Ok_0,
                max_packets,
                from,
                to,
            )
    }
}

/// Duplicating adds one clone of a packet and changes no other.
pub proof fn lemma_duplicate_adds_one<P: Clone>(
    before: Seq<P>,
    after: Seq<P>,
    result: MutationResult,
    max_packets: int,
    from: int,
    to: int,
)
    requires
        duplicate_step(before, after, result, max_packets, from, to),
    ensures
        result == MutationResult::Skipped ==> after.to_multiset() == before.to_multiset(),
        result == MutationResult::Mutated ==> after.to_multiset() == before.to_multiset().insert(
            after[to],
        ),
{
    if result == MutationResult::Mutated {
        vstd::seq_lib::to_multiset_insert(before, to, after[to]);
    }
}

/// A mutator that duplicates one random packet, as long as the input has
/// fewer than a given number of packets.
pub struct PacketDuplicateMutator<P> {
    max_packets: usize,
    phantom: PhantomData<P>,
}

impl<P: Clone> PacketDuplicateMutator<P> {
    /// The number of packets that the mutator does not exceed.
    pub closed spec fn spec_max_packets(&self) -> usize {
        self.max_packets
    }

    /// A duplicate mutator that lets an input grow to `max_packets` packets.
    pub fn new(max_packets: usize) -> (mutator: Self)
        ensures
            mutator.spec_max_packets() == max_packets,
    {
        PacketDuplicateMutator { max_packets, phantom: PhantomData }
    }

    /// The number of packets that the mutator does not exceed.
    pub fn max_packets(&self) -> (max_packets: usize)
        ensures
            max_packets == self.spec_max_packets(),
    {
        self.max_packets
    }

    /// Duplicates with the source `from` and the target `to` already drawn.
    pub fn mutate_at(&self, packets: &mut Vec<P>, from: usize, to: usize) -> (result:
        MutationResult)
        requires
            from < old(packets).len(),
            to <= old(packets).len(),
        ensures
            duplicate_step(
                old(packets)@,
                final(packets)@,
                result,
                self.spec_max_packets() as int,
                from as int,
                to as int,
            ),
    {
        if packets.len() >= self.max_packets || from == to {
            return MutationResult::Skipped;
        }
        let copy = packets[from].clone();
        packets.insert(to, copy);
        MutationResult::Mutated
    }

    /// Puts a clone of a random packet in at a random position, the end
    /// included. An empty input and one that is full are skipped, and so is
    /// a draw of the same position for both.
    pub fn mutate(&mut self, rand: &mut StdRand, packets: &mut Vec<P>) -> (result: Result<
        MutationResult,
        Error,
    >)
        ensures
            final(self).spec_max_packets() == old(self).spec_max_packets(),
            duplicate_outcome(
                old(packets)@,
                final(packets)@,
                result,
                old(self).spec_max_packets() as int,
            ),
            result == Ok::<MutationResult, Error>(MutationResult::Skipped) ==> final(packets)@
                == old(packets)@,
            result == Ok::<MutationResult, Error>(MutationResult::Mutated) ==> exists|
                from: int,
                to: int,
            |
                {
                    &&& 0 <= from < old(packets)@.len()
                    &&& 0 <= to < final(packets)@.len()
                    &&& #[trigger] cloned(old(packets)@[from], final(packets)@[to])
                    &&& final(packets)@.to_multiset() == old(packets)@.to_multiset().insert(
                        final(packets)@[to],
                    )
                },
    {
        if packets.len() == 0 || packets.len() >= self.max_packets {
            return Ok(MutationResult::Skipped);
        }
        let from = below(rand, packets.len());
        let to = below(rand, packets.len() + 1);
        let done = self.mutate_at(packets, from, to);
        proof {
            lemma_duplicate_adds_one(
                old(packets)@,
                packets@,
                done,
                self.max_packets as int,
                from as int,
                to as int,
            );
        }
        let result = Ok(done);
        assert(duplicate_step(
            old(packets)@,
            packets@,
            result->Ok_0,
            self.max_packets as int,
            from as int,
            to as int,
        ));
        result
    }

    /// The mutator's name.
    pub fn name(&self) -> (name: &'static str)
        ensures
            name@ == "PacketDuplicateMutator"@,
    {
        "PacketDuplicateMutator"
    }
}

} // verus!
