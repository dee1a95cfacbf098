//! The scheduler that runs one mutator per call.

use vstd::prelude::*;
use libafl_bolts::rands::StdRand;
use libafl_bolts::Error;
use crate::mutators::crossover::crossover_insert_outcome;
use crate::mutators::crossover::crossover_replace_outcome;
use crate::mutators::crossover::HasCrossoverInsertMutation;
use crate::mutators::crossover::HasCrossoverReplaceMutation;
use crate::mutators::crossover::PacketCrossoverInsertMutator;
use crate::mutators::crossover::PacketCrossoverReplaceMutator;
use crate::mutators::delete::delete_outcome;
use crate::mutators::delete::PacketDeleteMutator;
use crate::mutators::duplicate::duplicate_outcome;
use crate::mutators::duplicate::PacketDuplicateMutator;
use crate::mutators::reorder::reorder_outcome;
use crate::mutators::reorder::PacketReorderMutator;
use crate::mutators::splice::splice_outcome;
use crate::mutators::splice::HasSpliceMutation;
use crate::mutators::splice::PacketSpliceMutator;
use crate::rand::below;
use crate::result::MutationResult;

verus! {

/// One of the mutators of this library, so that mutators of different
/// kinds can stand in one list.
pub enum PacketMutator<P> {
    /// Swaps two packets.
    Reorder(PacketReorderMutator<P>),
    /// Deletes a packet.
    Delete(PacketDeleteMutator<P>),
    /// Duplicates a packet.
    Duplicate(PacketDuplicateMutator<P>),
    /// Inserts bytes of one packet into another.
    CrossoverInsert(PacketCrossoverInsertMutator<P>),
    /// Replaces bytes of one packet by bytes of another.
    CrossoverReplace(PacketCrossoverReplaceMutator<P>),
    /// Splices two packets together.
    Splice(PacketSpliceMutator<P>),
}

impl<
    P: Clone + HasCrossoverInsertMutation + HasCrossoverReplaceMutation + HasSpliceMutation,
> PacketMutator<P> {
    /// Whether one call of this mutator may turn `before` into `after`
    /// and report `result`.
    pub open spec fn outcome(
        self,
        before: Seq<P>,
        after: Seq<P>,
        result: Result<MutationResult, Error>,
    ) -> bool {
        match self {
            PacketMutator::Reorder(_) => reorder_outcome(before, after, result),
            PacketMutator::Delete(m) => delete_outcome(
                before,
                after,
                result,
                m.spec_min_packets() as int,
            ),
            PacketMutator::Duplicate(m) => duplicate_outcome(
                before,
                after,
                result,
                m.spec_max_packets() as int,
            ),
            PacketMutator::CrossoverInsert(_) => crossover_insert_outcome(before, after, result),
            PacketMutator::CrossoverReplace(_) => crossover_replace_outcome(before, after, result),
            PacketMutator::Splice(m) => splice_outcome(
                before,
                after,
                result,
                m.spec_min_packets() as int,
            ),
        }
    }

    /// Whether `self` and `other` are of one kind and made with the same
    /// bound, so that they do the same.
    pub open spec fn alike(self, other: Self) -> bool {
        match (self, other) {
            (PacketMutator::Reorder(_), PacketMutator::Reorder(_)) => true,
            (PacketMutator::Delete(m), PacketMutator::Delete(n)) => m.spec_min_packets()
                == n.spec_min_packets(),
            (PacketMutator::Duplicate(m), PacketMutator::Duplicate(n)) => m.spec_max_packets()
                == n.spec_max_packets(),
            (PacketMutator::CrossoverInsert(_), PacketMutator::CrossoverInsert(_)) => true,
            (PacketMutator::CrossoverReplace(_), PacketMutator::CrossoverReplace(_)) => true,
            (PacketMutator::Splice(m), PacketMutator::Splice(n)) => m.spec_min_packets()
                == n.spec_min_packets(),
            _ => false,
        }
    }

    /// Runs the mutator once.
    pub fn mutate(&mut self, rand: &mut StdRand, packets: &mut Vec<P>) -> (result: Result<
        MutationResult,
        Error,
    >)
        ensures
            old(self).outcome(old(packets)@, final(packets)@, result),
            final(self).alike(*old(self)),
            result == Ok::<MutationResult, Error>(MutationResult::Skipped) ==> final(packets)@
                == old(packets)@,
    {
        match self {
            PacketMutator::Reorder(m) => m.mutate(rand, packets),
            PacketMutator::Delete(m) => m.mutate(rand, packets),
            PacketMutator::Duplicate(m) => m.mutate(rand, packets),
            PacketMutator::CrossoverInsert(m) => m.mutate(rand, packets),
            PacketMutator::CrossoverReplace(m) => m.mutate(rand, packets),
            PacketMutator::Splice(m) => m.mutate(rand, packets),
        }
    }

    /// The mutator's name.
    pub fn name(&self) -> (name: &'static str)
        ensures
            name@ == match *self {
                PacketMutator::Reorder(_) => "PacketReorderMutator"@,
                PacketMutator::Delete(_) => "PacketDeleteMutator"@,
                PacketMutator::Duplicate(_) => "PacketDuplicateMutator"@,
                PacketMutator::CrossoverInsert(_) => "PacketCrossoverInsertMutator"@,
                PacketMutator::CrossoverReplace(_) => "PacketCrossoverReplaceMutator"@,
                PacketMutator::Splice(_) => "PacketSpliceMutator"@,
            },
    {
        match self {
            PacketMutator::Reorder(m) => m.name(),
            PacketMutator::Delete(m) => m.name(),
            PacketMutator::Duplicate(m) => m.name(),
            PacketMutator::CrossoverInsert(m) => m.name(),
            PacketMutator::CrossoverReplace(m) => m.name(),
            PacketMutator::Splice(m) => m.name(),
        }
    }
}

/// Whether the mutators of `now` are, one by one, alike to those of `then`.
pub open spec fn all_alike<
    P: Clone + HasCrossoverInsertMutation + HasCrossoverReplaceMutation + HasSpliceMutation,
>(now: Seq<PacketMutator<P>>, then: Seq<PacketMutator<P>>) -> bool {
    &&& now.len() == then.len()
    &&& forall|i: int| 0 <= i < now.len() ==> (#[trigger] now[i]).alike(then[i])
}

/// Whether one call of one of `mutations` may turn `before` into `after`
/// and report `result`.
pub open spec fn one_ran<
    P: Clone + HasCrossoverInsertMutation + HasCrossoverReplaceMutation + HasSpliceMutation,
>(
    mutations: Seq<PacketMutator<P>>,
    before: Seq<P>,
    after: Seq<P>,
    result: Result<MutationResult, Error>,
) -> bool {
    exists|id: int|
        0 <= id < mutations.len() && (#[trigger] mutations[id]).outcome(before, after, result)
}

/// Mutators that are alike have the same outcomes.
pub proof fn lemma_alike_outcome<
    P: Clone + HasCrossoverInsertMutation + HasCrossoverReplaceMutation + HasSpliceMutation,
>(
    a: PacketMutator<P>,
    b: PacketMutator<P>,
    before: Seq<P>,
    after: Seq<P>,
    result: Result<MutationResult, Error>,
)
    requires
        a.alike(b),
    ensures
        a.outcome(before, after, result) == b.outcome(before, after, result),
{
}

/// A scheduler over a list of mutators that runs one of them per round.
/// The mutators may stack mutations of their own, so no round runs two.
pub struct PacketMutationScheduler<P> {
    mutations: Vec<PacketMutator<P>>,
}

impl<
    P: Clone + HasCrossoverInsertMutation + HasCrossoverReplaceMutation + HasSpliceMutation,
> PacketMutationScheduler<P> {
    /// The mutators that the scheduler chooses from.
    pub closed spec fn spec_mutations(&self) -> Seq<PacketMutator<P>> {
        self.mutations@
    }

    /// A scheduler over the given mutators.
    pub fn new(mutations: Vec<PacketMutator<P>>) -> (scheduler: Self)
        ensures
            scheduler.spec_mutations() == mutations@,
    {
        PacketMutationScheduler { mutations }
    }

    /// The mutators that the scheduler chooses from.
    pub fn mutations(&self) -> (mutations: &Vec<PacketMutator<P>>)
        ensures
            mutations@ == self.spec_mutations(),
    {
        &self.mutations
    }

    /// The mutators that the scheduler chooses from, for changing them.
    pub fn mutations_mut(&mut self) -> (mutations: &mut Vec<PacketMutator<P>>)
        ensures
            mutations@ == old(self).spec_mutations(),
            final(self).spec_mutations() == final(mutations)@,
    {
        &mut self.mutations
    }

    /// The scheduler's name.
    pub fn name(&self) -> (name: &'static str)
        ensures
            name@ == "PacketMutationScheduler"@,
    {
        "PacketMutationScheduler"
    }

    /// The number of mutators that one round runs: always one.
    pub fn iterations(&self) -> (iterations: u64)
        ensures
            iterations == 1,
    {
        1
    }

    /// Draws the mutator of the next round.
    pub fn schedule(&self, rand: &mut StdRand) -> (id: usize)
        requires
            self.spec_mutations().len() > 0,
        ensures
            id < self.spec_mutations().len(),
    {
        below(rand, self.mutations.len())
    }

    /// Runs the mutator with the number `id`.
    pub fn get_and_mutate(&mut self, id: usize, rand: &mut StdRand, packets: &mut Vec<P>) -> (result:
        Result<MutationResult, Error>)
        requires
            id < old(self).spec_mutations().len(),
        ensures
            old(self).spec_mutations()[id as int].outcome(old(packets)@, final(packets)@, result),
            all_alike(final(self).spec_mutations(), old(self).spec_mutations()),
            result == Ok::<MutationResult, Error>(MutationResult::Skipped) ==> final(packets)@
                == old(packets)@,
    {
        self.mutations[id].mutate(rand, packets)
    }

    /// One round: draws a mutator and runs it.
    pub fn mutate_once(&mut self, rand: &mut StdRand, packets: &mut Vec<P>) -> (result: Result<
        MutationResult,
        Error,
    >)
        requires
            old(self).spec_mutations().len() > 0,
        ensures
            one_ran(old(self).spec_mutations(), old(packets)@, final(packets)@, result),
            all_alike(final(self).spec_mutations(), old(self).spec_mutations()),
            result == Ok::<MutationResult, Error>(MutationResult::Skipped) ==> final(packets)@
                == old(packets)@,
    {
        let id = self.schedule(rand);
        self.get_and_mutate(id, rand, packets)
    }

    /// Runs rounds until one does not report `Skipped`, but no more than
    /// `rounds` of them. What the run reports and does to the input is
    /// what its last round did, one mutator run once: the rounds before it
    /// were skipped and left the input as it was, and no second mutator
    /// runs after a mutation.
    pub fn scheduled_mutate(&mut self, rand: &mut StdRand, packets: &mut Vec<P>, rounds: usize) -> (result:
        Result<MutationResult, Error>)
        requires
            old(self).spec_mutations().len() > 0,
        ensures
            all_alike(final(self).spec_mutations(), old(self).spec_mutations()),
            rounds == 0 ==> result == Ok::<MutationResult, Error>(MutationResult::Skipped),
            result == Ok::<MutationResult, Error>(MutationResult::Skipped) ==> final(packets)@
                == old(packets)@,
            rounds > 0 ==> one_ran(
                old(self).spec_mutations(),
                old(packets)@,
                final(packets)@,
                result,
            ),
    {
        let mut round: usize = 0;
        while round < rounds
            invariant
                round <= rounds,
                packets@ == old(packets)@,
                all_alike(self.spec_mutations(), old(self).spec_mutations()),
                self.spec_mutations().len() > 0,
                round > 0 ==> one_ran(
                    old(self).spec_mutations(),
                    old(packets)@,
                    old(packets)@,
                    Ok::<MutationResult, Error>(MutationResult::Skipped),
                ),
            decreases rounds - round,
        {
            let ghost mutations = self.spec_mutations();
            let result = self.mutate_once(rand, packets);
            proof {
                let id = choose|id: int|
                    0 <= id < mutations.len() && (#[trigger] mutations[id]).outcome(
                        old(packets)@,
                        packets@,
                        result,
                    );
                lemma_alike_outcome(
                    mutations[id],
                    old(self).spec_mutations()[id],
                    old(packets)@,
                    packets@,
                    result,
                );
                assert(old(self).spec_mutations()[id].outcome(old(packets)@, packets@, result));
                assert(one_ran(old(self).spec_mutations(), old(packets)@, packets@, result));
                assert forall|i: int| 0 <= i < mutations.len() implies (
                #[trigger] self.spec_mutations()[i]).alike(old(self).spec_mutations()[i]) by {
                    lemma_alike_trans(
                        self.spec_mutations()[i],
                        mutations[i],
                        old(self).spec_mutations()[i],
                    );
                }
            }
            match result {
                Ok(MutationResult::Skipped) => {},
                _ => {
                    return result;
                },
            }
            round = round + 1;
        }
        Ok(MutationResult::Skipped)
    }
}

/// Being alike carries over from one pair of mutators to the next.
pub proof fn lemma_alike_trans<
    P: Clone + HasCrossoverInsertMutation + HasCrossoverReplaceMutation + HasSpliceMutation,
>(a: PacketMutator<P>, b: PacketMutator<P>, c: PacketMutator<P>)
    requires
        a.alike(b),
        b.alike(c),
    ensures
        a.alike(c),
{
}

} // verus!
