//! Crossover between two packets of one input: bytes of one packet are
//! inserted into another, or written over a part of it.

use vstd::prelude::*;
use libafl::inputs::BytesInput;
use libafl_bolts::rands::StdRand;
use libafl_bolts::Error;
use std::marker::PhantomData;
use crate::bytes::bytes_mut;
use crate::bytes::bytes_of;
use crate::bytes::insert_bytes;
use crate::bytes::inserted;
use crate::bytes::payload;
use crate::bytes::replace_bytes;
use crate::bytes::replaced;
use crate::rand::below;
use crate::result::MutationResult;

verus! {

/// A packet type into which bytes of another packet can be inserted.
pub trait HasCrossoverInsertMutation: Sized {
    /// Whether inserting bytes of `other` into `before` may report
    /// `result` and leave `after`.
    spec fn crossover_insert_of(
        before: Self,
        other: Self,
        after: Self,
        result: Result<MutationResult, Error>,
    ) -> bool;

    /// Inserts bytes of `other` into `self`. A packet that has no room for
    /// that reports `Skipped` and stays as it is.
    fn mutate_crossover_insert(&mut self, rand: &mut StdRand, other: &Self) -> (result: Result<
        MutationResult,
        Error,
    >)
        ensures
            result == Ok::<MutationResult, Error>(MutationResult::Skipped) ==> *final(self) == *old(
                self,
            ),
            Self::crossover_insert_of(*old(self), *other, *final(self), result),
    ;
}

/// The draws of a crossover insertion: where the inserted bytes start in
/// the source, where they go in the target, and how many they are.
pub open spec fn insert_draw(dst_len: int, src_len: int, from: int, to: int, len: int) -> bool {
    &&& 0 <= from < src_len
    &&& 0 <= to < dst_len
    &&& 1 <= len <= src_len - from
}

impl HasCrossoverInsertMutation for BytesInput {
    open spec fn crossover_insert_of(
        before: Self,
        other: Self,
        after: Self,
        result: Result<MutationResult, Error>,
    ) -> bool {
        if payload(before).len() == 0 || payload(other).len() == 0 {
            result == Ok::<MutationResult, Error>(MutationResult::Skipped) && after == before
        } else {
            result == Ok::<MutationResult, Error>(MutationResult::Mutated) && exists|
                from: int,
                to: int,
                len: int,
            |
                insert_draw(
                    payload(before).len() as int,
                    payload(other).len() as int,
                    from,
                    to,
                    len,
                ) && payload(after) == #[trigger] inserted(
                    payload(before),
                    payload(other),
                    from,
                    to,
                    len,
                )
        }
    }

    /// Inserts a random run of bytes of `other` at a random position of
    /// `self`. Where one of the two is empty, nothing is done.
    fn mutate_crossover_insert(&mut self, rand: &mut StdRand, other: &Self) -> (result: Result<
        MutationResult,
        Error,
    >)
        ensures
            result is Ok,
            result->Ok_0 == MutationResult::Skipped <==> payload(*old(self)).len() == 0 || payload(
                *other,
            ).len() == 0,
            result->Ok_0 == MutationResult::Mutated ==> payload(*old(self)).len() + 1 <= payload(
                *final(self),
            ).len() <= payload(*old(self)).len() + payload(*other).len(),
    {
        let self_len = bytes_of(self).len();
        let other_len = bytes_of(other).len();
        if self_len == 0 || other_len == 0 {
            return Ok(MutationResult::Skipped);
        }
        let from = below(rand, other_len);
        let to = below(rand, self_len);
        let len = below(rand, other_len - from) + 1;
        insert_bytes(bytes_mut(self), bytes_of(other), from, to, len);
        assert(insert_draw(self_len as int, other_len as int, from as int, to as int, len as int));
        Ok(MutationResult::Mutated)
    }
}

/// What crossover insertion between the packets at `packet` and `other`
/// does to an input: nothing where the two positions are the same; else
/// bytes of the packet at `other` are inserted into the packet at
/// `packet`, as the packet type does it, and no other packet changes.
pub open spec fn crossover_insert_step<P: HasCrossoverInsertMutation>(
    before: Seq<P>,
    after: Seq<P>,
    result: Result<MutationResult, Error>,
    packet: int,
    other: int,
) -> bool {
    &&& 0 <= packet < before.len()
    &&& 0 <= other < before.len()
    &&& after.len() == before.len()
    &&& forall|i: int| 0 <= i < before.len() && i != packet ==> after[i] == before[i]
    &&& result == Ok::<MutationResult, Error>(MutationResult::Skipped) ==> after == before
    &&& if packet == other {
        result == Ok::<MutationResult, Error>(MutationResult::Skipped)
    } else {
        P::crossover_insert_of(before[packet], before[other], after[packet], result)
    }
}

/// What crossover may do to an input: nothing to one of fewer than two
/// packets; else there are two positions in it with which it did a step.
pub open spec fn crossover_insert_outcome<P: HasCrossoverInsertMutation>(
    before: Seq<P>,
    after: Seq<P>,
    result: Result<MutationResult, Error>,
) -> bool {
    if before.len() <= 1 {
        result == Ok::<MutationResult, Error>(MutationResult::Skipped) && after == before
    } else {
        exists|packet: int, other: int|
            crossover_insert_step(before, after, result, packet, other)
    }
}

/// A mutator that inserts bytes of one random packet into another.
pub struct PacketCrossoverInsertMutator<P> {
    phantom: PhantomData<P>,
}

impl<P: HasCrossoverInsertMutation> PacketCrossoverInsertMutator<P> {
    /// A new crossover-insert mutator.
    pub fn new() -> Self {
        PacketCrossoverInsertMutator { phantom: PhantomData }
    }

    /// Crosses over with the positions `packet` and `other` already drawn.
    pub fn mutate_at(
        &self,
        rand: &mut StdRand,
        packets: &mut Vec<P>,
        packet: usize,
        other: usize,
    ) -> (result: Result<MutationResult, Error>)
        requires
            packet < old(packets).len(),
            other < old(packets).len(),
        ensures
            crossover_insert_step(
                old(packets)@,
                final(packets)@,
                result,
                packet as int,
                other as int,
            ),
    {
        if packet == other {
            return Ok(MutationResult::Skipped);
        }
        let mut target = packets.remove(packet);
        let source = if other < packet {
            other
        } else {
            other - 1
        };
        let result = target.mutate_crossover_insert(rand, &packets[source]);
        packets.insert(packet, target);
        proof {
            if result == Ok::<MutationResult, Error>(MutationResult::Skipped) {
                assert(packets@ =~= old(packets)@);
            }
        }
        result
    }

    /// Inserts bytes of one random packet into another. An input of fewer
    /// than two packets is skipped, and so is a draw of the same packet twice.
    pub fn mutate(&mut self, rand: &mut StdRand, packets: &mut Vec<P>) -> (result: Result<
        MutationResult,
        Error,
    >)
        ensures
            crossover_insert_outcome(old(packets)@, final(packets)@, result),
            result == Ok::<MutationResult, Error>(MutationResult::Skipped) ==> final(packets)@
                == old(packets)@,
            final(packets)@.len() == old(packets)@.len(),
    {
        if packets.len() <= 1 {
            return Ok(MutationResult::Skipped);
        }
        let packet = below(rand, packets.len());
        let other = below(rand, packets.len());
        self.mutate_at(rand, packets, packet, other)
    }

    /// The mutator's name.
    pub fn name(&self) -> (name: &'static str)
        ensures
            name@ == "PacketCrossoverInsertMutator"@,
    {
        "PacketCrossoverInsertMutator"
    }
}

/// A packet type in which bytes can be replaced by bytes of another packet.
pub trait HasCrossoverReplaceMutation: Sized {
    /// Whether replacing bytes of `before` by bytes of `other` may report
    /// `result` and leave `after`.
    spec fn crossover_replace_of(
        before: Self,
        other: Self,
        after: Self,
        result: Result<MutationResult, Error>,
    ) -> bool;

    /// Replaces bytes of `self` by bytes of `other`. A packet that has no
    /// bytes for that reports `Skipped` and stays as it is.
    fn mutate_crossover_replace(&mut self, rand: &mut StdRand, other: &Self) -> (result: Result<
        MutationResult,
        Error,
    >)
        ensures
            result == Ok::<MutationResult, Error>(MutationResult::Skipped) ==> *final(self) == *old(
                self,
            ),
            Self::crossover_replace_of(*old(self), *other, *final(self), result),
    ;
}

/// The draws of a crossover replacement: where the bytes start in the
/// source, where they go in the target, and how many they are; they fit
/// into both.
pub open spec fn replace_draw(dst_len: int, src_len: int, from: int, to: int, len: int) -> bool {
    &&& 0 <= from < src_len
    &&& 0 <= to < dst_len
    &&& 1 <= len <= src_len - from
    &&& len <= dst_len - to
}

impl HasCrossoverReplaceMutation for BytesInput {
    open spec fn crossover_replace_of(
        before: Self,
        other: Self,
        after: Self,
        result: Result<MutationResult, Error>,
    ) -> bool {
        if payload(before).len() == 0 || payload(other).len() == 0 {
            result == Ok::<MutationResult, Error>(MutationResult::Skipped) && after == before
        } else {
            result == Ok::<MutationResult, Error>(MutationResult::Mutated) && exists|
                from: int,
                to: int,
                len: int,
            |
                replace_draw(
                    payload(before).len() as int,
                    payload(other).len() as int,
                    from,
                    to,
                    len,
                ) && payload(after) == #[trigger] replaced(
                    payload(before),
                    payload(other),
                    from,
                    to,
                    len,
                )
        }
    }

    /// Writes a random run of bytes of `other` over a random place of
    /// `self`. Where one of the two is empty, nothing is done.
    fn mutate_crossover_replace(&mut self, rand: &mut StdRand, other: &Self) -> (result: Result<
        MutationResult,
        Error,
    >)
        ensures
            result is Ok,
            result->Ok_0 == MutationResult::Skipped <==> payload(*old(self)).len() == 0 || payload(
                *other,
            ).len() == 0,
            payload(*final(self)).len() == payload(*old(self)).len(),
    {
        let self_len = bytes_of(self).len();
        let other_len = bytes_of(other).len();
        if self_len == 0 || other_len == 0 {
            return Ok(MutationResult::Skipped);
        }
        let from = below(rand, other_len);
        let to = below(rand, self_len);
        let room = if other_len - from < self_len - to {
            other_len - from
        } else {
            self_len - to
        };
        let len = 1 + below(rand, room);
        replace_bytes(bytes_mut(self), bytes_of(other), from, to, len);
        assert(replace_draw(self_len as int, other_len as int, from as int, to as int, len as int));
        Ok(MutationResult::Mutated)
    }
}

/// What crossover replacement between the packets at `packet` and
/// `other` does to an input: nothing where the two positions are the
/// same; else bytes of the packet at `packet` are replaced by bytes of the
/// packet at `other`, as the packet type does it, and no other packet
/// changes.
pub open spec fn crossover_replace_step<P: HasCrossoverReplaceMutation>(
    before: Seq<P>,
    after: Seq<P>,
    result: Result<MutationResult, Error>,
    packet: int,
    other: int,
) -> bool {
    &&& 0 <= packet < before.len()
    &&& 0 <= other < before.len()
    &&& after.len() == before.len()
    &&& forall|i: int| 0 <= i < before.len() && i != packet ==> after[i] == before[i]
    &&& result == Ok::<MutationResult, Error>(MutationResult::Skipped) ==> after == before
    &&& if packet == other {
        result == Ok::<MutationResult, Error>(MutationResult::Skipped)
    } else {
        P::crossover_replace_of(before[packet], before[other], after[packet], result)
    }
}

/// What crossover may do to an input: nothing to one of fewer than two
/// packets; else there are two positions in it with which it did a step.
pub open spec fn crossover_replace_outcome<P: HasCrossoverReplaceMutation>(
    before: Seq<P>,
    after: Seq<P>,
    result: Result<MutationResult, Error>,
) -> bool {
    if before.len() <= 1 {
        result == Ok::<MutationResult, Error>(MutationResult::Skipped) && after == before
    } else {
        exists|packet: int, other: int|
            crossover_replace_step(before, after, result, packet, other)
    }
}

/// A mutator that replaces bytes of one random packet by bytes of another.
pub struct PacketCrossoverReplaceMutator<P> {
    phantom: PhantomData<P>,
}

impl<P: HasCrossoverReplaceMutation> PacketCrossoverReplaceMutator<P> {
    /// A new crossover-replace mutator.
    pub fn new() -> Self {
        PacketCrossoverReplaceMutator { phantom: PhantomData }
    }

    /// Crosses over with the positions `packet` and `other` already drawn.
    pub fn mutate_at(
        &self,
        rand: &mut StdRand,
        packets: &mut Vec<P>,
        packet: usize,
        other: usize,
    ) -> (result: Result<MutationResult, Error>)
        requires
            packet < old(packets).len(),
            other < old(packets).len(),
        ensures
            crossover_replace_step(
                old(packets)@,
                final(packets)@,
                result,
                packet as int,
                other as int,
            ),
    {
        if packet == other {
            return Ok(MutationResult::Skipped);
        }
        let mut target = packets.remove(packet);
        let source = if other < packet {
            other
        } else {
            other - 1
        };
        let result = target.mutate_crossover_replace(rand, &packets[source]);
        packets.insert(packet, target);
        proof {
            if result == Ok::<MutationResult, Error>(MutationResult::Skipped) {
                assert(packets@ =~= old(packets)@);
            }
        }
        result
    }

    /// Replaces bytes of one random packet by bytes of another. An input of
    /// fewer than two packets is skipped, and so is a draw of the same
    /// packet twice.
    pub fn mutate(&mut self, rand: &mut StdRand, packets: &mut Vec<P>) -> (result: Result<
        MutationResult,
        Error,
    >)
        ensures
            crossover_replace_outcome(old(packets)@, final(packets)@, result),
            result == Ok::<MutationResult, Error>(MutationResult::Skipped) ==> final(packets)@
                == old(packets)@,
            final(packets)@.len() == old(packets)@.len(),
    {
        if packets.len() <= 1 {
            return Ok(MutationResult::Skipped);
        }
        let packet = below(rand, packets.len());
        let other = below(rand, packets.len());
        self.mutate_at(rand, packets, packet, other)
    }

    /// The mutator's name.
    pub fn name(&self) -> (name: &'static str)
        ensures
            name@ == "PacketCrossoverReplaceMutator"@,
    {
        "PacketCrossoverReplaceMutator"
    }
}

} // verus!
