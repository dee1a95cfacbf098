//! Splicing two neighbouring packets into one.

use vstd::prelude::*;
use libafl::inputs::BytesInput;
use libafl_bolts::rands::StdRand;
use libafl_bolts::Error;
use std::marker::PhantomData;
use crate::bytes::bytes_mut;
use crate::bytes::bytes_of;
use crate::bytes::payload;
use crate::bytes::splice_bytes;
use crate::bytes::spliced;
use crate::rand::below;
use crate::result::MutationResult;

verus! {

/// A packet type of which two values can be spliced together.
pub trait HasSpliceMutation: Sized {
    /// Whether splicing `before` and `other` together may report `result`
    /// and leave `after`.
    spec fn splice_of(
        before: Self,
        other: Self,
        after: Self,
        result: Result<MutationResult, Error>,
    ) -> bool;

    /// Splices `self` and `other` together at a random midpoint. A packet
    /// that has no bytes for that reports `Skipped` and stays as it is.
    fn mutate_splice(&mut self, rand: &mut StdRand, other: &Self) -> (result: Result<
        MutationResult,
        Error,
    >)
        ensures
            result == Ok::<MutationResult, Error>(MutationResult::Skipped) ==> *final(self) == *old(
                self,
            ),
            Self::splice_of(*old(self), *other, *final(self), result),
    ;
}

/// The draws of a splice: from where on the source is taken, and from
/// where on the target is written over.
pub open spec fn splice_draw(dst_len: int, src_len: int, from: int, to: int) -> bool {
    &&& 0 <= from < src_len
    &&& 0 <= to < dst_len
}

impl HasSpliceMutation for BytesInput {
    open spec fn splice_of(
        before: Self,
        other: Self,
        after: Self,
        result: Result<MutationResult, Error>,
    ) -> bool {
        if payload(before).len() == 0 || payload(other).len() == 0 {
            result == Ok::<MutationResult, Error>(MutationResult::Skipped) && after == before
        } else {
            result == Ok::<MutationResult, Error>(MutationResult::Mutated) && exists|
                from: int,
                to: int,
            |
                splice_draw(payload(before).len() as int, payload(other).len() as int, from, to)
                    && payload(after) == #[trigger] spliced(
                    payload(before),
                    payload(other),
                    from,
                    to,
                )
        }
    }

    /// Writes the end of `other`, from a random position on, over `self`
    /// from a random position on; `self` grows where the bytes reach beyond
    /// its end. Where one of the two is empty, nothing is done.
    fn mutate_splice(&mut self, rand: &mut StdRand, other: &Self) -> (result: Result<
        MutationResult,
        Error,
    >)
        ensures
            result is Ok,
            result->Ok_0 == MutationResult::Skipped <==> payload(*old(self)).len() == 0 || payload(
                *other,
            ).len() == 0,
            result->Ok_0 == MutationResult::Mutated ==> payload(*final(self)).len() >= payload(
                *old(self),
            ).len() >= 1,
    {
        let self_len = bytes_of(self).len();
        let other_len = bytes_of(other).len();
        if self_len == 0 || other_len == 0 {
            return Ok(MutationResult::Skipped);
        }
        let to = below(rand, self_len);
        let from = below(rand, other_len);
        splice_bytes(bytes_mut(self), bytes_of(other), from, to);
        assert(splice_draw(self_len as int, other_len as int, from as int, to as int));
        Ok(MutationResult::Mutated)
    }
}

/// What splicing does to an input once the position `packet` is drawn:
/// nothing while the input has no more than `min_packets` packets; else
/// the packet behind `packet` is taken out and spliced into the one at
/// `packet`, as the packet type does it, and put back only where that was
/// skipped.
pub open spec fn splice_step<P: HasSpliceMutation>(
    before: Seq<P>,
    after: Seq<P>,
    result: Result<MutationResult, Error>,
    min_packets: int,
    packet: int,
) -> bool {
    &&& 0 <= packet < before.len() - 1
    &&& if before.len() <= min_packets {
        result == Ok::<MutationResult, Error>(MutationResult::Skipped) && after == before
    } else {
        &&& P::splice_of(before[packet], before[packet + 1], after[packet], result)
        &&& if result == Ok::<MutationResult, Error>(MutationResult::Skipped) {
            after == before
        } else {
            after == before.remove(packet + 1).update(packet, after[packet])
        }
    }
}

/// What splicing may do to an input: nothing to one of no more than
/// `min_packets` packets; else there is a position in it with which it did
/// a step.
pub open spec fn splice_outcome<P: HasSpliceMutation>(
    before: Seq<P>,
    after: Seq<P>,
    result: Result<MutationResult, Error>,
    min_packets: int,
) -> bool {
    if before.len() <= min_packets {
        result == Ok::<MutationResult, Error>(MutationResult::Skipped) && after == before
    } else {
        exists|packet: int| splice_step(before, after, result, min_packets, packet)
    }
}

/// A mutator that splices two neighbouring packets together, as long as
/// more than a given number of packets is left.
pub struct PacketSpliceMutator<P> {
    phantom: PhantomData<P>,
    min_packets: usize,
}

impl<P> PacketSpliceMutator<P> {
    /// The least number of packets that the mutator leaves in an input.
    pub closed spec fn spec_min_packets(&self) -> usize {
        self.min_packets
    }

    #[verifier::type_invariant]
    spec fn at_least_one(&self) -> bool {
        self.min_packets >= 1
    }

    /// A splice mutator that leaves at least `min_packets` packets, and
    /// never fewer than one.
    pub fn new(min_packets: usize) -> (mutator: Self)
        ensures
            mutator.spec_min_packets() == if min_packets < 1 {
                1
            } else {
                min_packets
            },
    {
        PacketSpliceMutator {
            phantom: PhantomData,
            min_packets: if min_packets < 1 {
                1
            } else {
                min_packets
            },
        }
    }

    /// The least number of packets that the mutator leaves in an input.
    pub fn min_packets(&self) -> (min_packets: usize)
        ensures
            min_packets == self.spec_min_packets(),
            min_packets >= 1,
    {
        proof {
            use_type_invariant(self);
        }
        self.min_packets
    }
}

impl<P: HasSpliceMutation> PacketSpliceMutator<P> {
    /// Splices with the position `packet` already drawn.
    pub fn mutate_at(&self, rand: &mut StdRand, packets: &mut Vec<P>, packet: usize) -> (result:
        Result<MutationResult, Error>)
        requires
            packet + 1 < old(packets).len(),
        ensures
            splice_step(
                old(packets)@,
                final(packets)@,
                result,
                self.spec_min_packets() as int,
                packet as int,
            ),
    {
        if packets.len() <= self.min_packets {
            return Ok(MutationResult::Skipped);
        }
        let mut target = packets.remove(packet);
        let other = packets.remove(packet);
        let result = target.mutate_splice(rand, &other);
        packets.insert(packet, target);
        match result {
            Ok(MutationResult::Skipped) => {
                packets.insert(packet + 1, other);
                assert(packets@ =~= old(packets)@);
            },
            _ => {
                assert(packets@ =~= old(packets)@.remove(packet + 1).update(
                    packet as int,
                    packets@[packet as int],
                ));
            },
        }
        result
    }

    /// Splices a random packet with the one behind it. An input of no more
    /// than the least number of packets is skipped.
    pub fn mutate(&mut self, rand: &mut StdRand, packets: &mut Vec<P>) -> (result: Result<
        MutationResult,
        Error,
    >)
        ensures
            final(self).spec_min_packets() == old(self).spec_min_packets(),
            splice_outcome(
                old(packets)@,
                final(packets)@,
                result,
                old(self).spec_min_packets() as int,
            ),
            result == Ok::<MutationResult, Error>(MutationResult::Skipped) ==> final(packets)@
                == old(packets)@,
            result == Ok::<MutationResult, Error>(MutationResult::Mutated) ==> final(packets)@.len()
                + 1 == old(packets)@.len(),
    {
        proof {
            use_type_invariant(&*self);
        }
        if packets.len() <= self.min_packets {
            return Ok(MutationResult::Skipped);
        }
        let packet = below(rand, packets.len() - 1);
        self.mutate_at(rand, packets, packet)
    }

    /// The mutator's name.
    pub fn name(&self) -> (name: &'static str)
        ensures
            name@ == "PacketSpliceMutator"@,
    {
        "PacketSpliceMutator"
    }
}

} // verus!
