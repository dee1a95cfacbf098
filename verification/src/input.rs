//! The input of the fuzzer: a sequence of packets.

use vstd::prelude::*;
use libafl::inputs::BytesInput;
use vstd::slice::slice_to_vec;
use crate::bytes::bytes_input;
use crate::bytes::bytes_of;
use crate::bytes::payload;
use crate::capture::TcpSegment;
use crate::name::name_of;
use crate::name::name_of_bytes;
use crate::wire::be32;
use crate::wire::contents;
use crate::wire::decoded;
use crate::wire::encodable;
use crate::wire::encoded;
use crate::wire::lemma_decode_encoded;
use crate::wire::lemma_encode_decoded;
use crate::wire::push_be32;
use crate::wire::records;
use crate::wire::split_frames;
use crate::wire::InvalidCorpusEntry;

verus! {

/// What a protocol says of its packets: how a packet looks on the wire.
pub trait PacketProtocol: Sized {
    /// The bytes of the packet on the wire.
    spec fn wire(&self) -> Seq<u8>;

    /// Whether `bytes` are the bytes of a packet.
    spec fn parses(bytes: Seq<u8>) -> bool;

    /// Appends the bytes of the packet.
    fn write(&self, buf: &mut Vec<u8>)
        ensures
            final(buf)@ == old(buf)@ + self.wire(),
    ;

    /// The packet that `bytes` are the bytes of.
    fn from_bytes(bytes: &[u8]) -> (packet: Option<Self>)
        ensures
            packet is Some <==> Self::parses(bytes@),
            packet matches Some(p) ==> p.wire() == bytes@,
    ;

    /// The bytes of the packets that a capture holds as a seed.
    spec fn capture_wire(capture: Seq<TcpSegment>) -> Seq<Seq<u8>>;

    /// The packets that a capture holds as a seed. A protocol without a
    /// capture format finds none.
    fn from_capture(capture: &Vec<TcpSegment>) -> (packets: Vec<Self>)
        ensures
            packets@.map_values(|packet: Self| packet.wire()) == Self::capture_wire(capture@),
    ;
}

impl PacketProtocol for BytesInput {
    open spec fn wire(&self) -> Seq<u8> {
        payload(*self)
    }

    open spec fn parses(bytes: Seq<u8>) -> bool {
        true
    }

    fn write(&self, buf: &mut Vec<u8>) {
        buf.extend_from_slice(bytes_of(self).as_slice());
        assert(buf@ =~= old(buf)@ + payload(*self));
    }

    fn from_bytes(bytes: &[u8]) -> (packet: Option<Self>) {
        Some(bytes_input(slice_to_vec(bytes)))
    }

    open spec fn capture_wire(capture: Seq<TcpSegment>) -> Seq<Seq<u8>> {
        Seq::empty()
    }

    fn from_capture(capture: &Vec<TcpSegment>) -> (packets: Vec<Self>) {
        let packets: Vec<Self> = Vec::new();
        assert(packets@.map_values(|packet: Self| packet.wire()) =~= Seq::<Seq<u8>>::empty());
        packets
    }
}

/// The bytes of each of `packets` on the wire.
pub open spec fn frames_of<P: PacketProtocol>(packets: Seq<P>) -> Seq<Seq<u8>> {
    packets.map_values(|packet: P| packet.wire())
}

/// Writing records one behind the other, the last one comes last.
pub proof fn lemma_records_push(frames: Seq<Seq<u8>>, last: Seq<u8>)
    ensures
        records(frames.push(last)) == records(frames) + be32(last.len() as u32) + last,
    decreases frames.len(),
{
    let longer = frames.push(last);
    if frames.len() == 0 {
        assert(longer.first() == last);
        assert(longer.drop_first() =~= Seq::<Seq<u8>>::empty());
        assert(records(longer.drop_first()) =~= Seq::<u8>::empty());
        assert(records(frames) =~= Seq::<u8>::empty());
        assert(records(longer) == be32(last.len() as u32) + last + records(longer.drop_first()));
        assert(records(longer) =~= records(frames) + be32(last.len() as u32) + last);
    } else {
        lemma_records_push(frames.drop_first(), last);
        assert(longer.first() == frames.first());
        assert(longer.drop_first() =~= frames.drop_first().push(last));
        assert(records(longer) == be32(frames.first().len() as u32) + frames.first() + records(
            longer.drop_first(),
        ));
        assert(records(longer) =~= records(frames) + be32(last.len() as u32) + last);
    }
}

/// An input: the packets of one session, in their order.
#[derive(Clone, Debug, PartialEq, Eq, Hash)]
pub struct Packets<P> {
    pkts: Vec<P>,
}

impl<P> View for Packets<P> {
    type V = Seq<P>;

    closed spec fn view(&self) -> Seq<P> {
        self.pkts@
    }
}

impl<P: PacketProtocol> Packets<P> {
    /// An input of the given packets.
    pub fn new(pkts: Vec<P>) -> (input: Self)
        ensures
            input@ == pkts@,
    {
        Packets { pkts }
    }

    /// The input that a capture holds as a seed.
    pub fn from_capture(capture: &Vec<TcpSegment>) -> (input: Self)
        ensures
            frames_of(input@) == P::capture_wire(capture@),
    {
        let pkts = P::from_capture(capture);
        assert(frames_of(pkts@) =~= pkts@.map_values(|packet: P| packet.wire()));
        Packets { pkts }
    }

    /// The packets of the input.
    pub fn into_packets(self) -> (packets: Vec<P>)
        ensures
            packets@ == self@,
    {
        self.pkts
    }

    /// The number of packets.
    pub fn len(&self) -> (len: usize)
        ensures
            len == self@.len(),
    {
        self.pkts.len()
    }

    /// The packets, for reading.
    pub fn packets(&self) -> (packets: &Vec<P>)
        ensures
            packets@ == self@,
    {
        &self.pkts
    }

    /// The packets, for changing them.
    pub fn packets_mut(&mut self) -> (packets: &mut Vec<P>)
        ensures
            packets@ == old(self)@,
            final(self)@ == final(packets)@,
    {
        &mut self.pkts
    }

    /// The wire form of the input, or nothing where the number of packets
    /// or the length of one of them is beyond 32 bits.
    pub fn checked_to_bytes(&self) -> (bytes: Option<Vec<u8>>)
        ensures
            match bytes {
                Some(bytes) => encodable(frames_of(self@)) && bytes@ == encoded(frames_of(self@)),
                None => !encodable(frames_of(self@)),
            },
    {
        let ghost frames = frames_of(self@);
        if self.pkts.len() > u32::MAX as usize {
            return None;
        }
        let mut v: Vec<u8> = Vec::new();
        push_be32(&mut v, self.pkts.len() as u32);
        assert(frames.take(0) =~= Seq::<Seq<u8>>::empty());
        let mut i: usize = 0;
        while i < self.pkts.len()
            invariant
                i <= self.pkts.len(),
                self.pkts.len() <= u32::MAX,
                frames == frames_of(self@),
                v@ == be32(self.pkts.len() as u32) + records(frames.take(i as int)),
                forall|k: int| 0 <= k < i ==> (#[trigger] frames[k]).len() <= u32::MAX,
            decreases self.pkts.len() - i,
        {
            let ghost before = v@;
            let mut frame: Vec<u8> = Vec::new();
            self.pkts[i].write(&mut frame);
            assert(frame@ =~= frames[i as int]);
            if frame.len() > u32::MAX as usize {
                return None;
            }
            push_be32(&mut v, frame.len() as u32);
            v.append(&mut frame);
            proof {
                let written = frames[i as int];
                lemma_records_push(frames.take(i as int), written);
                assert(frames.take(i + 1) =~= frames.take(i as int).push(written));
                assert(v@ =~= be32(self.pkts.len() as u32) + records(frames.take(i + 1)));
            }
            i = i + 1;
        }
        assert(frames.take(i as int) =~= frames);
        Some(v)
    }

    /// The wire form of the input: the number of packets, then each
    /// packet with its length in front.
    pub fn to_bytes(&self) -> (bytes: Vec<u8>)
        requires
            encodable(frames_of(self@)),
        ensures
            bytes@ == encoded(frames_of(self@)),
    {
        match self.checked_to_bytes() {
            Some(bytes) => bytes,
            None => vstd::pervasive::unreached(),
        }
    }

    /// The name under which the input is stored: sixteen hex digits of the
    /// hash of its wire form.
    pub fn generate_name(&self) -> (name: String)
        requires
            encodable(frames_of(self@)),
        ensures
            name@ == name_of(encoded(frames_of(self@))),
    {
        let bytes = self.to_bytes();
        name_of_bytes(bytes.as_slice())
    }

    /// The input that `bytes` is the wire form of. It is there exactly if
    /// `bytes` decodes into records and each record holds a packet.
    pub fn from_bytes(bytes: &[u8]) -> (result: Result<Self, InvalidCorpusEntry>)
        ensures
            match result {
                Ok(input) => decoded(bytes@) == Ok::<Seq<Seq<u8>>, InvalidCorpusEntry>(
                    frames_of(input@),
                ) && encodable(frames_of(input@)) && encoded(frames_of(input@)) == bytes@,
                Err(e) => if decoded(bytes@) is Ok {
                    e == InvalidCorpusEntry::BadPacket && exists|i: int|
                        0 <= i < decoded(bytes@)->Ok_0.len() && !P::parses(
                            #[trigger] decoded(bytes@)->Ok_0[i],
                        )
                } else {
                    decoded(bytes@) == Err::<Seq<Seq<u8>>, InvalidCorpusEntry>(e)
                },
            },
            result is Ok <==> decoded(bytes@) is Ok && forall|i: int|
                0 <= i < decoded(bytes@)->Ok_0.len() ==> P::parses(
                    #[trigger] decoded(bytes@)->Ok_0[i],
                ),
    {
        let frames = match split_frames(bytes) {
            Ok(frames) => frames,
            Err(e) => {
                return Err(e);
            },
        };
        let ghost found = contents(frames@);
        let mut pkts: Vec<P> = Vec::new();
        let mut i: usize = 0;
        while i < frames.len()
            invariant
                i <= frames.len(),
                found == contents(frames@),
                decoded(bytes@) == Ok::<Seq<Seq<u8>>, InvalidCorpusEntry>(found),
                pkts@.len() == i,
                frames_of(pkts@) == found.take(i as int),
                forall|k: int| 0 <= k < i ==> P::parses(#[trigger] found[k]),
            decreases frames.len() - i,
        {
            match P::from_bytes(frames[i].as_slice()) {
                Some(packet) => {
                    assert(frames[i as int]@ == found[i as int]);
                    assert(frames_of(pkts@.push(packet)) =~= found.take(i + 1));
                    pkts.push(packet);
                },
                None => {
                    assert(frames[i as int]@ == found[i as int]);
                    assert(!P::parses(decoded(bytes@)->Ok_0[i as int]));
                    return Err(InvalidCorpusEntry::BadPacket);
                },
            }
            i = i + 1;
        }
        proof {
            assert(found.take(i as int) =~= found);
            lemma_encode_decoded(bytes@, found);
        }
        Ok(Packets { pkts })
    }
}

/// Writing an input out and reading it back gives packets with the same
/// bytes, and a byte string that reads as an input is what that input
/// writes out.
pub proof fn lemma_wire_round_trip<P: PacketProtocol>(packets: Seq<P>, bytes: Seq<u8>)
    ensures
        encodable(frames_of(packets)) ==> decoded(encoded(frames_of(packets))) == Ok::<
            Seq<Seq<u8>>,
            InvalidCorpusEntry,
        >(frames_of(packets)),
        decoded(bytes) == Ok::<Seq<Seq<u8>>, InvalidCorpusEntry>(frames_of(packets)) ==> encoded(
            frames_of(packets),
        ) == bytes,
{
    if encodable(frames_of(packets)) {
        lemma_decode_encoded(frames_of(packets));
    }
    if decoded(bytes) == Ok::<Seq<Seq<u8>>, InvalidCorpusEntry>(frames_of(packets)) {
        lemma_encode_decoded(bytes, frames_of(packets));
    }
}

/// Inputs with the same wire form have the same name.
pub proof fn lemma_name_by_bytes<P: PacketProtocol>(a: Seq<P>, b: Seq<P>)
    requires
        encoded(frames_of(a)) == encoded(frames_of(b)),
    ensures
        name_of(encoded(frames_of(a))) == name_of(encoded(frames_of(b))),
        name_of(encoded(frames_of(a))).len() == 16,
{
}

} // verus!
