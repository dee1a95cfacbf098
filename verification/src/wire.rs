//! The wire form of an input: a count of records, then each record with
//! its length in front. Counts and lengths are 32 bits wide, most
//! significant byte first.

use vstd::prelude::*;
use vstd::slice::slice_subrange;
use vstd::slice::slice_to_vec;

verus! {

/// Why a byte string is not the wire form of an input.
#[derive(Clone, Copy, Debug, PartialEq, Eq, Structural)]
pub enum InvalidCorpusEntry {
    /// The count, or the length of a record, is cut short.
    Truncated,
    /// A record is announced with more bytes than are left.
    BadLength,
    /// Bytes are left behind the last record.
    Leftover,
    /// A record does not hold a packet.
    BadPacket,
}

/// The four bytes of `n`, most significant first.
#[verifier::opaque]
pub open spec fn be32(n: u32) -> Seq<u8> {
    seq![
        ((n >> 24) & 0xff) as u8,
        ((n >> 16) & 0xff) as u8,
        ((n >> 8) & 0xff) as u8,
        (n & 0xff) as u8,
    ]
}

/// The number whose four bytes, most significant first, `bytes` starts with.
#[verifier::opaque]
pub open spec fn from_be32(bytes: Seq<u8>) -> u32 {
    (bytes[0] as u32) << 24 | (bytes[1] as u32) << 16 | (bytes[2] as u32) << 8 | (bytes[3] as u32)
}

/// Reading the four bytes of a number gives the number back.
pub proof fn lemma_be32_read(n: u32)
    ensures
        be32(n).len() == 4,
        from_be32(be32(n)) == n,
{
    reveal(be32);
    reveal(from_be32);
    let a = ((n >> 24) & 0xff) as u8;
    let b = ((n >> 16) & 0xff) as u8;
    let c = ((n >> 8) & 0xff) as u8;
    let d = (n & 0xff) as u8;
    assert((a as u32) << 24 | (b as u32) << 16 | (c as u32) << 8 | (d as u32) == n) by (bit_vector)
        requires
            a == ((n >> 24) & 0xff) as u8,
            b == ((n >> 16) & 0xff) as u8,
            c == ((n >> 8) & 0xff) as u8,
            d == (n & 0xff) as u8,
    ;
}

/// Four bytes are the bytes of the number read from them.
pub proof fn lemma_be32_write(bytes: Seq<u8>)
    requires
        bytes.len() == 4,
    ensures
        be32(from_be32(bytes)) == bytes,
{
    reveal(be32);
    reveal(from_be32);
    let a = bytes[0];
    let b = bytes[1];
    let c = bytes[2];
    let d = bytes[3];
    let n = (a as u32) << 24 | (b as u32) << 16 | (c as u32) << 8 | (d as u32);
    assert(((n >> 24) & 0xff) as u8 == a && ((n >> 16) & 0xff) as u8 == b && ((n >> 8) & 0xff) as u8
        == c && (n & 0xff) as u8 == d) by (bit_vector)
        requires
            n == (a as u32) << 24 | (b as u32) << 16 | (c as u32) << 8 | (d as u32),
    ;
    assert(be32(from_be32(bytes)) =~= bytes);
}

/// Only the first four bytes count for the number that is read.
pub proof fn lemma_be32_prefix(bytes: Seq<u8>, more: Seq<u8>)
    requires
        bytes.len() == 4,
    ensures
        from_be32(bytes + more) == from_be32(bytes),
{
    reveal(from_be32);
}

/// The records `frames` one behind the other, each with its length in front.
pub open spec fn records(frames: Seq<Seq<u8>>) -> Seq<u8>
    decreases frames.len(),
{
    if frames.len() == 0 {
        Seq::empty()
    } else {
        be32(frames.first().len() as u32) + frames.first() + records(frames.drop_first())
    }
}

/// The wire form of the records `frames`.
pub open spec fn encoded(frames: Seq<Seq<u8>>) -> Seq<u8> {
    be32(frames.len() as u32) + records(frames)
}

/// Whether the number of `frames` and the length of each fit into 32 bits.
pub open spec fn encodable(frames: Seq<Seq<u8>>) -> bool {
    &&& frames.len() <= u32::MAX
    &&& forall|i: int| 0 <= i < frames.len() ==> (#[trigger] frames[i]).len() <= u32::MAX
}

/// `rest` with the records `done` in front, where `rest` is a success.
pub open spec fn after_records(
    done: Seq<Seq<u8>>,
    rest: Result<Seq<Seq<u8>>, InvalidCorpusEntry>,
) -> Result<Seq<Seq<u8>>, InvalidCorpusEntry> {
    match rest {
        Ok(more) => Ok(done + more),
        Err(e) => Err(e),
    }
}

/// The `count` records that `bytes` consists of, or the first thing that
/// is wrong with it.
pub open spec fn read_records(bytes: Seq<u8>, count: nat) -> Result<
    Seq<Seq<u8>>,
    InvalidCorpusEntry,
>
    decreases count,
{
    if count == 0 {
        if bytes.len() == 0 {
            Ok(Seq::empty())
        } else {
            Err(InvalidCorpusEntry::Leftover)
        }
    } else if bytes.len() < 4 {
        Err(InvalidCorpusEntry::Truncated)
    } else {
        let len = from_be32(bytes) as int;
        if bytes.len() - 4 < len {
            Err(InvalidCorpusEntry::BadLength)
        } else {
            after_records(
                seq![bytes.subrange(4, 4 + len)],
                read_records(bytes.skip(4 + len), (count - 1) as nat),
            )
        }
    }
}

/// The records of which `bytes` is the wire form, or the first thing that
/// is wrong with it.
pub open spec fn decoded(bytes: Seq<u8>) -> Result<Seq<Seq<u8>>, InvalidCorpusEntry> {
    if bytes.len() < 4 {
        Err(InvalidCorpusEntry::Truncated)
    } else {
        read_records(bytes.skip(4), from_be32(bytes) as nat)
    }
}

/// The contents of a list of byte vectors.
pub open spec fn contents(frames: Seq<Vec<u8>>) -> Seq<Seq<u8>> {
    frames.map_values(|frame: Vec<u8>| frame@)
}

/// Appends the four bytes of `n`, most significant first.
pub fn push_be32(buf: &mut Vec<u8>, n: u32)
    ensures
        final(buf)@ == old(buf)@ + be32(n),
{
    proof {
        reveal(be32);
    }
    buf.push(((n >> 24) & 0xff) as u8);
    buf.push(((n >> 16) & 0xff) as u8);
    buf.push(((n >> 8) & 0xff) as u8);
    buf.push((n & 0xff) as u8);
    assert(buf@ =~= old(buf)@ + be32(n));
}

/// Reads the number whose four bytes stand at position `at`.
pub fn read_be32(bytes: &[u8], at: usize) -> (n: u32)
    requires
        at + 4 <= bytes.len(),
    ensures
        n == from_be32(bytes@.skip(at as int)),
{
    proof {
        reveal(from_be32);
    }
    (bytes[at] as u32) << 24 | (bytes[at + 1] as u32) << 16 | (bytes[at + 2] as u32) << 8 | (
    bytes[at + 3] as u32)
}

/// Records that are written one behind the other are read back one by one.
pub proof fn lemma_read_written(frames: Seq<Seq<u8>>)
    requires
        encodable(frames),
    ensures
        read_records(records(frames), frames.len()) == Ok::<Seq<Seq<u8>>, InvalidCorpusEntry>(
            frames,
        ),
    decreases frames.len(),
{
    if frames.len() > 0 {
        let first = frames.first();
        let rest = frames.drop_first();
        let bytes = records(frames);
        let head = be32(first.len() as u32);
        let len = first.len() as int;
        lemma_be32_read(first.len() as u32);
        assert(bytes == head + first + records(rest));
        assert(bytes =~= head + (first + records(rest)));
        lemma_be32_prefix(head, first + records(rest));
        assert(from_be32(bytes) as int == len);
        assert(bytes.subrange(4, 4 + len) =~= first);
        assert(bytes.skip(4 + len) =~= records(rest));
        assert(encodable(rest)) by {
            assert forall|i: int| 0 <= i < rest.len() implies (#[trigger] rest[i]).len()
                <= u32::MAX by {
                assert(rest[i] == frames[i + 1]);
            }
        }
        lemma_read_written(rest);
        assert(seq![first] + rest =~= frames);
        assert(rest.len() == frames.len() - 1);
        assert(read_records(bytes, frames.len()) == after_records(
            seq![bytes.subrange(4, 4 + len)],
            read_records(bytes.skip(4 + len), (frames.len() - 1) as nat),
        ));
    } else {
        assert(frames =~= Seq::<Seq<u8>>::empty());
    }
}

/// Records that are read from a byte string are those that it is written from.
pub proof fn lemma_written_read(bytes: Seq<u8>, count: nat, frames: Seq<Seq<u8>>)
    requires
        read_records(bytes, count) == Ok::<Seq<Seq<u8>>, InvalidCorpusEntry>(frames),
    ensures
        frames.len() == count,
        records(frames) == bytes,
        forall|i: int| 0 <= i < frames.len() ==> (#[trigger] frames[i]).len() <= u32::MAX,
    decreases count,
{
    if count == 0 {
        assert(bytes =~= Seq::<u8>::empty());
    } else {
        let len = from_be32(bytes) as int;
        let first = bytes.subrange(4, 4 + len);
        let tail = read_records(bytes.skip(4 + len), (count - 1) as nat);
        assert(read_records(bytes, count) == after_records(seq![first], tail));
        let rest = tail->Ok_0;
        lemma_written_read(bytes.skip(4 + len), (count - 1) as nat, rest);
        assert(frames =~= seq![first] + rest);
        assert(frames.first() == first);
        assert(frames.drop_first() =~= rest);
        let head = bytes.subrange(0, 4);
        lemma_be32_write(head);
        assert(bytes =~= head + bytes.skip(4));
        lemma_be32_prefix(head, bytes.skip(4));
        assert(be32(first.len() as u32) == head);
        assert(records(frames) == head + first + records(rest));
        assert(head + first + bytes.skip(4 + len) =~= bytes);
        assert forall|i: int| 0 <= i < frames.len() implies (#[trigger] frames[i]).len()
            <= u32::MAX by {
            if i > 0 {
                assert(frames[i] == rest[i - 1]);
            }
        }
    }
}

/// Decoding the wire form of records gives the records back.
pub proof fn lemma_decode_encoded(frames: Seq<Seq<u8>>)
    requires
        encodable(frames),
    ensures
        decoded(encoded(frames)) == Ok::<Seq<Seq<u8>>, InvalidCorpusEntry>(frames),
{
    let bytes = encoded(frames);
    let head = be32(frames.len() as u32);
    lemma_be32_read(frames.len() as u32);
    lemma_be32_prefix(head, records(frames));
    assert(bytes.skip(4) =~= records(frames));
    lemma_read_written(frames);
}

/// A byte string that decodes is the wire form of what it decodes to.
pub proof fn lemma_encode_decoded(bytes: Seq<u8>, frames: Seq<Seq<u8>>)
    requires
        decoded(bytes) == Ok::<Seq<Seq<u8>>, InvalidCorpusEntry>(frames),
    ensures
        encodable(frames),
        encoded(frames) == bytes,
{
    lemma_written_read(bytes.skip(4), from_be32(bytes) as nat, frames);
    let head = bytes.subrange(0, 4);
    lemma_be32_write(head);
    assert(bytes =~= head + bytes.skip(4));
    lemma_be32_prefix(head, bytes.skip(4));
    assert(encoded(frames) =~= bytes);
}

/// Takes a byte string apart into the records that it is the wire form of.
pub fn split_frames(bytes: &[u8]) -> (result: Result<Vec<Vec<u8>>, InvalidCorpusEntry>)
    ensures
        match result {
            Ok(frames) => decoded(bytes@) == Ok::<Seq<Seq<u8>>, InvalidCorpusEntry>(
                contents(frames@),
            ),
            Err(e) => decoded(bytes@) == Err::<Seq<Seq<u8>>, InvalidCorpusEntry>(e),
        },
{
    if bytes.len() < 4 {
        return Err(InvalidCorpusEntry::Truncated);
    }
    let count = read_be32(bytes, 0);
    assert(bytes@.skip(0) =~= bytes@);
    let mut frames: Vec<Vec<u8>> = Vec::new();
    let mut idx: usize = 4;
    let mut left: u32 = count;
    assert(contents(frames@) + Seq::<Seq<u8>>::empty() =~= Seq::<Seq<u8>>::empty());
    assert(after_records(contents(frames@), read_records(bytes@.skip(4), left as nat))
        == read_records(bytes@.skip(4), left as nat)) by {
        let rest = read_records(bytes@.skip(4), left as nat);
        if rest is Ok {
            assert(contents(frames@) + rest->Ok_0 =~= rest->Ok_0);
        }
    }
    while left > 0
        invariant
            4 <= idx <= bytes.len(),
            decoded(bytes@) == after_records(
                contents(frames@),
                read_records(bytes@.skip(idx as int), left as nat),
            ),
        decreases left,
    {
        let ghost here = bytes@.skip(idx as int);
        if bytes.len() - idx < 4 {
            return Err(InvalidCorpusEntry::Truncated);
        }
        let len = read_be32(bytes, idx) as usize;
        if bytes.len() - idx - 4 < len {
            return Err(InvalidCorpusEntry::BadLength);
        }
        let frame = slice_to_vec(slice_subrange(bytes, idx + 4, idx + 4 + len));
        proof {
            let done = contents(frames@);
            let rest = read_records(here.skip(4 + len), (left - 1) as nat);
            assert(here.subrange(4, 4 + len) =~= frame@);
            assert(here.skip(4 + len) =~= bytes@.skip(idx + 4 + len));
            assert(contents(frames@.push(frame)) =~= done.push(frame@));
            assert(after_records(done, after_records(seq![frame@], rest)) == after_records(
                done.push(frame@),
                rest,
            )) by {
                if rest is Ok {
                    assert(done + (seq![frame@] + rest->Ok_0) =~= done.push(frame@) + rest->Ok_0);
                }
            }
        }
        frames.push(frame);
        idx = idx + 4 + len;
        left = left - 1;
    }
    if idx < bytes.len() {
        return Err(InvalidCorpusEntry::Leftover);
    }
    assert(bytes@.skip(idx as int) =~= Seq::<u8>::empty());
    assert(contents(frames@) + Seq::<Seq<u8>>::empty() =~= contents(frames@));
    Ok(frames)
}

} // verus!
