//! The byte-string packet, `BytesInput` of `libafl`, and the three ways in
//! which bytes of one byte string are worked into another.

use vstd::prelude::*;
use libafl::inputs::BytesInput;
use vstd::slice::slice_subrange;

verus! {

/// `libafl::inputs::ValueInput`, a value wrapped up as a fuzzing input.
/// `BytesInput` is its instance for `Vec<u8>`.
#[verifier::external_type_specification]
#[verifier::external_body]
#[verifier::reject_recursive_types(Inner)]
pub struct ExValueInput<Inner>(libafl::inputs::ValueInput<Inner>);

/// `clone` of `ValueInput`, as `derive` wrote it: it clones the wrapped
/// value. What that gives depends on the wrapped type, so nothing is
/// claimed of the result.
pub assume_specification<T: Clone>[ <libafl::inputs::ValueInput<T> as Clone>::clone ](
    input: &libafl::inputs::ValueInput<T>,
) -> libafl::inputs::ValueInput<T>
;

/// The bytes that a `BytesInput` holds.
pub uninterp spec fn payload(input: BytesInput) -> Seq<u8>;

/// `ValueInput::new` wraps the value it is given.
#[verifier::external_body]
pub(crate) fn bytes_input(bytes: Vec<u8>) -> (input: BytesInput)
    ensures
        payload(input) == bytes@,
{
    BytesInput::new(bytes)
}

/// `as_ref` of `ValueInput` hands out the wrapped value.
#[verifier::external_body]
pub(crate) fn bytes_of(input: &BytesInput) -> (bytes: &Vec<u8>)
    ensures
        bytes@ == payload(*input),
{
    input.as_ref()
}

/// `as_mut` of `ValueInput` hands out the wrapped value for writing: what
/// the vector holds when the borrow ends is what the input holds.
#[verifier::external_body]
pub(crate) fn bytes_mut(input: &mut BytesInput) -> (bytes: &mut Vec<u8>)
    ensures
        bytes@ == payload(*old(input)),
        payload(*final(input)) == final(bytes)@,
{
    input.as_mut()
}

/// `dst` with `len` bytes of `src`, starting at `from`, put in before position `to`.
pub open spec fn inserted(dst: Seq<u8>, src: Seq<u8>, from: int, to: int, len: int) -> Seq<u8> {
    dst.subrange(0, to) + src.subrange(from, from + len) + dst.subrange(to, dst.len() as int)
}

/// `dst` with the `len` bytes from position `to` on replaced by `len` bytes
/// of `src`, starting at `from`.
pub open spec fn replaced(dst: Seq<u8>, src: Seq<u8>, from: int, to: int, len: int) -> Seq<u8> {
    dst.subrange(0, to) + src.subrange(from, from + len) + dst.subrange(
        to + len,
        dst.len() as int,
    )
}

/// `dst` with the bytes of `src` from `from` on written over it from
/// position `to` on; `dst` grows where they reach beyond its end.
pub open spec fn spliced(dst: Seq<u8>, src: Seq<u8>, from: int, to: int) -> Seq<u8> {
    let end = to + (src.len() - from);
    dst.subrange(0, to) + src.subrange(from, src.len() as int) + if end < dst.len() {
        dst.subrange(end, dst.len() as int)
    } else {
        Seq::empty()
    }
}

/// Puts `len` bytes of `src`, starting at `from`, in before position `to` of `dst`.
pub fn insert_bytes(dst: &mut Vec<u8>, src: &Vec<u8>, from: usize, to: usize, len: usize)
    requires
        from + len <= src.len(),
        to <= old(dst).len(),
    ensures
        final(dst)@ == inserted(old(dst)@, src@, from as int, to as int, len as int),
{
    let mut tail = dst.split_off(to);
    dst.extend_from_slice(slice_subrange(src.as_slice(), from, from + len));
    dst.append(&mut tail);
    assert(dst@ =~= inserted(old(dst)@, src@, from as int, to as int, len as int));
}

/// Writes `len` bytes of `src`, starting at `from`, over the bytes of `dst`
/// from position `to` on.
pub fn replace_bytes(dst: &mut Vec<u8>, src: &Vec<u8>, from: usize, to: usize, len: usize)
    requires
        from + len <= src.len(),
        to + len <= old(dst).len(),
    ensures
        final(dst)@ == replaced(old(dst)@, src@, from as int, to as int, len as int),
{
    let mut i: usize = 0;
    while i < len
        invariant
            i <= len,
            from + len <= src.len(),
            to + len <= dst.len(),
            dst.len() == old(dst).len(),
            forall|k: int|
                0 <= k < dst.len() ==> dst@[k] == if to <= k < to + i {
                    src@[from + k - to]
                } else {
                    old(dst)@[k]
                },
        decreases len - i,
    {
        dst.set(to + i, src[from + i]);
        i = i + 1;
    }
    assert(dst@ =~= replaced(old(dst)@, src@, from as int, to as int, len as int));
}

/// Writes the bytes of `src` from `from` on over `dst` from position `to` on.
pub fn splice_bytes(dst: &mut Vec<u8>, src: &Vec<u8>, from: usize, to: usize)
    requires
        from <= src.len(),
        to <= old(dst).len(),
    ensures
        final(dst)@ == spliced(old(dst)@, src@, from as int, to as int),
{
    let len = src.len() - from;
    let mut tail = dst.split_off(to);
    dst.extend_from_slice(slice_subrange(src.as_slice(), from, src.len()));
    if len < tail.len() {
        let mut rest = tail.split_off(len);
        dst.append(&mut rest);
    }
    assert(dst@ =~= spliced(old(dst)@, src@, from as int, to as int));
}

} // verus!
