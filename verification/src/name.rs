//! The name under which an input is stored: sixteen hex digits of a hash
//! of its wire form.

use vstd::prelude::*;
use crate::text::push_char;

verus! {

/// The 64-bit hash of a byte string, as `hash_std` of `libafl_bolts` computes it.
pub uninterp spec fn content_hash(bytes: Seq<u8>) -> u64;

/// Calls `libafl_bolts::hash_std`. Built with the feature `xxh3`, which
/// this crate asks for, it is `xxh3_64` of the bytes: a function of the
/// bytes alone.
#[verifier::external_body]
pub(crate) fn hash_std(bytes: &[u8]) -> (hash: u64)
    ensures
        hash == content_hash(bytes@),
{
    libafl_bolts::hash_std(bytes)
}

/// The character of the hex digit `d`, in lower case.
pub open spec fn hex_digit(d: nat) -> char {
    if d < 10 {
        ('0' as nat + d) as char
    } else {
        ('a' as nat + d - 10) as char
    }
}

/// The hex digit of `hash` at position `i`, counted from the most
/// significant one, which is at position 0.
pub open spec fn nibble(hash: u64, i: nat) -> nat {
    ((hash >> ((60 - 4 * i) as u64)) & 0xf) as nat
}

/// `hash` as sixteen hex digits in lower case, with leading zeros.
pub open spec fn hex16(hash: u64) -> Seq<char> {
    Seq::new(16, |i: int| hex_digit(nibble(hash, i as nat)))
}

/// The name of the input whose wire form is `bytes`.
pub open spec fn name_of(bytes: Seq<u8>) -> Seq<char> {
    hex16(content_hash(bytes))
}

/// Writes a hash out as sixteen hex digits.
pub fn name_of_hash(hash: u64) -> (name: String)
    ensures
        name@ == hex16(hash),
{
    let mut name = String::new();
    let mut i: u64 = 0;
    while i < 16
        invariant
            i <= 16,
            name@.len() == i,
            forall|k: int| 0 <= k < i ==> name@[k] == hex_digit(nibble(hash, k as nat)),
        decreases 16 - i,
    {
        let shift: u64 = 60 - 4 * i;
        let d: u64 = (hash >> shift) & 0xf;
        assert(d < 16) by (bit_vector)
            requires
                d == (hash >> shift) & 0xf,
        ;
        let c: char = if d < 10 {
            (48u8 + d as u8) as char
        } else {
            (97u8 + (d as u8 - 10)) as char
        };
        assert(c == hex_digit(nibble(hash, i as nat)));
        push_char(&mut name, c);
        i = i + 1;
    }
    assert(name@ =~= hex16(hash));
    name
}

/// The name of the input whose wire form is `bytes`.
pub fn name_of_bytes(bytes: &[u8]) -> (name: String)
    ensures
        name@ == name_of(bytes@),
{
    name_of_hash(hash_std(bytes))
}

} // verus!
