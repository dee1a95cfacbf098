//! The state graph as DOT text.

use vstd::prelude::*;
use crate::observer::transition_ends;
use crate::observer::unpack_transition;
use crate::text::push_char;

verus! {

/// The character of the decimal digit `d`.
pub open spec fn digit(d: nat) -> char {
    ('0' as nat + d) as char
}

/// `n` in decimal, without leading zeros.
pub open spec fn decimal(n: nat) -> Seq<char>
    decreases n,
{
    if n < 10 {
        seq![digit(n)]
    } else {
        decimal(n / 10).push(digit(n % 10))
    }
}

/// One edge as a DOT statement: both node ids quoted, an arrow between them.
pub open spec fn edge_text(key: u64) -> Seq<char> {
    "\""@ + decimal(transition_ends(key).0 as nat) + "\"->\""@ + decimal(
        transition_ends(key).1 as nat,
    ) + "\";"@
}

/// The statements of the edges `keys`, in that order.
pub open spec fn edges_text(keys: Seq<u64>) -> Seq<char>
    decreases keys.len(),
{
    if keys.len() == 0 {
        Seq::empty()
    } else {
        edges_text(keys.drop_last()) + edge_text(keys.last())
    }
}

/// The DOT text of a graph whose edges are listed in the order `keys`.
pub open spec fn dot_text(keys: Seq<u64>) -> Seq<char> {
    "digraph IMPLEMENTED_STATE_MACHINE {"@ + edges_text(keys) + "}"@
}

/// Appends `n` in decimal.
pub fn push_decimal(text: &mut String, n: u32)
    ensures
        final(text)@ == old(text)@ + decimal(n as nat),
{
    // The digits, last one first.
    let mut digits: Vec<char> = Vec::new();
    let mut rest: u32 = n;
    while rest >= 10
        invariant
            decimal(n as nat) == decimal(rest as nat) + digits@.reverse(),
        decreases rest,
    {
        let d: u8 = (rest % 10) as u8;
        let c: char = (48u8 + d) as char;
        assert(c == digit((rest % 10) as nat));
        proof {
            let before = digits@;
            assert(decimal(rest as nat) == decimal((rest / 10) as nat).push(c));
            assert(before.push(c).reverse() =~= seq![c] + before.reverse());
            assert(decimal((rest / 10) as nat).push(c) + before.reverse() =~= decimal(
                (rest / 10) as nat,
            ) + (seq![c] + before.reverse()));
        }
        digits.push(c);
        rest = rest / 10;
    }
    let first: char = (48u8 + rest as u8) as char;
    assert(decimal(rest as nat) =~= seq![first]);
    push_char(text, first);
    let mut i: usize = digits.len();
    while i > 0
        invariant
            i <= digits.len(),
            text@ == old(text)@ + seq![first] + digits@.reverse().subrange(
                0,
                digits.len() - i,
            ),
        decreases i,
    {
        i = i - 1;
        push_char(text, digits[i]);
        assert(digits@.reverse().subrange(0, digits.len() - i) =~= digits@.reverse().subrange(
            0,
            digits.len() - i - 1,
        ).push(digits@[i as int]));
    }
    assert(digits@.reverse().subrange(0, digits.len() as int) =~= digits@.reverse());
    assert(old(text)@ + seq![first] + digits@.reverse() =~= old(text)@ + (seq![first]
        + digits@.reverse()));
}

/// Appends the DOT statement of one edge.
pub fn push_edge(text: &mut String, key: u64)
    ensures
        final(text)@ == old(text)@ + edge_text(key),
{
    let (from, to) = unpack_transition(key);
    text.append("\"");
    push_decimal(text, from);
    text.append("\"->\"");
    push_decimal(text, to);
    text.append("\";");
    assert(text@ =~= old(text)@ + edge_text(key));
}

/// Appends the DOT text of the graph whose edges are `keys`, in that order.
pub fn write_dot(text: &mut String, keys: &Vec<u64>)
    ensures
        final(text)@ == old(text)@ + dot_text(keys@),
{
    text.append("digraph IMPLEMENTED_STATE_MACHINE {");
    let ghost head = text@;
    let mut i: usize = 0;
    while i < keys.len()
        invariant
            i <= keys.len(),
            text@ == head + edges_text(keys@.take(i as int)),
        decreases keys.len() - i,
    {
        push_edge(text, keys[i]);
        proof {
            assert(keys@.take(i + 1).drop_last() =~= keys@.take(i as int));
            assert(text@ =~= head + edges_text(keys@.take(i + 1)));
        }
        i = i + 1;
    }
    assert(keys@.take(i as int) =~= keys@);
    text.append("}");
    assert(text@ =~= old(text)@ + dot_text(keys@));
}

} // verus!
