//! What the executor does with the responses of the target after a run:
//! it reads them from the response buffer and records the state that each
//! of them stands for.

use vstd::prelude::*;
use std::hash::Hash;
use vstd::slice::slice_subrange;
use vstd::slice::slice_to_vec;
use crate::graph_laws::lemma_record_all;
use crate::graph_laws::lemma_room_by_count;
use crate::graph_laws::lemma_room_prefix;
use crate::observer::StateObserver;
use crate::wire::contents;
use crate::wire::from_be32;
use crate::wire::read_be32;

verus! {

/// The first `count` records at the start of `bytes`, each with its length
/// in front, or nothing where `bytes` ends before them. What follows the
/// records does not count.
pub open spec fn stream_records(bytes: Seq<u8>, count: nat) -> Option<Seq<Seq<u8>>>
    decreases count,
{
    if count == 0 {
        Some(Seq::empty())
    } else if bytes.len() < 4 {
        None
    } else {
        let len = from_be32(bytes) as int;
        if bytes.len() - 4 < len {
            None
        } else {
            match stream_records(bytes.skip(4 + len), (count - 1) as nat) {
                Some(more) => Some(seq![bytes.subrange(4, 4 + len)] + more),
                None => None,
            }
        }
    }
}

/// The responses that the response buffer `buffer` holds: it starts with
/// their number, then come the responses, each with its length in front.
pub open spec fn responses_in(buffer: Seq<u8>) -> Option<Seq<Seq<u8>>> {
    if buffer.len() < 4 {
        None
    } else {
        stream_records(buffer.skip(4), from_be32(buffer) as nat)
    }
}

/// `rest` with the responses `done` in front, where there is a `rest`.
pub open spec fn after_responses(done: Seq<Seq<u8>>, rest: Option<Seq<Seq<u8>>>) -> Option<
    Seq<Seq<u8>>,
> {
    match rest {
        Some(more) => Some(done + more),
        None => None,
    }
}

/// Reads the responses out of the response buffer.
pub fn read_responses(buffer: &[u8]) -> (responses: Option<Vec<Vec<u8>>>)
    ensures
        match responses {
            Some(responses) => responses_in(buffer@) == Some(contents(responses@)),
            None => responses_in(buffer@) is None,
        },
{
    if buffer.len() < 4 {
        return None;
    }
    let count = read_be32(buffer, 0);
    assert(buffer@.skip(0) =~= buffer@);
    let mut responses: Vec<Vec<u8>> = Vec::new();
    let mut idx: usize = 4;
    let mut left: u32 = count;
    assert(after_responses(contents(responses@), stream_records(buffer@.skip(4), left as nat))
        == stream_records(buffer@.skip(4), left as nat)) by {
        let rest = stream_records(buffer@.skip(4), left as nat);
        if rest is Some {
            assert(contents(responses@) + rest->Some_0 =~= rest->Some_0);
        }
    }
    while left > 0
        invariant
            4 <= idx <= buffer.len(),
            responses_in(buffer@) == after_responses(
                contents(responses@),
                stream_records(buffer@.skip(idx as int), left as nat),
            ),
        decreases left,
    {
        let ghost here = buffer@.skip(idx as int);
        if buffer.len() - idx < 4 {
            return None;
        }
        let len = read_be32(buffer, idx) as usize;
        if buffer.len() - idx - 4 < len {
            return None;
        }
        let response = slice_to_vec(slice_subrange(buffer, idx + 4, idx + 4 + len));
        proof {
            let done = contents(responses@);
            let rest = stream_records(here.skip(4 + len), (left - 1) as nat);
            assert(here.subrange(4, 4 + len) =~= response@);
            assert(here.skip(4 + len) =~= buffer@.skip(idx + 4 + len));
            assert(contents(responses@.push(response)) =~= done.push(response@));
            assert(after_responses(done, after_responses(seq![response@], rest))
                == after_responses(done.push(response@), rest)) by {
                if rest is Some {
                    assert(done + (seq![response@] + rest->Some_0) =~= done.push(response@)
                        + rest->Some_0);
                }
            }
        }
        responses.push(response);
        idx = idx + 4 + len;
        left = left - 1;
    }
    assert(contents(responses@) + Seq::<Seq<u8>>::empty() =~= contents(responses@));
    Some(responses)
}

/// What a protocol says of the responses of its target: which state one
/// of them stands for.
pub trait ProtoParser<PS>: Sized {
    /// The state that `response` stands for, if it stands for one.
    spec fn state_of(response: Seq<u8>) -> Option<PS>;

    /// The state that `response` stands for, if it stands for one.
    fn parse_response(&mut self, response: &[u8]) -> (state: Option<PS>)
        ensures
            state == Self::state_of(response@),
    ;
}

/// The states that `responses` stand for, in their order; a response
/// that stands for none is left out.
pub open spec fn states_of<PS, Parser: ProtoParser<PS>>(responses: Seq<Seq<u8>>) -> Seq<PS>
    decreases responses.len(),
{
    if responses.len() == 0 {
        Seq::empty()
    } else {
        let front = states_of::<PS, Parser>(responses.drop_last());
        match Parser::state_of(responses.last()) {
            Some(state) => front.push(state),
            None => front,
        }
    }
}

/// There are no more states than responses.
pub proof fn lemma_states_len<PS, Parser: ProtoParser<PS>>(responses: Seq<Seq<u8>>)
    ensures
        states_of::<PS, Parser>(responses).len() <= responses.len(),
    decreases responses.len(),
{
    if responses.len() > 0 {
        lemma_states_len::<PS, Parser>(responses.drop_last());
    }
}

/// The states of the first responses are the first states of all responses.
pub proof fn lemma_states_prefix<PS, Parser: ProtoParser<PS>>(responses: Seq<Seq<u8>>, upto: int)
    requires
        0 <= upto <= responses.len(),
    ensures
        states_of::<PS, Parser>(responses.take(upto)).is_prefix_of(
            states_of::<PS, Parser>(responses),
        ),
    decreases responses.len(),
{
    if upto == responses.len() {
        assert(responses.take(upto) =~= responses);
    } else {
        lemma_states_prefix::<PS, Parser>(responses.drop_last(), upto);
        assert(responses.drop_last().take(upto) =~= responses.take(upto));
    }
}

/// Records the states that the responses of a run stand for, in their order.
pub fn record_responses<PS: Eq + Hash + Copy, Parser: ProtoParser<PS>>(
    observer: &mut StateObserver<PS>,
    parser: &mut Parser,
    responses: &Vec<Vec<u8>>,
)
    requires
        old(observer).wf(),
        old(observer)@.has_room(states_of::<PS, Parser>(contents(responses@))),
    ensures
        final(observer).wf(),
        final(observer).spec_name() == old(observer).spec_name(),
        final(observer)@ == old(observer)@.record_all(
            states_of::<PS, Parser>(contents(responses@)),
        ),
{
    let ghost all = contents(responses@);
    let mut i: usize = 0;
    proof {
        assert(all.take(0) =~= Seq::<Seq<u8>>::empty());
        old(observer).lemma_wf();
    }
    while i < responses.len()
        invariant
            i <= responses.len(),
            all == contents(responses@),
            old(observer)@.wf(),
            old(observer)@.has_room(states_of::<PS, Parser>(all)),
            observer.wf(),
            observer.spec_name() == old(observer).spec_name(),
            observer@ == old(observer)@.record_all(states_of::<PS, Parser>(all.take(i as int))),
        decreases responses.len() - i,
    {
        proof {
            assert(all.take(i + 1).drop_last() =~= all.take(i as int));
            assert(all.take(i + 1).last() == responses@[i as int]@);
        }
        match parser.parse_response(responses[i].as_slice()) {
            Some(state) => {
                proof {
                    let done = states_of::<PS, Parser>(all.take(i as int));
                    let next = states_of::<PS, Parser>(all.take(i + 1));
                    assert(next.drop_last() =~= done);
                    lemma_states_prefix::<PS, Parser>(all, i + 1);
                    lemma_room_prefix(old(observer)@, states_of::<PS, Parser>(all), next);
                    lemma_record_all(old(observer)@, next);
                }
                observer.record(&state);
            },
            None => {},
        }
        i = i + 1;
    }
    assert(all.take(i as int) =~= all);
}

/// Records the states that the responses of a run stand for, where the
/// graph has an id left for each response; else nothing is recorded.
pub fn try_record_responses<PS: Eq + Hash + Copy, Parser: ProtoParser<PS>>(
    observer: &mut StateObserver<PS>,
    parser: &mut Parser,
    responses: &Vec<Vec<u8>>,
) -> (recorded: bool)
    requires
        old(observer).wf(),
    ensures
        final(observer).wf(),
        final(observer).spec_name() == old(observer).spec_name(),
        recorded == (old(observer)@.nodes.len() + responses@.len() <= u32::MAX + 1),
        recorded ==> final(observer)@ == old(observer)@.record_all(
            states_of::<PS, Parser>(contents(responses@)),
        ),
        !recorded ==> final(observer)@ == old(observer)@,
{
    if !observer.has_room_for(responses.len()) {
        return false;
    }
    proof {
        let states = states_of::<PS, Parser>(contents(responses@));
        observer.lemma_wf();
        lemma_states_len::<PS, Parser>(contents(responses@));
        lemma_room_by_count(observer@, states);
    }
    record_responses(observer, parser, responses);
    true
}

} // verus!
