//! The hasher that keys the state graph's collections.

use vstd::prelude::*;
use ahash::RandomState;
use std::collections::HashMap;
use std::collections::HashSet;
use vstd::std_specs::hash::builds_valid_hashers;

verus! {

/// `ahash::RandomState`, a builder of hashers. Nothing is known of its keys.
#[verifier::external_type_specification]
#[verifier::external_body]
pub struct ExHashState(ahash::RandomState);

/// Whether hashers built from `state` digest equal input equally. The
/// standard collections are specified only for builders of which this holds,
/// and the property is one of the builder's type: it does not depend on the
/// keys that `state` holds.
pub open spec fn hashes_consistently(state: RandomState) -> bool {
    builds_valid_hashers::<RandomState>()
}

/// Calls `ahash::RandomState::default`, which makes a builder with keys of
/// its own. Of `build_hasher` the crate says that hashers created from the
/// same builder generate the same hashes for the same input: each starts
/// from the keys that the builder holds.
#[verifier::external_body]
pub(crate) fn hash_state() -> (state: RandomState)
    ensures
        hashes_consistently(state),
{
    RandomState::default()
}

/// `HashMap::with_hasher` creates a map without keys that hashes with the given builder.
pub assume_specification<K, V, S>[ HashMap::<K, V, S>::with_hasher ](hash_builder: S) -> (made:
    HashMap<K, V, S>)
    ensures
        made@.dom() == Set::<K>::empty(),
;

/// `HashSet::with_hasher` creates an empty set that hashes with the given builder.
pub assume_specification<T, S>[ HashSet::<T, S>::with_hasher ](hasher: S) -> (made: HashSet<T, S>)
    ensures
        made@ == Set::<T>::empty(),
;

} // verus!
