//! Access to the entries of hash maps keyed by number.
use vstd::prelude::*;
use std::collections::HashMap;

verus! {

/// `HashMap::get_mut`: a mutable reference to the value stored under `k`, none if there is none;
/// what is written through it is what the map holds there afterwards.
#[verifier::external_body]
pub(crate) fn value_mut<V>(m: &mut HashMap<u32, V>, k: u32) -> (r: Option<&mut V>)
    ensures
        old(m)@.contains_key(k) ==> r is Some && *r->0 == old(m)@[k] && final(m)@ == old(m)@.insert(k, *final(r->0)),
        !old(m)@.contains_key(k) ==> r is None && final(m)@ == old(m)@,
{
    m.get_mut(&k)
}

} // verus!
