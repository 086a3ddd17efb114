use std::collections::BTreeSet;
use vstd::prelude::*;

verus! {

broadcast use {vstd::std_specs::btree::group_btree_axioms, vstd::laws_cmp::group_laws_cmp};

/// `BTreeSet::first`: the least element of the set, `None` when it is empty.
#[verifier::external_body]
pub(crate) fn lowest(s: &BTreeSet<u32>) -> (r: Option<u32>)
    ensures
        r is None ==> s@ == Set::<u32>::empty(),
        r matches Some(p) ==> s@.contains(p) && forall|q: u32| s@.contains(q) ==> p <= q,
{
    s.first().copied()
}

/// `BTreeSet::last`: the greatest element of the set, `None` when it is
/// empty.
#[verifier::external_body]
pub(crate) fn highest(s: &BTreeSet<u32>) -> (r: Option<u32>)
    ensures
        r is None ==> s@ == Set::<u32>::empty(),
        r matches Some(p) ==> s@.contains(p) && forall|q: u32| s@.contains(q) ==> q <= p,
{
    s.last().copied()
}

/// Adds a price to the set.
pub(crate) fn add_price(s: &mut BTreeSet<u32>, p: u32)
    ensures
        final(s)@ == old(s)@.insert(p),
{
    s.insert(p);
}

/// Removes a price from the set.
pub(crate) fn drop_price(s: &mut BTreeSet<u32>, p: u32)
    ensures
        final(s)@ == old(s)@.remove(p),
{
    s.remove(&p);
}

} // verus!
