//! Laws that tie the conversions together.

use vstd::prelude::*;

use crate::layout::{
    is_canonical, lemma_devaddr_parts, lemma_devaddr_rebuild, netid_of_devaddr,
};
use crate::spans::{
    devaddr_of_subnet, in_slot, lemma_first_claimant_is, lemma_first_range, lemma_range_bounds,
    lemma_span_take_step, owner_of, range_of, span_total, subnet_of_devaddr,
};

verus! {

/// A DevAddr whose NetID is in the list has a subnet address, and that
/// address converts back to the same DevAddr.
pub proof fn law_devaddr_round_trip(list: Seq<u32>, d: u32)
    requires
        list.contains(netid_of_devaddr(d)),
    ensures
        subnet_of_devaddr(list, d) matches Some(s) && devaddr_of_subnet(list, s) == Some(d),
{
    let n = netid_of_devaddr(d);
    lemma_range_bounds(list, n);
    lemma_devaddr_rebuild(d);
    let s = subnet_of_devaddr(list, d)->Some_0;
    lemma_first_claimant_is(list, list, s, n);
    assert(owner_of(list, s) == Some(n));
}

/// A subnet address that lies in the span of an entry which is the first
/// occurrence of a canonical NetID has a DevAddr, and that DevAddr converts
/// back to the same address.
pub proof fn law_subnet_round_trip(list: Seq<u32>, s: nat)
    requires
        exists|k: int|
            in_slot(list, k, s) && !list.take(k).contains(#[trigger] list[k]) && is_canonical(
                list[k],
            ),
    ensures
        devaddr_of_subnet(list, s) matches Some(d) && subnet_of_devaddr(list, d) == Some(s),
{
    let k = choose|k: int|
        in_slot(list, k, s) && !list.take(k).contains(#[trigger] list[k]) && is_canonical(
            list[k],
        );
    let n = list[k];
    lemma_first_range(list, k);
    assert(list.contains(n));
    lemma_first_claimant_is(list, list, s, n);
    let lo = span_total(list.take(k));
    lemma_devaddr_parts(n, (s - lo) as u32);
}

/// Adjacent entries, each at its first occurrence, own adjacent ranges: the
/// first ends where the second begins.
pub proof fn law_ranges_adjoin(list: Seq<u32>, i: int)
    requires
        0 <= i,
        i + 1 < list.len(),
        !list.take(i).contains(list[i]),
        !list.take(i + 1).contains(list[i + 1]),
    ensures
        range_of(list, list[i]) matches Some((_, hi)) && range_of(list, list[i + 1]) matches Some(
            (lo, _),
        ) && hi == lo,
{
    lemma_first_range(list, i);
    lemma_first_range(list, i + 1);
    lemma_span_take_step(list, i);
}

} // verus!
