//! The subnet index space: the address spans of an ordered NetID list laid
//! end to end, in list order.

use vstd::prelude::*;

use crate::layout::{devaddr_of, netid_of_devaddr, nwk_addr_of, size_of};

verus! {

/// The retired NetID: always treated as owned, though it has no place in any list.
pub const RETIRED_NETID: u32 = 0x20_0010;

/// Whether a NetID belongs to the network that owns `list`.
pub open spec fn is_local_netid(list: Seq<u32>, n: u32) -> bool {
    n == RETIRED_NETID || list.contains(n)
}

/// The sum of the spans of all NetIDs of `list`.
pub open spec fn span_total(list: Seq<u32>) -> nat
    decreases list.len(),
{
    if list.len() == 0 {
        0
    } else {
        size_of(list[0]) as nat + span_total(list.drop_first())
    }
}

/// A range moved up by `k`.
pub open spec fn shift(r: Option<(nat, nat)>, k: nat) -> Option<(nat, nat)> {
    match r {
        Some((lo, hi)) => Some((lo + k, hi + k)),
        None => None,
    }
}

/// The half-open range `[lower, upper)` of the subnet index space that `n`
/// owns: the span of its first occurrence in `list`, above the spans of the
/// entries before it; `None` when `n` is not in `list`.
pub open spec fn range_of(list: Seq<u32>, n: u32) -> Option<(nat, nat)>
    decreases list.len(),
{
    if list.len() == 0 {
        None
    } else if list[0] == n {
        Some((0, size_of(n) as nat))
    } else {
        shift(range_of(list.drop_first(), n), size_of(list[0]) as nat)
    }
}

/// Whether the range of `n` in `list` holds the subnet address `s`.
pub open spec fn claims(list: Seq<u32>, n: u32, s: nat) -> bool {
    match range_of(list, n) {
        Some((lo, hi)) => lo <= s < hi,
        None => false,
    }
}

/// The first of `items` whose range in `list` holds `s`.
pub open spec fn first_claimant(list: Seq<u32>, items: Seq<u32>, s: nat) -> Option<u32>
    decreases items.len(),
{
    if items.len() == 0 {
        None
    } else if claims(list, items[0], s) {
        Some(items[0])
    } else {
        first_claimant(list, items.drop_first(), s)
    }
}

/// Whether `s` falls in the span of entry `k`, counting along the spans of
/// `list` laid end to end.
pub open spec fn in_slot(list: Seq<u32>, k: int, s: nat) -> bool {
    0 <= k < list.len() && span_total(list.take(k)) <= s < span_total(list.take(k)) + size_of(
        list[k],
    )
}

/// The NetID of `list` that owns the subnet address `s`.
pub open spec fn owner_of(list: Seq<u32>, s: nat) -> Option<u32> {
    first_claimant(list, list, s)
}

/// The subnet address of DevAddr `d`: the lower end of its NetID's range plus
/// its local network address; `None` when its NetID is not in `list`.
pub open spec fn subnet_of_devaddr(list: Seq<u32>, d: u32) -> Option<nat> {
    match range_of(list, netid_of_devaddr(d)) {
        Some((lo, _)) => Some(lo + nwk_addr_of(d) as nat),
        None => None,
    }
}

/// The DevAddr of subnet address `s`: the owner's NetID with the offset of `s`
/// in the owner's range as local network address; `None` when no NetID of
/// `list` owns `s`.
pub open spec fn devaddr_of_subnet(list: Seq<u32>, s: nat) -> Option<u32> {
    match owner_of(list, s) {
        Some(n) => match range_of(list, n) {
            Some((lo, _)) => Some(devaddr_of(n, (s - lo) as u32)),
            None => None,
        },
        None => None,
    }
}

/// A NetID has a range exactly when it is in the list; the range is as wide
/// as its span and ends within the total span.
pub proof fn lemma_range_bounds(list: Seq<u32>, n: u32)
    ensures
        range_of(list, n) is Some <==> list.contains(n),
        range_of(list, n) matches Some((lo, hi)) ==> hi == lo + size_of(n) && hi <= span_total(
            list,
        ),
    decreases list.len(),
{
    if list.len() > 0 {
        let tail = list.drop_first();
        lemma_range_bounds(tail, n);
        if list[0] != n {
            if tail.contains(n) {
                let k = choose|k: int| 0 <= k < tail.len() && tail[k] == n;
                assert(list[k + 1] == n);
            }
            if list.contains(n) {
                let k = choose|k: int| 0 <= k < list.len() && list[k] == n;
                assert(tail[k - 1] == n);
            }
        } else {
            assert(list[0] == n);
        }
    }
}

/// The NetID that `first_claimant` picks is one of `items`, and its range
/// holds the address.
pub proof fn lemma_first_claimant_claims(list: Seq<u32>, items: Seq<u32>, s: nat)
    ensures
        first_claimant(list, items, s) matches Some(n) ==> claims(list, n, s) && items.contains(n),
    decreases items.len(),
{
    if items.len() > 0 && !claims(list, items[0], s) {
        let tail = items.drop_first();
        lemma_first_claimant_claims(list, tail, s);
        if let Some(n) = first_claimant(list, tail, s) {
            let k = choose|k: int| 0 <= k < tail.len() && tail[k] == n;
            assert(items[k + 1] == n);
        }
    } else if items.len() > 0 {
        assert(items[0] == items[0]);
    }
}

/// Two NetIDs whose ranges both hold one address are the same NetID.
pub proof fn lemma_claims_unique(list: Seq<u32>, a: u32, b: u32, s: nat)
    requires
        claims(list, a, s),
        claims(list, b, s),
    ensures
        a == b,
    decreases list.len(),
{
    let tail = list.drop_first();
    if list[0] != a && list[0] != b {
        lemma_claims_unique(tail, a, b, (s - size_of(list[0])) as nat);
    } else if list[0] == a && list[0] != b {
        lemma_range_bounds(tail, b);
    } else if list[0] != a && list[0] == b {
        lemma_range_bounds(tail, a);
    }
}

/// When `n` is among `items`, claims `s`, and is the only NetID that does,
/// `first_claimant` picks it.
pub proof fn lemma_first_claimant_is(list: Seq<u32>, items: Seq<u32>, s: nat, n: u32)
    requires
        items.contains(n),
        claims(list, n, s),
    ensures
        first_claimant(list, items, s) == Some(n),
    decreases items.len(),
{
    if claims(list, items[0], s) {
        lemma_claims_unique(list, items[0], n, s);
    } else {
        let tail = items.drop_first();
        let k = choose|k: int| 0 <= k < items.len() && items[k] == n;
        assert(k != 0);
        assert(tail[k - 1] == n);
        lemma_first_claimant_is(list, tail, s, n);
    }
}

/// The spans of the first `i + 1` entries are those of the first `i` and the
/// span of entry `i`.
pub proof fn lemma_span_take_step(list: Seq<u32>, i: int)
    requires
        0 <= i < list.len(),
    ensures
        span_total(list.take(i + 1)) == span_total(list.take(i)) + size_of(list[i]),
    decreases i,
{
    let tail = list.drop_first();
    if i == 0 {
        assert(list.take(1).drop_first() =~= Seq::<u32>::empty());
        assert(list.take(0) =~= Seq::<u32>::empty());
    } else {
        lemma_span_take_step(tail, i - 1);
        assert(list.take(i + 1).drop_first() =~= tail.take(i));
        assert(list.take(i).drop_first() =~= tail.take(i - 1));
    }
}

/// The range of an entry's first occurrence starts at the spans of the
/// entries before it.
pub proof fn lemma_first_range(list: Seq<u32>, k: int)
    requires
        0 <= k < list.len(),
        !list.take(k).contains(list[k]),
    ensures
        range_of(list, list[k]) == Some(
            (
                span_total(list.take(k)),
                span_total(list.take(k)) + size_of(list[k]) as nat,
            ),
        ),
    decreases k,
{
    if k == 0 {
        assert(list.take(0) =~= Seq::<u32>::empty());
    } else {
        let tail = list.drop_first();
        assert(list.take(k)[0] == list[0]);
        assert(list[0] != list[k]);
        assert(tail[k - 1] == list[k]);
        assert(list.take(k).drop_first() =~= tail.take(k - 1));
        if tail.take(k - 1).contains(tail[k - 1]) {
            let j = choose|j: int| 0 <= j < k - 1 && #[trigger] tail.take(k - 1)[j] == tail[k - 1];
            assert(list.take(k)[j + 1] == list[k]);
        }
        lemma_first_range(tail, k - 1);
    }
}

} // verus!
