//! Chronological order of trades: by day, time of day and source row, ties
//! kept in their given order.

use vstd::prelude::*;

verus! {

/// The sort key of a trade: (day number, seconds since midnight,
/// nanoseconds, source row index). A trade without a time sorts at
/// midnight.
pub type TradeKey = (i64, u32, u32, usize);

/// Lexicographic strict order on sort keys.
pub open spec fn key_lt(a: TradeKey, b: TradeKey) -> bool {
    a.0 < b.0 || (a.0 == b.0 && (a.1 < b.1 || (a.1 == b.1 && (a.2 < b.2 || (a.2 == b.2 && a.3 < b.3)))))
}

/// Position `i` comes before position `j`: a smaller key, or an equal key
/// and an earlier position (a stable sort).
pub open spec fn comes_before(keys: Seq<TradeKey>, i: int, j: int) -> bool {
    key_lt(keys[i], keys[j]) || (keys[i] == keys[j] && i < j)
}

/// `order` lists every position of `keys` exactly once.
pub open spec fn is_permutation(order: Seq<usize>, n: nat) -> bool {
    &&& order.len() == n
    &&& forall|k: int| 0 <= k < order.len() ==> #[trigger] order[k] < n
    &&& forall|a: int, b: int| 0 <= a < b < order.len() ==> #[trigger] order[a] != #[trigger] order[b]
}

/// `order` lists positions in chronological order.
pub open spec fn is_chronological(keys: Seq<TradeKey>, order: Seq<usize>) -> bool {
    forall|a: int, b: int|
        0 <= a < b < order.len() ==> comes_before(keys, #[trigger] order[a] as int, #[trigger] order[b] as int)
}

/// The positions of the trades in chronological order: a stable sort by
/// (day, time, source row).
pub fn chronological_order(keys: &[TradeKey]) -> (r: Vec<usize>)
    ensures
        is_permutation(r@, keys@.len()),
        is_chronological(keys@, r@),
        ascends_by_component(keys@, r@),
{
    let ghost ks = keys@;
    let mut order: Vec<usize> = Vec::new();
    let mut k: usize = 0;
    while k < keys.len()
        invariant
            k <= keys@.len(),
            ks == keys@,
            order@.len() == k,
            forall|x: int| 0 <= x < order@.len() ==> #[trigger] order@[x] < k,
            forall|a: int, b: int| 0 <= a < b < order@.len() ==> #[trigger] order@[a] != #[trigger] order@[b],
            is_chronological(ks, order@),
        decreases keys@.len() - k,
    {
        // the first position whose key is strictly greater than key k
        let mut p: usize = 0;
        while p < order.len() && !key_less(&keys[k], &keys[order[p]])
            invariant
                p <= order@.len(),
                k < keys@.len(),
                ks == keys@,
                forall|x: int| 0 <= x < order@.len() ==> #[trigger] order@[x] < k,
                forall|x: int| 0 <= x < p ==> comes_before(ks, #[trigger] order@[x] as int, k as int),
            decreases order@.len() - p,
        {
            p = p + 1;
        }
        let ghost before = order@;
        proof {
            if p < before.len() {
                assert(key_lt(ks[k as int], ks[before[p as int] as int]));
                assert forall|x: int| p <= x < before.len() implies comes_before(ks, k as int, #[trigger] before[x] as int) by {
                    if x > p {
                        assert(comes_before(ks, before[p as int] as int, before[x] as int));
                    }
                }
            }
        }
        order.insert(p, k);
        assert(order@ == before.insert(p as int, k));
        assert forall|x: int| 0 <= x < order@.len() implies #[trigger] order@[x] < k + 1 by {
            if x < p {
                assert(order@[x] == before[x]);
            } else if x > p {
                assert(order@[x] == before[x - 1]);
            }
        }
        assert forall|a: int, b: int| 0 <= a < b < order@.len() implies #[trigger] order@[a] != #[trigger] order@[b] by {
            if a < p && b < p {
                assert(order@[a] == before[a] && order@[b] == before[b]);
            } else if a < p && b == p {
                assert(order@[a] == before[a]);
            } else if a < p && b > p {
                assert(order@[a] == before[a] && order@[b] == before[b - 1]);
            } else if a == p {
                assert(order@[b] == before[b - 1]);
            } else {
                assert(order@[a] == before[a - 1] && order@[b] == before[b - 1]);
            }
        }
        assert forall|a: int, b: int| 0 <= a < b < order@.len() implies comes_before(
            ks,
            #[trigger] order@[a] as int,
            #[trigger] order@[b] as int,
        ) by {
            if a < p && b < p {
                assert(order@[a] == before[a] && order@[b] == before[b]);
            } else if a < p && b == p {
                assert(order@[a] == before[a]);
            } else if a < p && b > p {
                assert(order@[a] == before[a] && order@[b] == before[b - 1]);
                assert(comes_before(ks, before[a] as int, before[b - 1] as int));
            } else if a == p {
                assert(order@[b] == before[b - 1]);
            } else {
                assert(order@[a] == before[a - 1] && order@[b] == before[b - 1]);
            }
        }
        k = k + 1;
    }
    proof {
        law_chronological_ascends(ks, order@);
    }
    order
}

/// Along `order`, day numbers never decrease; among trades of one day,
/// times never decrease; with equal times, nanoseconds never decrease; with
/// all three equal, source rows strictly increase.
pub open spec fn ascends_by_component(keys: Seq<TradeKey>, order: Seq<usize>) -> bool {
    forall|a: int, b: int|
        0 <= a < b < order.len() ==> {
            let x = keys[#[trigger] order[a] as int];
            let y = keys[#[trigger] order[b] as int];
            &&& x.0 <= y.0
            &&& x.0 == y.0 ==> x.1 <= y.1
            &&& x.0 == y.0 && x.1 == y.1 ==> x.2 <= y.2
            &&& x.0 == y.0 && x.1 == y.1 && x.2 == y.2 ==> x.3 <= y.3
            &&& x == y ==> order[a] < order[b]
        }
}

/// A chronological order ascends in every component of the key: day
/// first, then time of day, nanoseconds and source row. In particular two
/// trades of the same day and time come out in source-row order.
pub proof fn law_chronological_ascends(keys: Seq<TradeKey>, order: Seq<usize>)
    requires
        is_permutation(order, keys.len()),
        is_chronological(keys, order),
    ensures
        ascends_by_component(keys, order),
        forall|a: int, b: int|
            0 <= a < order.len() && 0 <= b < order.len() && keys[#[trigger] order[a] as int].0 == keys[#[trigger] order[b] as int].0
                && keys[order[a] as int].1 == keys[order[b] as int].1 && keys[order[a] as int].2 == keys[order[b] as int].2
                && keys[order[a] as int].3 < keys[order[b] as int].3 ==> a < b,
{
    assert forall|a: int, b: int|
        0 <= a < order.len() && 0 <= b < order.len() && keys[#[trigger] order[a] as int].0 == keys[#[trigger] order[b] as int].0
            && keys[order[a] as int].1 == keys[order[b] as int].1 && keys[order[a] as int].2 == keys[order[b] as int].2
            && keys[order[a] as int].3 < keys[order[b] as int].3 implies a < b by {
        if b < a {
            assert(comes_before(keys, order[b] as int, order[a] as int));
        } else if a == b {
        }
    }
}

/// Strict lexicographic comparison of two sort keys.
fn key_less(a: &TradeKey, b: &TradeKey) -> (r: bool)
    ensures
        r == key_lt(*a, *b),
{
    a.0 < b.0 || (a.0 == b.0 && (a.1 < b.1 || (a.1 == b.1 && (a.2 < b.2 || (a.2 == b.2 && a.3 < b.3)))))
}

} // verus!
