//! Stable ordering of items by an integer key, as `slice::sort_by` orders them.

use vstd::prelude::*;

verus! {

/// `order` lists every index of `keys` once, by non-increasing key, and items of
/// equal key keep the relative order they have in `keys`: a stable sort by
/// descending key.
pub open spec fn is_stable_desc_order(keys: Seq<i64>, order: Seq<usize>) -> bool {
    &&& order.len() == keys.len()
    &&& forall|k: int| 0 <= k < order.len() ==> #[trigger] order[k] < keys.len()
    &&& forall|a: int, b: int|
        0 <= a < order.len() && 0 <= b < order.len() && a != b ==> #[trigger] order[a]
            != #[trigger] order[b]
    &&& forall|a: int, b: int|
        0 <= a < b < order.len() ==> keys[#[trigger] order[a] as int] >= keys[#[trigger] order[b] as int]
    &&& forall|a: int, b: int|
        0 <= a < b < order.len() && keys[#[trigger] order[a] as int] == keys[#[trigger] order[b] as int]
            ==> order[a] < order[b]
}

/// The stable order of the indices of `keys` by descending key.
pub fn stable_desc_order(keys: &Vec<i64>) -> (order: Vec<usize>)
    ensures
        is_stable_desc_order(keys@, order@),
{
    let n = keys.len();
    let mut order: Vec<usize> = Vec::new();
    let mut i: usize = 0;
    while i < n
        invariant
            n == keys@.len(),
            i <= n,
            order@.len() == i,
            forall|k: int| 0 <= k < order@.len() ==> #[trigger] order@[k] < i,
            forall|a: int, b: int|
                0 <= a < order@.len() && 0 <= b < order@.len() && a != b ==> #[trigger] order@[a]
                    != #[trigger] order@[b],
            forall|a: int, b: int|
                0 <= a < b < order@.len() ==> keys@[#[trigger] order@[a] as int] >= keys@[#[trigger] order@[b] as int],
            forall|a: int, b: int|
                0 <= a < b < order@.len() && keys@[#[trigger] order@[a] as int]
                    == keys@[#[trigger] order@[b] as int] ==> order@[a] < order@[b],
        decreases n - i,
    {
        let k = keys[i];
        let mut p: usize = 0;
        while p < order.len() && keys[order[p]] >= k
            invariant
                n == keys@.len(),
                i < n,
                p <= order@.len(),
                forall|q: int| 0 <= q < order@.len() ==> #[trigger] order@[q] < i,
                forall|q: int| 0 <= q < p ==> keys@[#[trigger] order@[q] as int] >= k,
            decreases order@.len() - p,
        {
            p = p + 1;
        }
        let ghost old_order = order@;
        proof {
            assert forall|q: int| p <= q < old_order.len() implies keys@[#[trigger] old_order[q] as int] < k by {
                assert(keys@[old_order[p as int] as int] < k);
                if q > p {
                    assert(keys@[old_order[p as int] as int] >= keys@[old_order[q] as int]);
                }
            }
        }
        order.insert(p, i);
        proof {
            assert forall|q: int| 0 <= q < order@.len() implies (if q < p {
                order@[q] == old_order[q]
            } else if q == p {
                order@[q] == i
            } else {
                order@[q] == old_order[q - 1]
            }) by {}
            assert forall|q: int| 0 <= q < order@.len() implies #[trigger] order@[q] < i + 1 by {
                if q < p {
                    assert(order@[q] == old_order[q]);
                } else if q > p {
                    assert(order@[q] == old_order[q - 1]);
                }
            }
        }
        i = i + 1;
    }
    order
}

} // verus!
