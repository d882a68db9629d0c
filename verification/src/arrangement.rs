//! An arrangement of positions leaves none out.
use crate::sorting::is_arrangement;
use vstd::prelude::*;

verus! {

/// Whether `v` stands at one of the first `m` positions of `order`.
pub open spec fn occurs_before(order: Seq<usize>, m: int, v: int) -> bool {
    exists|a: int| 0 <= a < m && #[trigger] order[a] as int == v
}

/// An arrangement of the positions below `n` holds each of them.
pub proof fn lemma_arrangement_covers(order: Seq<usize>, n: int, k: int)
    requires
        is_arrangement(order, n),
        0 <= k < n,
    ensures
        exists|a: int| 0 <= a < n && #[trigger] order[a] == k,
{
    let s = vstd::set_lib::set_int_range(0, n);
    lemma_injective_image(order, n, n);
    vstd::set_lib::lemma_int_range(0, n);
    let img_n = image_upto(order, n);
    assert forall|v: int| img_n.contains(v) implies s.contains(v) by {
        lemma_image_members(order, n, v);
        let a = choose|a: int| 0 <= a < n && #[trigger] order[a] as int == v;
        assert(order[a] < n);
    }
    vstd::set_lib::lemma_subset_equality(img_n, s);
    assert(s.contains(k));
    assert(img_n.contains(k));
    lemma_image_members(order, n, k);
    let a = choose|a: int| 0 <= a < n && #[trigger] order[a] as int == k;
    assert(order[a] == k);
}

/// The values at the first `m` positions of `order`.
pub open spec fn image_upto(order: Seq<usize>, m: int) -> Set<int>
    decreases m,
{
    if m <= 0 {
        Set::empty()
    } else {
        image_upto(order, m - 1).insert(order[m - 1] as int)
    }
}

/// What `image_upto` holds.
pub proof fn lemma_image_members(order: Seq<usize>, m: int, v: int)
    requires
        0 <= m <= order.len(),
    ensures
        image_upto(order, m).contains(v) <==> occurs_before(order, m, v),
    decreases m,
{
    if m > 0 {
        lemma_image_members(order, m - 1, v);
        if image_upto(order, m).contains(v) {
            if v == order[m - 1] as int {
                assert(order[m - 1] as int == v);
            } else {
                assert(image_upto(order, m - 1).contains(v));
                let a = choose|a: int| 0 <= a < m - 1 && #[trigger] order[a] as int == v;
                assert(order[a] as int == v);
            }
        }
        if occurs_before(order, m, v) {
            let a = choose|a: int| 0 <= a < m && #[trigger] order[a] as int == v;
            if a < m - 1 {
                assert(order[a] as int == v);
                assert(occurs_before(order, m - 1, v));
            }
        }
    }
}

/// The first `m` values of an arrangement are `m` different values.
pub proof fn lemma_injective_image(order: Seq<usize>, n: int, m: int)
    requires
        is_arrangement(order, n),
        0 <= m <= n,
    ensures
        image_upto(order, m).finite(),
        image_upto(order, m).len() == m,
    decreases m,
{
    if m > 0 {
        lemma_injective_image(order, n, m - 1);
        lemma_image_members(order, m - 1, order[m - 1] as int);
        if image_upto(order, m - 1).contains(order[m - 1] as int) {
            let a = choose|a: int| 0 <= a < m - 1 && #[trigger] order[a] as int == order[m - 1] as int;
            assert(order[a] != order[m - 1]);
        }
    }
}

} // verus!
