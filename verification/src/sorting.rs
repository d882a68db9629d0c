//! The order in which nodes are removed: longest path first, so that what
//! lies deeper goes before what holds it. Entries of equal length keep the
//! order they came in.
use vstd::prelude::*;

verus! {

/// `sorted` with the position `x` put behind every position whose key is
/// at least the key of `x`.
pub open spec fn insert_desc(sorted: Seq<usize>, keys: Seq<usize>, x: usize) -> Seq<usize>
    decreases sorted.len(),
{
    if sorted.len() == 0 {
        seq![x]
    } else if keys[sorted.last() as int] >= keys[x as int] {
        sorted.push(x)
    } else {
        insert_desc(sorted.drop_last(), keys, x).push(sorted.last())
    }
}

/// The first `n` positions of `keys`, ordered by descending key; positions
/// with equal keys stay in ascending order.
pub open spec fn order_desc(keys: Seq<usize>, n: int) -> Seq<usize>
    decreases n,
{
    if n <= 0 {
        Seq::empty()
    } else {
        insert_desc(order_desc(keys, n - 1), keys, (n - 1) as usize)
    }
}

/// Whether `order` lists positions by descending key, equal keys in
/// ascending order of position.
pub open spec fn is_desc_stable(order: Seq<usize>, keys: Seq<usize>) -> bool {
    forall|a: int, b: int|
        0 <= a < b < order.len() ==> keys[#[trigger] order[a] as int] > keys[#[trigger] order[b] as int]
            || (keys[order[a] as int] == keys[order[b] as int] && order[a] < order[b])
}

/// Whether `order` lists every position below `n` exactly once.
pub open spec fn is_arrangement(order: Seq<usize>, n: int) -> bool {
    &&& order.len() == n
    &&& forall|a: int| 0 <= a < order.len() ==> (#[trigger] order[a]) < n
    &&& forall|a: int, b: int| 0 <= a < b < order.len() ==> #[trigger] order[a] != #[trigger] order[b]
}

/// Whether `r` is `sorted` with `x` put in at position `p`.
pub open spec fn inserted_at(r: Seq<usize>, sorted: Seq<usize>, p: int, x: usize) -> bool {
    0 <= p <= sorted.len() && r == sorted.insert(p, x)
}

/// Inserting keeps what was there, in its order, and adds `x` once.
#[verifier::rlimit(60)]
pub proof fn lemma_insert_desc(sorted: Seq<usize>, keys: Seq<usize>, x: usize)
    requires
        x < keys.len(),
        forall|a: int| 0 <= a < sorted.len() ==> (#[trigger] sorted[a]) < x,
        is_desc_stable(sorted, keys),
        forall|a: int, b: int| 0 <= a < b < sorted.len() ==> #[trigger] sorted[a] != #[trigger] sorted[b],
    ensures
        ({
            let r = insert_desc(sorted, keys, x);
            &&& r.len() == sorted.len() + 1
            &&& exists|p: int| #[trigger] inserted_at(r, sorted, p, x)
            &&& is_desc_stable(r, keys)
            &&& forall|a: int| 0 <= a < r.len() ==> (#[trigger] r[a]) <= x
            &&& forall|a: int, b: int| 0 <= a < b < r.len() ==> #[trigger] r[a] != #[trigger] r[b]
        }),
    decreases sorted.len(),
{
    let r = insert_desc(sorted, keys, x);
    if sorted.len() == 0 {
        assert(r =~= sorted.insert(0, x));
        assert(inserted_at(r, sorted, 0, x));
    } else if keys[sorted.last() as int] >= keys[x as int] {
        let n = sorted.len() as int;
        assert(r =~= sorted.insert(n, x));
        assert(inserted_at(r, sorted, n, x));
        assert forall|a: int, b: int| 0 <= a < b < r.len() implies keys[#[trigger] r[a] as int]
            > keys[#[trigger] r[b] as int] || (keys[r[a] as int] == keys[r[b] as int] && r[a]
            < r[b]) by {
            if b == n {
                if a < n - 1 {
                    assert(keys[sorted[a] as int] > keys[sorted[n - 1] as int] || (keys[sorted[a] as int]
                        == keys[sorted[n - 1] as int]));
                }
                assert(sorted[a] < x);
            } else {
                assert(r[a] == sorted[a] && r[b] == sorted[b]);
            }
        }
    } else {
        let front = sorted.drop_last();
        let last = sorted.last();
        let n = sorted.len() as int;
        assert forall|a: int, b: int| 0 <= a < b < front.len() implies keys[#[trigger] front[a] as int]
            > keys[#[trigger] front[b] as int] || (keys[front[a] as int] == keys[front[b] as int]
            && front[a] < front[b]) by {
            assert(front[a] == sorted[a] && front[b] == sorted[b]);
        }
        assert forall|a: int, b: int| 0 <= a < b < front.len() implies #[trigger] front[a]
            != #[trigger] front[b] by {
            assert(front[a] == sorted[a] && front[b] == sorted[b]);
        }
        assert forall|a: int| 0 <= a < front.len() implies (#[trigger] front[a]) < x by {
            assert(front[a] == sorted[a]);
        }
        lemma_insert_desc(front, keys, x);
        let inner = insert_desc(front, keys, x);
        let p = choose|p: int| #[trigger] inserted_at(inner, front, p, x);
        assert(r =~= sorted.insert(p, x));
        assert(inserted_at(r, sorted, p, x));
        assert forall|a: int, b: int| 0 <= a < b < r.len() implies keys[#[trigger] r[a] as int]
            > keys[#[trigger] r[b] as int] || (keys[r[a] as int] == keys[r[b] as int] && r[a]
            < r[b]) by {
            if b == n {
                assert(r[b] == last);
                if a == p {
                    assert(r[a] == x);
                } else if a < p {
                    assert(r[a] == sorted[a]);
                    assert(sorted[n - 1] == last);
                } else {
                    assert(r[a] == sorted[a - 1]);
                    assert(sorted[n - 1] == last);
                }
            } else {
                assert(r[a] == inner[a] && r[b] == inner[b]);
            }
        }
        assert forall|a: int, b: int| 0 <= a < b < r.len() implies #[trigger] r[a] != #[trigger] r[b] by {
            if b == n {
                assert(r[b] == last);
                assert(sorted[n - 1] == last);
                if a == p {
                } else if a < p {
                    assert(r[a] == sorted[a]);
                } else {
                    assert(r[a] == sorted[a - 1]);
                }
            } else {
                assert(r[a] == inner[a] && r[b] == inner[b]);
            }
        }
        assert forall|a: int| 0 <= a < r.len() implies (#[trigger] r[a]) <= x by {
            if a < n {
                assert(r[a] == inner[a]);
            }
        }
    }
}

/// The order lists every position once, longest key first, and equal keys
/// in the order they came in.
pub proof fn lemma_order_desc(keys: Seq<usize>, n: int)
    requires
        0 <= n <= keys.len() <= usize::MAX,
    ensures
        is_arrangement(order_desc(keys, n), n),
        is_desc_stable(order_desc(keys, n), keys),
    decreases n,
{
    if n > 0 {
        lemma_order_desc(keys, n - 1);
        lemma_insert_desc(order_desc(keys, n - 1), keys, (n - 1) as usize);
        let r = order_desc(keys, n);
        let prev = order_desc(keys, n - 1);
        let x = (n - 1) as usize;
        let p = choose|p: int| #[trigger] inserted_at(r, prev, p, x);
        assert forall|a: int| 0 <= a < r.len() implies (#[trigger] r[a]) < n by {
            if a < p {
                assert(r[a] == prev[a]);
            } else if a > p {
                assert(r[a] == prev[a - 1]);
            }
        }
    }
}

/// Of two positions in the order, the one with the strictly larger key
/// comes first.
pub proof fn lemma_longer_first(keys: Seq<usize>, a: int, b: int)
    requires
        keys.len() <= usize::MAX,
        0 <= a < keys.len(),
        0 <= b < keys.len(),
        a != b,
        keys[order_desc(keys, keys.len() as int)[a] as int] > keys[order_desc(
            keys,
            keys.len() as int,
        )[b] as int],
    ensures
        a < b,
{
    lemma_order_desc(keys, keys.len() as int);
    let order = order_desc(keys, keys.len() as int);
    if b < a {
        assert(keys[order[b] as int] > keys[order[a] as int] || keys[order[b] as int]
            == keys[order[a] as int]);
    }
}

/// The positions of `keys` ordered by descending key, equal keys in the
/// order they came in.
pub fn stable_order_desc(keys: &Vec<usize>) -> (order: Vec<usize>)
    ensures
        order@ == order_desc(keys@, keys@.len() as int),
{
    let mut out: Vec<usize> = Vec::new();
    let mut i: usize = 0;
    while i < keys.len()
        invariant
            0 <= i <= keys.len(),
            out@ == order_desc(keys@, i as int),
        decreases keys.len() - i,
    {
        proof {
            lemma_order_desc(keys@, i as int);
        }
        let mut p: usize = out.len();
        proof {
            assert(out@.take(p as int) =~= out@);
            assert(out@.skip(p as int) =~= Seq::<usize>::empty());
            assert(insert_desc(out@, keys@, i) =~= insert_desc(out@.take(p as int), keys@, i)
                + out@.skip(p as int));
        }
        while p > 0 && keys[out[p - 1]] < keys[i]
            invariant
                0 <= p <= out.len(),
                i < keys.len(),
                forall|a: int| 0 <= a < out@.len() ==> (#[trigger] out@[a]) < i,
                insert_desc(out@, keys@, i) == insert_desc(out@.take(p as int), keys@, i) + out@.skip(
                    p as int,
                ),
            decreases p,
        {
            proof {
                let t = out@.take(p as int);
                assert(t.last() == out@[p - 1]);
                assert(t.drop_last() =~= out@.take(p as int - 1));
                assert(insert_desc(t, keys@, i) == insert_desc(t.drop_last(), keys@, i).push(
                    t.last(),
                ));
                assert(seq![out@[p - 1]] + out@.skip(p as int) =~= out@.skip(p as int - 1));
                assert(insert_desc(t.drop_last(), keys@, i).push(t.last()) + out@.skip(p as int)
                    =~= insert_desc(t.drop_last(), keys@, i) + out@.skip(p as int - 1));
            }
            p -= 1;
        }
        proof {
            let t = out@.take(p as int);
            if p > 0 {
                assert(t.last() == out@[p - 1]);
            }
            assert(insert_desc(t, keys@, i) == t.push(i)) by {
                if p == 0 {
                    assert(t =~= Seq::<usize>::empty());
                    assert(t.push(i) =~= seq![i]);
                }
            }
            assert(t.push(i) + out@.skip(p as int) =~= out@.insert(p as int, i));
        }
        out.insert(p, i);
        i += 1;
    }
    out
}

} // verus!
