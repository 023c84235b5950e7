//! Choice of the nearest hit among the members of a scene. Each member
//! reports its hit distance within the trace interval, if any, as an order
//! key: a larger key is a farther hit.
use vstd::prelude::*;

verus! {

/// The nearer of two optional hits; an absent hit never wins.
pub open spec fn nearer(a: Option<u64>, b: Option<u64>) -> Option<u64> {
    match (a, b) {
        (None, _) => b,
        (_, None) => a,
        (Some(x), Some(y)) => if y < x {
            b
        } else {
            a
        },
    }
}

/// The key of the nearest hit in `keys`, or `None` when nothing was hit.
pub open spec fn nearest_key(keys: Seq<Option<u64>>) -> Option<u64>
    decreases keys.len(),
{
    if keys.len() == 0 {
        None
    } else {
        nearer(nearest_key(keys.drop_last()), keys.last())
    }
}

/// `nearest_key` is the least key present, and is absent only when no
/// member was hit.
pub proof fn lemma_nearest_key_is_least(keys: Seq<Option<u64>>)
    ensures
        nearest_key(keys) is None <==> forall|i: int| 0 <= i < keys.len() ==> keys[i] is None,
        nearest_key(keys) is Some ==> keys.contains(nearest_key(keys)),
        forall|i: int|
            0 <= i < keys.len() && keys[i] is Some ==> nearest_key(keys)->0 <= keys[i]->0,
    decreases keys.len(),
{
    if keys.len() > 0 {
        let init = keys.drop_last();
        lemma_nearest_key_is_least(init);
        assert forall|i: int| 0 <= i < keys.len() - 1 implies keys[i] == init[i] by {}
        if nearest_key(init) is Some && nearest_key(keys) == nearest_key(init) {
            let w = choose|w: int| 0 <= w < init.len() && init[w] == nearest_key(init);
            assert(keys[w] == nearest_key(keys));
        }
        if nearest_key(keys) == keys.last() && keys.last() is Some {
            assert(keys[keys.len() - 1] == nearest_key(keys));
        }
        if nearest_key(keys) is None {
            assert forall|i: int| 0 <= i < keys.len() implies keys[i] is None by {
                if i < keys.len() - 1 {
                    assert(keys[i] == init[i]);
                }
            }
        }
    }
}

/// The distance of the nearest hit does not depend on the order in which the
/// members are scanned.
pub proof fn lemma_nearest_ignores_order(a: Seq<Option<u64>>, b: Seq<Option<u64>>)
    requires
        a.to_multiset() == b.to_multiset(),
    ensures
        nearest_key(a) == nearest_key(b),
{
    lemma_nearest_key_is_least(a);
    lemma_nearest_key_is_least(b);
    assert forall|x: Option<u64>| a.contains(x) <==> b.contains(x) by {
        vstd::seq_lib::to_multiset_contains(a, x);
        vstd::seq_lib::to_multiset_contains(b, x);
        assert(a.to_multiset().count(x) == b.to_multiset().count(x));
    }
    if nearest_key(a) is Some {
        let ia = choose|i: int| 0 <= i < a.len() && a[i] == nearest_key(a);
        let ib = choose|i: int| 0 <= i < b.len() && b[i] == nearest_key(a);
        if nearest_key(b) is Some {
            let jb = choose|i: int| 0 <= i < b.len() && b[i] == nearest_key(b);
            let ja = choose|i: int| 0 <= i < a.len() && a[i] == nearest_key(b);
            assert(nearest_key(b)->0 <= b[ib]->0);
            assert(nearest_key(a)->0 <= a[ja]->0);
        } else {
            assert(b[ib] is None);
        }
    } else if nearest_key(b) is Some {
        let jb = choose|i: int| 0 <= i < b.len() && b[i] == nearest_key(b);
        let ja = choose|i: int| 0 <= i < a.len() && a[i] == nearest_key(b);
        assert(a[ja] is None);
    }
}

/// Index of the member with the nearest hit; among equally near hits the
/// first member wins. `None` when no member was hit.
pub fn nearest_hit(keys: &[Option<u64>]) -> (r: Option<usize>)
    ensures
        r is None <==> forall|i: int| 0 <= i < keys@.len() ==> keys@[i] is None,
        r is None <==> nearest_key(keys@) is None,
        r matches Some(k) ==> {
            &&& k < keys@.len()
            &&& keys@[k as int] == nearest_key(keys@)
            &&& keys@[k as int] is Some
            &&& forall|i: int|
                0 <= i < keys@.len() && keys@[i] is Some ==> keys@[k as int]->0 <= keys@[i]->0
            &&& forall|i: int|
                0 <= i < k && keys@[i] is Some ==> keys@[k as int]->0 < keys@[i]->0
        },
{
    let mut best: Option<usize> = None;
    let mut i: usize = 0;
    while i < keys.len()
        invariant
            i <= keys@.len(),
            best is None <==> nearest_key(keys@.take(i as int)) is None,
            best is None ==> forall|q: int| 0 <= q < i ==> keys@[q] is None,
            best matches Some(k) ==> {
                &&& k < i
                &&& keys@[k as int] == nearest_key(keys@.take(i as int))
                &&& keys@[k as int] is Some
                &&& forall|q: int|
                    0 <= q < i && keys@[q] is Some ==> keys@[k as int]->0 <= keys@[q]->0
                &&& forall|q: int|
                    0 <= q < k && keys@[q] is Some ==> keys@[k as int]->0 < keys@[q]->0
            },
        decreases keys@.len() - i,
    {
        proof {
            assert(keys@.take(i + 1).drop_last() =~= keys@.take(i as int));
            assert(keys@.take(i + 1).last() == keys@[i as int]);
        }
        if let Some(key) = keys[i] {
            match best {
                None => {
                    best = Some(i);
                },
                Some(k) => {
                    if let Some(current) = keys[k] {
                        if key < current {
                            best = Some(i);
                        }
                    }
                },
            }
        }
        i += 1;
    }
    proof {
        assert(keys@.take(i as int) =~= keys@);
    }
    best
}

} // verus!
