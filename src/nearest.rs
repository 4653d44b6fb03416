use vstd::prelude::*;

verus! {

/// The nearer of two optional distance keys; `None` stands for a miss.
pub open spec fn nearer(a: Option<u64>, b: Option<u64>) -> Option<u64> {
    match (a, b) {
        (None, _) => b,
        (_, None) => a,
        (Some(x), Some(y)) => if y <= x {
            b
        } else {
            a
        },
    }
}

/// The smallest key among the hits of `keys`, or `None` when nothing was hit.
pub open spec fn nearest_key(keys: Seq<Option<u64>>) -> Option<u64>
    decreases keys.len(),
{
    if keys.len() == 0 {
        None
    } else {
        nearer(nearest_key(keys.drop_last()), keys.last())
    }
}

/// `nearest_key` is the least key present, and is `None` exactly when no key is.
pub proof fn lemma_nearest_key_is_least(keys: Seq<Option<u64>>)
    ensures
        nearest_key(keys) is None <==> (forall|i: int| 0 <= i < keys.len() ==> keys[i] is None),
        nearest_key(keys) is Some ==> keys.contains(nearest_key(keys)),
        forall|i: int|
            0 <= i < keys.len() && #[trigger] keys[i] is Some ==> nearest_key(keys) is Some
                && nearest_key(keys)->0 <= keys[i]->0,
    decreases keys.len(),
{
    if keys.len() > 0 {
        let rest = keys.drop_last();
        lemma_nearest_key_is_least(rest);
        assert forall|i: int| 0 <= i < keys.len() - 1 implies keys[i] == rest[i] by {}
        if nearest_key(rest) is Some && nearest_key(keys) == nearest_key(rest) {
            let j = choose|j: int| 0 <= j < rest.len() && rest[j] == nearest_key(rest);
            assert(keys[j] == nearest_key(keys));
        }
        if nearest_key(keys) == keys.last() {
            assert(keys[keys.len() - 1] == nearest_key(keys));
        }
    }
}

/// Law: the nearest hit does not depend on the order in which the objects are
/// scanned. Two scans that see the same keys in any order agree on the nearest one.
pub proof fn lemma_nearest_order_free(a: Seq<Option<u64>>, b: Seq<Option<u64>>)
    requires
        a.to_multiset() == b.to_multiset(),
    ensures
        nearest_key(a) == nearest_key(b),
{
    lemma_nearest_key_is_least(a);
    lemma_nearest_key_is_least(b);
    assert forall|x: Option<u64>| a.contains(x) <==> b.contains(x) by {
        a.to_multiset_ensures();
        b.to_multiset_ensures();
        assert(a.contains(x) <==> a.to_multiset().count(x) > 0);
        assert(b.contains(x) <==> b.to_multiset().count(x) > 0);
    }
    if nearest_key(a) is None {
        assert forall|i: int| 0 <= i < b.len() implies b[i] is None by {
            assert(b.contains(b[i]));
            assert(a.contains(b[i]));
        }
    } else if nearest_key(b) is None {
        assert forall|i: int| 0 <= i < a.len() implies a[i] is None by {
            assert(a.contains(a[i]));
            assert(b.contains(a[i]));
        }
    } else {
        let ka = nearest_key(a);
        let kb = nearest_key(b);
        assert(b.contains(ka));
        assert(a.contains(kb));
        let i = choose|i: int| 0 <= i < b.len() && b[i] == ka;
        let j = choose|j: int| 0 <= j < a.len() && a[j] == kb;
        assert(kb->0 <= b[i]->0);
        assert(ka->0 <= a[j]->0);
    }
}

/// Picks the object hit nearest along a ray. `keys[i]` is `None` when object `i`
/// was missed, else a key that orders hits by distance (smaller is nearer).
/// Among equally near hits the one scanned last wins.
pub fn nearest_hit(keys: &Vec<Option<u64>>) -> (r: Option<usize>)
    ensures
        r is None <==> nearest_key(keys@) is None,
        r matches Some(i) ==> i < keys@.len() && keys@[i as int] == nearest_key(keys@) && (
        forall|j: int| i < j < keys@.len() ==> keys@[j] != keys@[i as int]),
{
    let n = keys.len();
    let mut best: Option<usize> = None;
    let mut best_key: u64 = 0;
    let mut k: usize = 0;
    while k < n
        invariant
            n == keys@.len(),
            k <= n,
            best is None <==> nearest_key(keys@.take(k as int)) is None,
            best matches Some(i) ==> i < k && keys@[i as int] == Some(best_key) && nearest_key(
                keys@.take(k as int),
            ) == Some(best_key) && (forall|j: int| i < j < k ==> keys@[j] != Some(best_key)),
        decreases n - k,
    {
        proof {
            let s = keys@.take(k + 1);
            assert(s.drop_last() =~= keys@.take(k as int));
            assert(s.last() == keys@[k as int]);
        }
        match keys[k] {
            Some(key) => {
                let closer = match best {
                    None => true,
                    Some(_) => key <= best_key,
                };
                if closer {
                    best = Some(k);
                    best_key = key;
                }
            },
            None => {},
        }
        k = k + 1;
    }
    assert(keys@.take(n as int) =~= keys@);
    best
}

} // verus!
