//! Association lists keyed by session id, with unique keys: the backing
//! store for the scheduler's registry and activity tracker.

use vstd::prelude::*;

verus! {

/// The value stored under key `k`, scanning from the front.
pub open spec fn assoc_lookup<T>(s: Seq<(i64, T)>, k: i64) -> Option<T>
    decreases s.len(),
{
    if s.len() == 0 {
        None
    } else if s[0].0 == k {
        Some(s[0].1)
    } else {
        assoc_lookup(s.drop_first(), k)
    }
}

/// No two entries share a key.
pub open spec fn keys_unique<T>(s: Seq<(i64, T)>) -> bool {
    forall|p: int, q: int| 0 <= p < q < s.len() ==> (#[trigger] s[p]).0 != (#[trigger] s[q]).0
}

/// With unique keys, the entry at `i` is what lookup finds for its key.
pub proof fn lemma_lookup_present<T>(s: Seq<(i64, T)>, i: int)
    requires
        keys_unique(s),
        0 <= i < s.len(),
    ensures
        assoc_lookup(s, s[i].0) == Some(s[i].1),
    decreases s.len(),
{
    if i > 0 {
        assert(s[0].0 != s[i].0);
        let t = s.drop_first();
        assert(keys_unique(t)) by {
            assert(forall|p: int, q: int|
                0 <= p < q < t.len() ==> (#[trigger] t[p]).0 != (#[trigger] t[q]).0) by {
                assert(forall|p: int| 0 <= p < t.len() ==> t[p] == s[p + 1]);
            }
        }
        lemma_lookup_present(t, i - 1);
    }
}

/// A key under which nothing is stored is not found.
pub proof fn lemma_lookup_absent<T>(s: Seq<(i64, T)>, k: i64)
    requires
        forall|j: int| 0 <= j < s.len() ==> (#[trigger] s[j]).0 != k,
    ensures
        assoc_lookup(s, k) is None,
    decreases s.len(),
{
    if s.len() > 0 {
        let t = s.drop_first();
        assert(forall|j: int| 0 <= j < t.len() ==> (#[trigger] t[j]).0 != k) by {
            assert(forall|j: int| 0 <= j < t.len() ==> t[j] == s[j + 1]);
        }
        lemma_lookup_absent(t, k);
    }
}

/// Looking something up means some entry holds it.
pub proof fn lemma_lookup_some_index<T>(s: Seq<(i64, T)>, k: i64) -> (i: int)
    requires
        assoc_lookup(s, k) is Some,
    ensures
        0 <= i < s.len(),
        s[i].0 == k,
        s[i].1 == assoc_lookup(s, k)->Some_0,
    decreases s.len(),
{
    if s[0].0 == k {
        0
    } else {
        let j = lemma_lookup_some_index(s.drop_first(), k);
        j + 1
    }
}

/// Removing the entry at `i` removes exactly its key from the map.
pub proof fn lemma_lookup_remove<T>(s: Seq<(i64, T)>, i: int, k: i64)
    requires
        keys_unique(s),
        0 <= i < s.len(),
    ensures
        assoc_lookup(s.remove(i), k) == if k == s[i].0 {
            None::<T>
        } else {
            assoc_lookup(s, k)
        },
    decreases s.len(),
{
    let r = s.remove(i);
    if i == 0 {
        assert(r =~= s.drop_first());
        if k == s[0].0 {
            assert(forall|j: int| 0 <= j < r.len() ==> (#[trigger] r[j]).0 != k) by {
                assert(forall|j: int| 0 <= j < r.len() ==> r[j] == s[j + 1]);
            }
            lemma_lookup_absent(r, k);
        }
    } else {
        let t = s.drop_first();
        assert(keys_unique(t)) by {
            assert(forall|p: int| 0 <= p < t.len() ==> t[p] == s[p + 1]);
        }
        lemma_lookup_remove(t, i - 1, k);
        assert(r.drop_first() =~= t.remove(i - 1));
    }
}

/// Appending a fresh key leaves every other lookup unchanged and makes the
/// new key map to the new value.
pub proof fn lemma_lookup_push<T>(s: Seq<(i64, T)>, k: i64, x: T, k2: i64)
    requires
        forall|j: int| 0 <= j < s.len() ==> (#[trigger] s[j]).0 != k,
    ensures
        assoc_lookup(s.push((k, x)), k2) == if k2 == k {
            Some(x)
        } else {
            assoc_lookup(s, k2)
        },
    decreases s.len(),
{
    let r = s.push((k, x));
    if s.len() == 0 {
        assert(r.len() == 1);
        assert(r[0] == (k, x));
        if k2 != k {
            assert(r.drop_first() =~= Seq::<(i64, T)>::empty());
            assert(assoc_lookup(Seq::<(i64, T)>::empty(), k2) is None);
        }
    } else {
        assert(r[0] == s[0]);
        let t = s.drop_first();
        assert(forall|j: int| 0 <= j < t.len() ==> (#[trigger] t[j]).0 != k) by {
            assert(forall|j: int| 0 <= j < t.len() ==> t[j] == s[j + 1]);
        }
        lemma_lookup_push(t, k, x, k2);
        assert(r.drop_first() =~= t.push((k, x)));
    }
}

/// Uniqueness survives removal.
pub proof fn lemma_unique_remove<T>(s: Seq<(i64, T)>, i: int)
    requires
        keys_unique(s),
        0 <= i < s.len(),
    ensures
        keys_unique(s.remove(i)),
{
    let r = s.remove(i);
    assert(forall|p: int, q: int| 0 <= p < q < r.len() ==> (#[trigger] r[p]).0 != (#[trigger] r[q]).0)
        by {
        assert(forall|p: int|
            0 <= p < r.len() ==> r[p] == if p < i {
                s[p]
            } else {
                s[p + 1]
            });
    }
}

/// Uniqueness survives appending a fresh key.
pub proof fn lemma_unique_push<T>(s: Seq<(i64, T)>, k: i64, x: T)
    requires
        keys_unique(s),
        forall|j: int| 0 <= j < s.len() ==> (#[trigger] s[j]).0 != k,
    ensures
        keys_unique(s.push((k, x))),
{
    let r = s.push((k, x));
    assert(forall|p: int, q: int| 0 <= p < q < r.len() ==> (#[trigger] r[p]).0 != (#[trigger] r[q]).0)
        by {
        assert(forall|p: int| 0 <= p < s.len() ==> r[p] == s[p]);
        assert(r[s.len() as int] == (k, x));
    }
}

/// Find the index of the entry with key `k`, if any.
pub fn find_key<T>(v: &Vec<(i64, T)>, k: i64) -> (r: Option<usize>)
    ensures
        match r {
            Some(i) => i < v@.len() && v@[i as int].0 == k,
            None => forall|j: int| 0 <= j < v@.len() ==> (#[trigger] v@[j]).0 != k,
        },
{
    let mut i: usize = 0;
    while i < v.len()
        invariant
            i <= v@.len(),
            forall|j: int| 0 <= j < i ==> (#[trigger] v@[j]).0 != k,
        decreases v@.len() - i,
    {
        if v[i].0 == k {
            return Some(i);
        }
        i = i + 1;
    }
    None
}

} // verus!
