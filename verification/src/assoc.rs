//! Association lists: sequences of key/value pairs with distinct keys, read
//! as finite maps.

use vstd::prelude::*;

verus! {

/// Whether some pair of `s` has the key `k`.
pub open spec fn has_key<K, V>(s: Seq<(K, V)>, k: K) -> bool {
    exists|i: int| 0 <= i < s.len() && (#[trigger] s[i]).0 == k
}

/// The position of a pair with the key `k`, where there is one.
pub open spec fn key_index<K, V>(s: Seq<(K, V)>, k: K) -> int {
    choose|i: int| 0 <= i < s.len() && (#[trigger] s[i]).0 == k
}

/// No key occurs twice.
pub open spec fn distinct_keys<K, V>(s: Seq<(K, V)>) -> bool {
    forall|i: int, j: int| 0 <= i < j < s.len() ==> (#[trigger] s[i]).0 != (#[trigger] s[j]).0
}

/// The map that sends each key of `s` to the value paired with it.
pub open spec fn as_map<K, V>(s: Seq<(K, V)>) -> Map<K, V> {
    Map::new(|k: K| has_key(s, k), |k: K| s[key_index(s, k)].1)
}

/// With distinct keys, the pair at position `i` is the one its key leads to.
pub proof fn lemma_entry<K, V>(s: Seq<(K, V)>, i: int)
    requires
        distinct_keys(s),
        0 <= i < s.len(),
    ensures
        has_key(s, s[i].0),
        key_index(s, s[i].0) == i,
        as_map(s).contains_key(s[i].0),
        as_map(s)[s[i].0] == s[i].1,
{
    let k = s[i].0;
    assert(has_key(s, k));
    let j = key_index(s, k);
    assert(0 <= j < s.len() && s[j].0 == k);
    if j < i {
        assert(s[j].0 != s[i].0);
    }
    if i < j {
        assert(s[i].0 != s[j].0);
    }
}

/// A key that leads somewhere leads to a pair that carries it.
pub proof fn lemma_lookup<K, V>(s: Seq<(K, V)>, k: K)
    requires
        has_key(s, k),
    ensures
        0 <= key_index(s, k) < s.len(),
        s[key_index(s, k)].0 == k,
        as_map(s).contains_key(k),
        as_map(s)[k] == s[key_index(s, k)].1,
{
}

/// The empty list is the empty map.
pub proof fn lemma_empty<K, V>()
    ensures
        distinct_keys(Seq::<(K, V)>::empty()),
        as_map(Seq::<(K, V)>::empty()) == Map::<K, V>::empty(),
{
    assert(as_map(Seq::<(K, V)>::empty()) =~= Map::<K, V>::empty());
}

/// Appending a pair with a new key inserts it into the map.
pub proof fn lemma_push<K, V>(s: Seq<(K, V)>, k: K, v: V)
    requires
        distinct_keys(s),
        !has_key(s, k),
    ensures
        distinct_keys(s.push((k, v))),
        as_map(s.push((k, v))) == as_map(s).insert(k, v),
{
    let t = s.push((k, v));
    assert forall|i: int, j: int| 0 <= i < j < t.len() implies (#[trigger] t[i]).0 != (
    #[trigger] t[j]).0 by {
        if j == s.len() {
            assert(s[i].0 != k);
        } else {
            assert(s[i].0 != s[j].0);
        }
    }
    assert forall|x: K| has_key(t, x) <==> (has_key(s, x) || x == k) by {
        if has_key(t, x) {
            let i = key_index(t, x);
            if i < s.len() {
                assert(s[i].0 == x);
            }
        }
        if has_key(s, x) {
            let i = key_index(s, x);
            assert(t[i].0 == x);
        }
        if x == k {
            assert(t[s.len() as int].0 == x);
        }
    }
    assert forall|x: K| has_key(t, x) implies as_map(t)[x] == as_map(s).insert(k, v)[x] by {
        let i = key_index(t, x);
        lemma_entry(t, i);
        if i < s.len() {
            assert(s[i].0 == x);
            lemma_entry(s, i);
        }
    }
    assert(as_map(t) =~= as_map(s).insert(k, v));
}

/// With distinct keys, the map has as many keys as the list has pairs.
pub proof fn lemma_size<K, V>(s: Seq<(K, V)>)
    requires
        distinct_keys(s),
    ensures
        as_map(s).dom().finite(),
        as_map(s).dom().len() == s.len(),
    decreases s.len(),
{
    if s.len() == 0 {
        assert(as_map(s).dom() =~= Set::empty());
    } else {
        let t = s.drop_last();
        let (k, v) = s.last();
        assert forall|i: int, j: int| 0 <= i < j < t.len() implies (#[trigger] t[i]).0 != (
        #[trigger] t[j]).0 by {
            assert(s[i].0 != s[j].0);
        }
        assert forall|i: int| 0 <= i < t.len() implies (#[trigger] t[i]).0 != k by {
            assert(s[i].0 != s[s.len() - 1].0);
        }
        lemma_size(t);
        lemma_push(t, k, v);
        assert(t.push((k, v)) =~= s);
        assert(as_map(s).dom() =~= as_map(t).dom().insert(k));
    }
}

/// Moving the last pair into position `i` and dropping the last position
/// removes the key that stood at `i` from the map.
pub proof fn lemma_swap_remove<K, V>(s: Seq<(K, V)>, i: int)
    requires
        distinct_keys(s),
        0 <= i < s.len(),
    ensures
        distinct_keys(s.update(i, s.last()).drop_last()),
        as_map(s.update(i, s.last()).drop_last()) == as_map(s).remove(s[i].0),
{
    let t = s.update(i, s.last()).drop_last();
    let last = s.len() - 1;
    let from = |j: int| if j == i { last } else { j };
    assert forall|j: int| 0 <= j < t.len() implies #[trigger] t[j] == s[from(j)] by {}
    assert forall|a: int, b: int| 0 <= a < b < t.len() implies (#[trigger] t[a]).0 != (
    #[trigger] t[b]).0 by {
        let fa = from(a);
        let fb = from(b);
        assert(t[a] == s[fa] && t[b] == s[fb]);
        if fa < fb {
            assert(s[fa].0 != s[fb].0);
        } else {
            assert(s[fb].0 != s[fa].0);
        }
    }
    assert forall|x: K| has_key(t, x) <==> (has_key(s, x) && x != s[i].0) by {
        if has_key(t, x) {
            let j = key_index(t, x);
            assert(t[j] == s[from(j)]);
            assert(s[from(j)].0 == x);
            if from(j) < i {
                assert(s[from(j)].0 != s[i].0);
            } else {
                assert(s[i].0 != s[from(j)].0);
            }
        }
        if has_key(s, x) && x != s[i].0 {
            let j = key_index(s, x);
            if j == last {
                assert(t[i] == s[from(i)]);
                assert(t[i].0 == x);
            } else {
                assert(t[j] == s[from(j)]);
                assert(t[j].0 == x);
            }
        }
    }
    assert forall|x: K| has_key(t, x) implies as_map(t)[x] == as_map(s).remove(s[i].0)[x] by {
        let j = key_index(t, x);
        lemma_entry(t, j);
        assert(t[j] == s[from(j)]);
        lemma_entry(s, from(j));
    }
    assert(as_map(t) =~= as_map(s).remove(s[i].0));
}

} // verus!
