//! Tables kept as sequences of key/value pairs in which no key occurs twice,
//! seen as maps.

use vstd::prelude::*;

verus! {

/// No key occurs twice among the pairs.
pub open spec fn keys_distinct<K, V>(s: Seq<(K, V)>) -> bool {
    forall|i: int, j: int| 0 <= i < s.len() && 0 <= j < s.len() && i != j ==> s[i].0 != s[j].0
}

/// Some pair has key `k`.
pub open spec fn has_key<K, V>(s: Seq<(K, V)>, k: K) -> bool {
    exists|i: int| 0 <= i < s.len() && s[i].0 == k
}

/// The map that the pairs stand for.
pub open spec fn keyed_map<K, V>(s: Seq<(K, V)>) -> Map<K, V> {
    Map::new(
        |k: K| has_key(s, k),
        |k: K| s[choose|i: int| 0 <= i < s.len() && s[i].0 == k].1,
    )
}

/// The pair at `i` is found under its key.
pub proof fn lemma_keyed_index<K, V>(s: Seq<(K, V)>, i: int)
    requires
        keys_distinct(s),
        0 <= i < s.len(),
    ensures
        keyed_map(s).contains_key(s[i].0),
        keyed_map(s)[s[i].0] == s[i].1,
{
    let k = s[i].0;
    assert(has_key(s, k));
    let j = choose|j: int| 0 <= j < s.len() && s[j].0 == k;
    assert(j == i);
}

/// A key that no pair has is not in the map.
pub proof fn lemma_keyed_absent<K, V>(s: Seq<(K, V)>, k: K)
    requires
        forall|i: int| 0 <= i < s.len() ==> s[i].0 != k,
    ensures
        !keyed_map(s).contains_key(k),
{
}

/// Appending a pair under a new key inserts it into the map.
pub proof fn lemma_keyed_push<K, V>(s: Seq<(K, V)>, k: K, v: V)
    requires
        keys_distinct(s),
        forall|i: int| 0 <= i < s.len() ==> s[i].0 != k,
    ensures
        keys_distinct(s.push((k, v))),
        keyed_map(s.push((k, v))) == keyed_map(s).insert(k, v),
{
    let t = s.push((k, v));
    assert(keys_distinct(t));
    assert forall|x: K| #[trigger] keyed_map(t).contains_key(x) == keyed_map(s).insert(k, v).contains_key(x) by {
        if has_key(s, x) {
            let i = choose|i: int| 0 <= i < s.len() && s[i].0 == x;
            assert(t[i].0 == x);
        }
        if x == k {
            assert(t[s.len() as int].0 == k);
        }
    }
    assert forall|x: K| #[trigger] keyed_map(t).contains_key(x) implies keyed_map(t)[x] == keyed_map(s).insert(k, v)[x] by {
        let j = choose|j: int| 0 <= j < t.len() && t[j].0 == x;
        lemma_keyed_index(t, j);
        if j < s.len() {
            lemma_keyed_index(s, j);
        }
    }
    assert(keyed_map(t) =~= keyed_map(s).insert(k, v));
}

/// Replacing the value of the pair at `i` inserts the new value under its key.
pub proof fn lemma_keyed_update<K, V>(s: Seq<(K, V)>, i: int, v: V)
    requires
        keys_distinct(s),
        0 <= i < s.len(),
    ensures
        keys_distinct(s.update(i, (s[i].0, v))),
        keyed_map(s.update(i, (s[i].0, v))) == keyed_map(s).insert(s[i].0, v),
{
    let k = s[i].0;
    let t = s.update(i, (k, v));
    assert(keys_distinct(t));
    assert forall|x: K| #[trigger] keyed_map(t).contains_key(x) == keyed_map(s).insert(k, v).contains_key(x) by {
        if has_key(s, x) {
            let j = choose|j: int| 0 <= j < s.len() && s[j].0 == x;
            assert(t[j].0 == x);
        }
        if has_key(t, x) {
            let j = choose|j: int| 0 <= j < t.len() && t[j].0 == x;
            assert(s[j].0 == x);
        }
        if x == k {
            assert(t[i].0 == k);
        }
    }
    assert forall|x: K| #[trigger] keyed_map(t).contains_key(x) implies keyed_map(t)[x] == keyed_map(s).insert(k, v)[x] by {
        let j = choose|j: int| 0 <= j < t.len() && t[j].0 == x;
        lemma_keyed_index(t, j);
        if j != i {
            lemma_keyed_index(s, j);
        }
    }
    assert(keyed_map(t) =~= keyed_map(s).insert(k, v));
}

/// Taking out the pair at `i` removes its key from the map.
pub proof fn lemma_keyed_remove<K, V>(s: Seq<(K, V)>, i: int)
    requires
        keys_distinct(s),
        0 <= i < s.len(),
    ensures
        keys_distinct(s.remove(i)),
        keyed_map(s.remove(i)) == keyed_map(s).remove(s[i].0),
{
    let k = s[i].0;
    let t = s.remove(i);
    assert forall|a: int, b: int| 0 <= a < t.len() && 0 <= b < t.len() && a != b implies t[a].0 != t[b].0 by {
        let a2 = if a < i { a } else { a + 1 };
        let b2 = if b < i { b } else { b + 1 };
        assert(t[a] == s[a2]);
        assert(t[b] == s[b2]);
    }
    assert forall|x: K| #[trigger] keyed_map(t).contains_key(x) == keyed_map(s).remove(k).contains_key(x) by {
        if has_key(s, x) && x != k {
            let j = choose|j: int| 0 <= j < s.len() && s[j].0 == x;
            assert(j != i);
            if j < i {
                assert(t[j].0 == x);
            } else {
                assert(t[j - 1].0 == x);
            }
        }
        if has_key(t, x) {
            let j = choose|j: int| 0 <= j < t.len() && t[j].0 == x;
            let j2 = if j < i { j } else { j + 1 };
            assert(s[j2].0 == x);
            assert(j2 != i);
        }
    }
    assert forall|x: K| #[trigger] keyed_map(t).contains_key(x) implies keyed_map(t)[x] == keyed_map(s).remove(k)[x] by {
        let j = choose|j: int| 0 <= j < t.len() && t[j].0 == x;
        lemma_keyed_index(t, j);
        let j2 = if j < i { j } else { j + 1 };
        assert(s[j2] == t[j]);
        lemma_keyed_index(s, j2);
    }
    assert(keyed_map(t) =~= keyed_map(s).remove(k));
}


/// The position of the first pair whose key is `key`, if any.
pub fn find_key<V>(entries: &Vec<(String, V)>, key: &String) -> (res: Option<usize>)
    ensures
        match res {
            Some(i) => i < entries@.len() && entries@[i as int].0@ == key@
                && forall|j: int| 0 <= j < i ==> entries@[j].0@ != key@,
            None => forall|j: int| 0 <= j < entries@.len() ==> entries@[j].0@ != key@,
        },
{
    let mut i: usize = 0;
    while i < entries.len()
        invariant
            i <= entries@.len(),
            forall|j: int| 0 <= j < i ==> entries@[j].0@ != key@,
        decreases entries@.len() - i,
    {
        if entries[i].0 == *key {
            return Some(i);
        }
        i = i + 1;
    }
    None
}

} // verus!
