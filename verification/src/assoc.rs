//! Association lists: lists of pairs whose keys occur once, and the maps they stand for.
use vstd::prelude::*;

verus! {

/// The map that a list of pairs with distinct keys stands for.
pub open spec fn assoc<K, V>(s: Seq<(K, V)>) -> Map<K, V>
    decreases s.len(),
{
    if s.len() == 0 {
        Map::empty()
    } else {
        assoc(s.drop_last()).insert(s.last().0, s.last().1)
    }
}

/// The keys of a list of pairs, in order.
pub open spec fn assoc_keys<K, V>(s: Seq<(K, V)>) -> Seq<K> {
    s.map_values(|p: (K, V)| p.0)
}

/// A key is in the map when it is in the list, and maps to the value paired with it.
pub proof fn lemma_assoc_contains<K, V>(s: Seq<(K, V)>, k: K)
    requires
        assoc_keys(s).no_duplicates(),
    ensures
        assoc(s).contains_key(k) <==> assoc_keys(s).contains(k),
        forall|i: int| 0 <= i < s.len() && s[i].0 == k ==> assoc(s)[k] == #[trigger] s[i].1,
    decreases s.len(),
{
    if s.len() > 0 {
        let t = s.drop_last();
        assert(assoc_keys(t) =~= assoc_keys(s).drop_last());
        assert(assoc_keys(s) =~= assoc_keys(t).push(s.last().0));
        assert(assoc_keys(t).no_duplicates()) by {
            assert forall|a: int, b: int| 0 <= a < b < assoc_keys(t).len() implies assoc_keys(t)[a] != assoc_keys(
                t,
            )[b] by {
                assert(assoc_keys(t)[a] == assoc_keys(s)[a]);
                assert(assoc_keys(t)[b] == assoc_keys(s)[b]);
            }
        }
        lemma_assoc_contains(t, k);
        assert(assoc_keys(s).last() == s.last().0);
        if assoc_keys(t).contains(k) {
            let j = choose|j: int| 0 <= j < assoc_keys(t).len() && assoc_keys(t)[j] == k;
            assert(assoc_keys(s)[j] == k);
        }
        if assoc_keys(s).contains(k) && k != s.last().0 {
            let j = choose|j: int| 0 <= j < assoc_keys(s).len() && assoc_keys(s)[j] == k;
            assert(j != s.len() - 1);
            assert(assoc_keys(t)[j] == k);
        }
        assert forall|i: int| 0 <= i < s.len() && s[i].0 == k implies assoc(s)[k] == #[trigger] s[i].1 by {
            if i < s.len() - 1 {
                assert(assoc_keys(s)[i] == assoc_keys(s)[s.len() - 1] ==> i == s.len() - 1);
                assert(t[i] == s[i]);
            }
        }
    }
}

/// Replacing the value at a position keeps the keys and updates the map.
pub proof fn lemma_assoc_update<K, V>(s: Seq<(K, V)>, i: int, v: V)
    requires
        assoc_keys(s).no_duplicates(),
        0 <= i < s.len(),
    ensures
        assoc_keys(s.update(i, (s[i].0, v))) == assoc_keys(s),
        assoc(s.update(i, (s[i].0, v))) == assoc(s).insert(s[i].0, v),
{
    let k = s[i].0;
    let t = s.update(i, (k, v));
    assert(assoc_keys(t) =~= assoc_keys(s));
    assert forall|x: K| assoc(t).contains_key(x) <==> assoc(s).insert(k, v).contains_key(x) by {
        lemma_assoc_contains(s, x);
        lemma_assoc_contains(t, x);
        assert(assoc_keys(s)[i] == k);
    }
    assert forall|x: K| assoc(t).contains_key(x) implies assoc(t)[x] == assoc(s).insert(k, v)[x] by {
        lemma_assoc_contains(s, x);
        lemma_assoc_contains(t, x);
        let j = choose|j: int| 0 <= j < assoc_keys(t).len() && assoc_keys(t)[j] == x;
        assert(t[j].0 == x);
        assert(assoc(t)[x] == t[j].1);
        if x != k {
            assert(t[j] == s[j]);
            assert(assoc(s)[x] == s[j].1);
        } else {
            assert(assoc_keys(s)[j] == assoc_keys(s)[i]);
            assert(t[i].1 == v);
        }
    }
    assert(assoc(t) =~= assoc(s).insert(k, v));
}

/// Taking out the pair at a position takes its key out of the map.
pub proof fn lemma_assoc_remove<K, V>(s: Seq<(K, V)>, i: int)
    requires
        assoc_keys(s).no_duplicates(),
        0 <= i < s.len(),
    ensures
        assoc_keys(s.remove(i)).no_duplicates(),
        assoc(s.remove(i)) == assoc(s).remove(s[i].0),
{
    let k = s[i].0;
    let t = s.remove(i);
    let ks = assoc_keys(s);
    assert(assoc_keys(t) =~= ks.remove(i));
    assert forall|a: int, b: int| 0 <= a < b < assoc_keys(t).len() implies assoc_keys(t)[a] != assoc_keys(t)[b] by {
        let a2 = if a < i { a } else { a + 1 };
        let b2 = if b < i { b } else { b + 1 };
        assert(assoc_keys(t)[a] == ks[a2]);
        assert(assoc_keys(t)[b] == ks[b2]);
    }
    assert forall|x: K| assoc(t).contains_key(x) <==> assoc(s).remove(k).contains_key(x) by {
        lemma_assoc_contains(s, x);
        lemma_assoc_contains(t, x);
        if assoc_keys(t).contains(x) {
            let j = choose|j: int| 0 <= j < assoc_keys(t).len() && assoc_keys(t)[j] == x;
            let j2 = if j < i { j } else { j + 1 };
            assert(ks[j2] == x);
            assert(j2 != i);
            assert(ks[j2] != ks[i]);
        }
        if assoc_keys(s).contains(x) && x != k {
            let j = choose|j: int| 0 <= j < ks.len() && ks[j] == x;
            assert(j != i);
            if j < i {
                assert(assoc_keys(t)[j] == x);
            } else {
                assert(assoc_keys(t)[j - 1] == x);
            }
        }
    }
    assert forall|x: K| assoc(t).contains_key(x) implies assoc(t)[x] == assoc(s)[x] by {
        lemma_assoc_contains(s, x);
        lemma_assoc_contains(t, x);
        let j = choose|j: int| 0 <= j < assoc_keys(t).len() && assoc_keys(t)[j] == x;
        let j2 = if j < i { j } else { j + 1 };
        assert(t[j] == s[j2]);
        assert(assoc(t)[x] == t[j].1);
        assert(assoc(s)[x] == s[j2].1);
    }
    assert(assoc(t) =~= assoc(s).remove(k));
}

/// Adding a pair with a new key adds it to the map.
pub proof fn lemma_assoc_push<K, V>(s: Seq<(K, V)>, k: K, v: V)
    requires
        assoc_keys(s).no_duplicates(),
        !assoc(s).contains_key(k),
    ensures
        assoc_keys(s.push((k, v))).no_duplicates(),
        assoc(s.push((k, v))) == assoc(s).insert(k, v),
{
    lemma_assoc_contains(s, k);
    let t = s.push((k, v));
    assert(t.drop_last() =~= s);
    assert(assoc_keys(t) =~= assoc_keys(s).push(k));
    assert forall|a: int, b: int| 0 <= a < b < assoc_keys(t).len() implies assoc_keys(t)[a] != assoc_keys(t)[b] by {
        if b == assoc_keys(t).len() - 1 {
            assert(assoc_keys(s)[a] == assoc_keys(t)[a]);
        } else {
            assert(assoc_keys(s)[a] == assoc_keys(t)[a]);
            assert(assoc_keys(s)[b] == assoc_keys(t)[b]);
        }
    }
}

} // verus!
