//! The mapping denoted by a sequence of key-value entries, and how it
//! changes when an entry is appended, overwritten or removed. The store
//! keeps its two mappings as entry sequences; these lemmas carry every
//! operation on the entries over to the mapping it denotes.

use vstd::prelude::*;

verus! {

/// The mapping that a sequence of key-value entries denotes. A later entry
/// would shadow an earlier one with the same key; the store keeps at most
/// one entry per key, so nothing is ever shadowed.
pub open spec fn map_of<K, V>(s: Seq<(K, V)>) -> Map<K, V>
    decreases s.len(),
{
    if s.len() == 0 {
        Map::empty()
    } else {
        map_of(s.drop_last()).insert(s.last().0, s.last().1)
    }
}

/// Each key appears in at most one entry.
pub open spec fn distinct_keys<K, V>(s: Seq<(K, V)>) -> bool {
    forall|i: int, j: int| 0 <= i < j < s.len() ==> s[i].0 != s[j].0
}

/// A key is in the denoted mapping exactly when some entry carries it.
pub proof fn lemma_map_of_contains<K, V>(s: Seq<(K, V)>, k: K)
    ensures
        map_of(s).contains_key(k) <==> exists|i: int| 0 <= i < s.len() && s[i].0 == k,
    decreases s.len(),
{
    if s.len() > 0 {
        let dl = s.drop_last();
        lemma_map_of_contains(dl, k);
        if s.last().0 == k {
            assert(s[s.len() - 1].0 == k);
        } else {
            if map_of(s).contains_key(k) {
                let i = choose|i: int| 0 <= i < dl.len() && dl[i].0 == k;
                assert(s[i].0 == k);
            }
            if exists|i: int| 0 <= i < s.len() && s[i].0 == k {
                let i = choose|i: int| 0 <= i < s.len() && s[i].0 == k;
                assert(i < s.len() - 1);
                assert(dl[i].0 == k);
            }
        }
    }
}

/// With distinct keys, the entry at any position gives the mapping's value
/// at its key.
pub proof fn lemma_map_of_index<K, V>(s: Seq<(K, V)>, i: int)
    requires
        distinct_keys(s),
        0 <= i < s.len(),
    ensures
        map_of(s).contains_key(s[i].0),
        map_of(s)[s[i].0] == s[i].1,
    decreases s.len(),
{
    let dl = s.drop_last();
    if i == s.len() - 1 {
    } else {
        assert(distinct_keys(dl));
        lemma_map_of_index(dl, i);
        assert(s[i].0 != s.last().0);
    }
}

/// Appending an entry inserts its pair into the denoted mapping.
pub proof fn lemma_map_of_push<K, V>(s: Seq<(K, V)>, k: K, v: V)
    ensures
        map_of(s.push((k, v))) == map_of(s).insert(k, v),
{
    assert(s.push((k, v)).drop_last() =~= s);
    assert(s.push((k, v)).last() == (k, v));
}

/// Appending an entry whose key no other entry carries keeps the keys
/// distinct.
pub proof fn lemma_distinct_push<K, V>(s: Seq<(K, V)>, k: K, v: V)
    requires
        distinct_keys(s),
        forall|i: int| 0 <= i < s.len() ==> s[i].0 != k,
    ensures
        distinct_keys(s.push((k, v))),
{
    let t = s.push((k, v));
    assert forall|i: int, j: int| 0 <= i < j < t.len() implies t[i].0 != t[j].0 by {
        if j < s.len() {
            assert(t[i] == s[i] && t[j] == s[j]);
        } else {
            assert(t[i] == s[i] && t[j] == (k, v));
        }
    }
}

/// Overwriting the value of the entry at a position inserts the new value
/// at that entry's key, and keeps the keys distinct.
pub proof fn lemma_map_of_update<K, V>(s: Seq<(K, V)>, i: int, v: V)
    requires
        distinct_keys(s),
        0 <= i < s.len(),
    ensures
        map_of(s.update(i, (s[i].0, v))) == map_of(s).insert(s[i].0, v),
        distinct_keys(s.update(i, (s[i].0, v))),
    decreases s.len(),
{
    let t = s.update(i, (s[i].0, v));
    assert forall|a: int, b: int| 0 <= a < b < t.len() implies t[a].0 != t[b].0 by {
        assert(t[a].0 == s[a].0 && t[b].0 == s[b].0);
    }
    let dl = s.drop_last();
    if i == s.len() - 1 {
        assert(t.drop_last() =~= dl);
        assert(t.last() == (s[i].0, v));
        assert(map_of(s).insert(s[i].0, v) =~= map_of(dl).insert(s[i].0, v));
    } else {
        assert(distinct_keys(dl));
        lemma_map_of_update(dl, i, v);
        assert(t.drop_last() =~= dl.update(i, (s[i].0, v)));
        assert(dl[i] == s[i]);
        assert(t.last() == s.last());
        assert(s[i].0 != s.last().0);
        assert(map_of(dl).insert(s[i].0, v).insert(s.last().0, s.last().1) =~= map_of(
            dl,
        ).insert(s.last().0, s.last().1).insert(s[i].0, v));
    }
}

/// Removing the entry at a position removes its key from the denoted
/// mapping, and keeps the keys distinct.
pub proof fn lemma_map_of_remove<K, V>(s: Seq<(K, V)>, i: int)
    requires
        distinct_keys(s),
        0 <= i < s.len(),
    ensures
        map_of(s.remove(i)) == map_of(s).remove(s[i].0),
        distinct_keys(s.remove(i)),
    decreases s.len(),
{
    let t = s.remove(i);
    assert forall|a: int, b: int| 0 <= a < b < t.len() implies t[a].0 != t[b].0 by {
        let a2 = if a < i { a } else { a + 1 };
        let b2 = if b < i { b } else { b + 1 };
        assert(t[a] == s[a2] && t[b] == s[b2]);
    }
    let dl = s.drop_last();
    if i == s.len() - 1 {
        assert(t =~= dl);
        lemma_map_of_contains(dl, s[i].0);
        assert(forall|j: int| 0 <= j < dl.len() ==> dl[j].0 != s[i].0);
        assert(!map_of(dl).contains_key(s[i].0));
        assert(map_of(s).remove(s[i].0) =~= map_of(dl));
    } else {
        assert(distinct_keys(dl));
        lemma_map_of_remove(dl, i);
        assert(t.drop_last() =~= dl.remove(i));
        assert(dl[i] == s[i]);
        assert(t.last() == s.last());
        assert(s[i].0 != s.last().0);
        assert(map_of(dl).remove(s[i].0).insert(s.last().0, s.last().1) =~= map_of(
            dl,
        ).insert(s.last().0, s.last().1).remove(s[i].0));
    }
}

} // verus!
