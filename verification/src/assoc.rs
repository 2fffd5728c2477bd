//! Association sequences as maps.
//!
//! The store keeps each of its relations as a vector of key-value
//! pairs with pairwise-distinct keys. This module gives such a
//! sequence its mathematical reading — the [`Map`] it denotes — and
//! proves how lookups, in-place updates and insertions of fresh keys
//! act on that map.

use vstd::prelude::*;

use vstd::set::axiom_set_insert_len;

verus! {

/// The map denoted by a sequence of key-value pairs (with
/// [`distinct_keys`], each key names exactly one entry).
pub open spec fn entries_map<K, V>(s: Seq<(K, V)>) -> Map<K, V>
    decreases s.len(),
{
    if s.len() == 0 {
        Map::empty()
    } else {
        entries_map(s.drop_last()).insert(s.last().0, s.last().1)
    }
}

/// No two entries share a key.
pub open spec fn distinct_keys<K, V>(s: Seq<(K, V)>) -> bool {
    forall|i: int, j: int| 0 <= i < j < s.len() ==> s[i].0 != s[j].0
}

/// A key is in the map exactly when some entry carries it.
pub proof fn lemma_entries_contains<K, V>(s: Seq<(K, V)>, k: K)
    ensures
        entries_map(s).contains_key(k) <==> exists|i: int| 0 <= i < s.len() && s[i].0 == k,
    decreases s.len(),
{
    if s.len() > 0 {
        lemma_entries_contains(s.drop_last(), k);
        if s.last().0 == k {
            assert(s[s.len() - 1].0 == k);
        } else if exists|i: int| 0 <= i < s.len() && s[i].0 == k {
            let i = choose|i: int| 0 <= i < s.len() && s[i].0 == k;
            assert(s.drop_last()[i].0 == k);
        }
    }
}

/// Each entry of a distinct-keyed sequence is the map's value at its
/// key.
pub proof fn lemma_entries_at<K, V>(s: Seq<(K, V)>, i: int)
    requires
        distinct_keys(s),
        0 <= i < s.len(),
    ensures
        entries_map(s).contains_key(s[i].0),
        entries_map(s)[s[i].0] == s[i].1,
    decreases s.len(),
{
    if i < s.len() - 1 {
        assert(s[i].0 != s.last().0);
        assert(s.drop_last()[i] == s[i]);
        lemma_entries_at(s.drop_last(), i);
    }
}

/// Replacing the value of entry `i` in place is a map insert at its
/// key, and keeps the keys distinct.
pub proof fn lemma_entries_update<K, V>(s: Seq<(K, V)>, i: int, v: V)
    requires
        distinct_keys(s),
        0 <= i < s.len(),
    ensures
        entries_map(s.update(i, (s[i].0, v))) == entries_map(s).insert(s[i].0, v),
        distinct_keys(s.update(i, (s[i].0, v))),
    decreases s.len(),
{
    let k = s[i].0;
    let t = s.update(i, (k, v));
    assert forall|a: int, b: int| 0 <= a < b < t.len() implies t[a].0 != t[b].0 by {
        assert(t[a].0 == s[a].0 && t[b].0 == s[b].0);
    }
    if i == s.len() - 1 {
        assert(t.drop_last() =~= s.drop_last());
        assert(entries_map(t) =~= entries_map(s).insert(k, v));
    } else {
        assert(t.drop_last() =~= s.drop_last().update(i, (k, v)));
        assert(s.drop_last()[i] == s[i]);
        lemma_entries_update(s.drop_last(), i, v);
        assert(k != s.last().0);
        assert(entries_map(t) =~= entries_map(s).insert(k, v));
    }
}

/// Appending an entry with a key no other entry carries is a map
/// insert, and keeps the keys distinct.
pub proof fn lemma_entries_push<K, V>(s: Seq<(K, V)>, k: K, v: V)
    requires
        forall|i: int| 0 <= i < s.len() ==> s[i].0 != k,
        distinct_keys(s),
    ensures
        entries_map(s.push((k, v))) == entries_map(s).insert(k, v),
        distinct_keys(s.push((k, v))),
{
    assert(s.push((k, v)).drop_last() =~= s);
    let t = s.push((k, v));
    assert forall|a: int, b: int| 0 <= a < b < t.len() implies t[a].0 != t[b].0 by {
        if b < t.len() - 1 {
            assert(t[a].0 == s[a].0 && t[b].0 == s[b].0);
        } else {
            assert(t[a].0 == s[a].0 && t[b].0 == k);
        }
    }
}

/// A distinct-keyed sequence denotes a finite map with one key per
/// entry.
pub proof fn lemma_entries_dom_len<K, V>(s: Seq<(K, V)>)
    requires
        distinct_keys(s),
    ensures
        entries_map(s).dom().finite(),
        entries_map(s).dom().len() == s.len(),
    decreases s.len(),
{
    if s.len() > 0 {
        let d = s.drop_last();
        lemma_entries_dom_len(d);
        lemma_entries_contains(d, s.last().0);
        assert(forall|i: int| 0 <= i < d.len() ==> d[i] == s[i]);
        assert(!entries_map(d).contains_key(s.last().0));
        axiom_set_insert_len(entries_map(d).dom(), s.last().0);
        assert(entries_map(s).dom() =~= entries_map(d).dom().insert(s.last().0));
    }
}

} // verus!
