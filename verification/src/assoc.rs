//! Association lists: a sequence of keyed entries read as a map, a later
//! entry standing for its key over an earlier one.

use vstd::prelude::*;

verus! {

/// The map an association list stands for.
pub open spec fn assoc<V>(s: Seq<(Seq<char>, V)>) -> Map<Seq<char>, V>
    decreases s.len(),
{
    if s.len() == 0 {
        Map::empty()
    } else {
        assoc(s.drop_last()).insert(s.last().0, s.last().1)
    }
}

/// No entry from `from` on has the key `k`.
pub open spec fn absent_from<V>(s: Seq<(Seq<char>, V)>, k: Seq<char>, from: int) -> bool {
    forall|j: int| from <= j < s.len() ==> (#[trigger] s[j]).0 != k
}

/// A key without entries is not in the map.
pub proof fn lemma_assoc_missing<V>(s: Seq<(Seq<char>, V)>, k: Seq<char>)
    requires
        absent_from(s, k, 0),
    ensures
        !assoc(s).contains_key(k),
    decreases s.len(),
{
    if s.len() > 0 {
        let t = s.drop_last();
        assert(absent_from(t, k, 0)) by {
            assert forall|j: int| 0 <= j < t.len() implies (#[trigger] t[j]).0 != k by {
                assert(t[j] == s[j]);
            }
        }
        lemma_assoc_missing(t, k);
        assert(s[s.len() - 1].0 != k);
    }
}

/// The last entry of a key is its value.
pub proof fn lemma_assoc_found<V>(s: Seq<(Seq<char>, V)>, k: Seq<char>, i: int)
    requires
        0 <= i < s.len(),
        s[i].0 == k,
        absent_from(s, k, i + 1),
    ensures
        assoc(s).contains_key(k),
        assoc(s)[k] == s[i].1,
    decreases s.len(),
{
    let t = s.drop_last();
    if i < s.len() - 1 {
        assert(absent_from(t, k, i + 1)) by {
            assert forall|j: int| i + 1 <= j < t.len() implies (#[trigger] t[j]).0 != k by {
                assert(t[j] == s[j]);
            }
        }
        lemma_assoc_found(t, k, i);
        assert(s[s.len() - 1].0 != k);
    }
}

/// Replacing the value of a key's last entry updates the map there.
pub proof fn lemma_assoc_update<V>(s: Seq<(Seq<char>, V)>, k: Seq<char>, i: int, v: V)
    requires
        0 <= i < s.len(),
        s[i].0 == k,
        absent_from(s, k, i + 1),
    ensures
        assoc(s.update(i, (k, v))) == assoc(s).insert(k, v),
    decreases s.len(),
{
    let u = s.update(i, (k, v));
    let t = s.drop_last();
    if i < s.len() - 1 {
        assert(absent_from(t, k, i + 1)) by {
            assert forall|j: int| i + 1 <= j < t.len() implies (#[trigger] t[j]).0 != k by {
                assert(t[j] == s[j]);
            }
        }
        lemma_assoc_update(t, k, i, v);
        assert(u.drop_last() =~= t.update(i, (k, v)));
        assert(u.last() == s.last());
        assert(s[s.len() - 1].0 != k);
        assert(assoc(u) =~= assoc(s).insert(k, v));
    } else {
        assert(u.drop_last() =~= t);
        assert(assoc(u) =~= assoc(s).insert(k, v));
    }
}

/// Appending an entry updates the map at its key.
pub proof fn lemma_assoc_push<V>(s: Seq<(Seq<char>, V)>, k: Seq<char>, v: V)
    ensures
        assoc(s.push((k, v))) == assoc(s).insert(k, v),
{
    assert(s.push((k, v)).drop_last() =~= s);
}

} // verus!
