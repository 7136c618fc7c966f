//! A generic association list: key-value pairs in insertion order, with
//! lookup, replace-in-place insertion and first-match removal, and the
//! lemmas that relate them.
//!
//! Spec-level model shared by the stores of this crate: `spec_lookup` finds
//! the first pair for a key, `spec_insert` replaces it in place or appends,
//! `spec_remove` drops it. A list built from empty by these operations has
//! `unique_keys`.

use vstd::prelude::*;

verus! {

/// The value stored for `key`: the first pair carrying it.
pub open spec fn spec_lookup<K, V>(s: Seq<(K, V)>, key: K) -> Option<V>
    decreases s.len(),
{
    if s.len() == 0 {
        None
    } else if s[0].0 == key {
        Some(s[0].1)
    } else {
        spec_lookup(s.drop_first(), key)
    }
}

/// The list after an insertion: the first pair for `key` replaced in
/// place, or a new pair appended when none exists.
pub open spec fn spec_insert<K, V>(s: Seq<(K, V)>, key: K, value: V) -> Seq<(K, V)>
    decreases s.len(),
{
    if s.len() == 0 {
        seq![(key, value)]
    } else if s[0].0 == key {
        seq![(key, value)] + s.drop_first()
    } else {
        seq![s[0]] + spec_insert(s.drop_first(), key, value)
    }
}

/// The list after a removal: the first pair for `key` dropped.
pub open spec fn spec_remove<K, V>(s: Seq<(K, V)>, key: K) -> Seq<(K, V)>
    decreases s.len(),
{
    if s.len() == 0 {
        s
    } else if s[0].0 == key {
        s.drop_first()
    } else {
        seq![s[0]] + spec_remove(s.drop_first(), key)
    }
}

/// No key appears twice. Every list built from an empty one by the
/// operations here satisfies this.
pub open spec fn unique_keys<K, V>(s: Seq<(K, V)>) -> bool {
    forall|i: int, j: int| 0 <= i < j < s.len() ==> (#[trigger] s[i]).0 != (#[trigger] s[j]).0
}

/// A looked-up value exists exactly when some pair carries the key.
proof fn lemma_lookup_some_iff_contains<K, V>(s: Seq<(K, V)>, key: K)
    ensures
        (spec_lookup(s, key) is Some) <==> exists|i: int|
            0 <= i < s.len() && (#[trigger] s[i]).0 == key,
    decreases s.len(),
{
    if s.len() > 0 {
        lemma_lookup_some_iff_contains(s.drop_first(), key);
        if s[0].0 == key {
        } else {
            assert forall|i: int| 0 <= i < s.len() && (#[trigger] s[i]).0 == key implies exists|
                j: int,
            | 0 <= j < s.drop_first().len() && (#[trigger] s.drop_first()[j]).0 == key by {
                assert(s.drop_first()[i - 1] == s[i]);
            }
        }
    }
}

/// Looking up the key just inserted yields the new value.
pub proof fn lemma_lookup_insert_same<K, V>(s: Seq<(K, V)>, key: K, value: V)
    ensures
        spec_lookup(spec_insert(s, key, value), key) == Some(value),
    decreases s.len(),
{
    let t = spec_insert(s, key, value);
    if s.len() == 0 {
    } else if s[0].0 == key {
        assert(t[0] == (key, value));
    } else {
        lemma_lookup_insert_same(s.drop_first(), key, value);
        assert(t[0] == s[0]);
        assert(t.drop_first() =~= spec_insert(s.drop_first(), key, value));
    }
}


/// After removal of a key from a list with unique keys, that key has no
/// value any more.
pub proof fn lemma_lookup_remove_same<K, V>(s: Seq<(K, V)>, key: K)
    requires
        unique_keys(s),
    ensures
        spec_lookup(spec_remove(s, key), key) is None,
    decreases s.len(),
{
    let t = spec_remove(s, key);
    if s.len() == 0 {
    } else if s[0].0 == key {
        lemma_lookup_some_iff_contains(s.drop_first(), key);
        if spec_lookup(s.drop_first(), key) is Some {
            let i = choose|i: int|
                0 <= i < s.drop_first().len() && (#[trigger] s.drop_first()[i]).0 == key;
            assert(s[i + 1].0 == key);
        }
        lemma_lookup_remove_absent_helper(s.drop_first(), key);
    } else {
        assert(forall|i: int, j: int|
            0 <= i < j < s.drop_first().len() ==> (#[trigger] s.drop_first()[i]).0 != (
            #[trigger] s.drop_first()[j]).0);
        lemma_lookup_remove_same(s.drop_first(), key);
        assert(t[0] == s[0]);
        assert(t.drop_first() =~= spec_remove(s.drop_first(), key));
    }
}

/// A key absent from the list stays absent after its removal is asked for.
pub proof fn lemma_lookup_remove_absent_helper<K, V>(s: Seq<(K, V)>, key: K)
    requires
        spec_lookup(s, key) is None,
    ensures
        spec_lookup(spec_remove(s, key), key) is None,
        spec_remove(s, key) == s,
    decreases s.len(),
{
    if s.len() > 0 {
        lemma_lookup_remove_absent_helper(s.drop_first(), key);
        assert(spec_remove(s, key) =~= seq![s[0]] + s.drop_first());
        assert(seq![s[0]] + s.drop_first() =~= s);
    }
}


/// Insertion keeps the keys unique.
pub proof fn lemma_insert_keeps_unique<K, V>(s: Seq<(K, V)>, key: K, value: V)
    requires
        unique_keys(s),
    ensures
        unique_keys(spec_insert(s, key, value)),
    decreases s.len(),
{
    let t = spec_insert(s, key, value);
    if s.len() == 0 {
    } else if s[0].0 == key {
        assert forall|i: int, j: int| 0 <= i < j < t.len() implies (#[trigger] t[i]).0 != (
        #[trigger] t[j]).0 by {
            assert(t[j] == s[j]);
            if i > 0 {
                assert(t[i] == s[i]);
            }
        }
    } else {
        assert(forall|i: int, j: int|
            0 <= i < j < s.drop_first().len() ==> (#[trigger] s.drop_first()[i]).0 != (
            #[trigger] s.drop_first()[j]).0);
        lemma_insert_keeps_unique(s.drop_first(), key, value);
        let u = spec_insert(s.drop_first(), key, value);
        lemma_insert_keys(s.drop_first(), key, value);
        assert forall|i: int, j: int| 0 <= i < j < t.len() implies (#[trigger] t[i]).0 != (
        #[trigger] t[j]).0 by {
            if i == 0 {
                assert(t[0] == s[0]);
                assert(t[j] == u[j - 1]);
            } else {
                assert(t[i] == u[i - 1]);
                assert(t[j] == u[j - 1]);
            }
        }
    }
}

/// Every key after an insertion is an old key or the inserted one.
pub proof fn lemma_insert_keys<K, V>(s: Seq<(K, V)>, key: K, value: V)
    ensures
        forall|k: int|
            0 <= k < spec_insert(s, key, value).len() ==> (#[trigger] spec_insert(s, key, value)[k]).0
                == key || exists|i: int| 0 <= i < s.len() && (#[trigger] s[i]).0 == spec_insert(
                s,
                key,
                value,
            )[k].0,
    decreases s.len(),
{
    let t = spec_insert(s, key, value);
    if s.len() == 0 {
    } else if s[0].0 == key {
        assert forall|k: int| 0 <= k < t.len() implies (#[trigger] t[k]).0 == key || exists|i: int|
            0 <= i < s.len() && (#[trigger] s[i]).0 == t[k].0 by {
            if k > 0 {
                assert(t[k] == s[k]);
            }
        }
    } else {
        lemma_insert_keys(s.drop_first(), key, value);
        let u = spec_insert(s.drop_first(), key, value);
        assert forall|k: int| 0 <= k < t.len() implies (#[trigger] t[k]).0 == key || exists|i: int|
            0 <= i < s.len() && (#[trigger] s[i]).0 == t[k].0 by {
            if k == 0 {
                assert(t[0] == s[0]);
            } else {
                assert(t[k] == u[k - 1]);
                if u[k - 1].0 != key {
                    let i = choose|i: int|
                        0 <= i < s.drop_first().len() && (#[trigger] s.drop_first()[i]).0 == u[k
                            - 1].0;
                    assert(s[i + 1].0 == u[k - 1].0);
                }
            }
        }
    }
}

/// Removal keeps the keys unique.
pub proof fn lemma_remove_keeps_unique<K, V>(s: Seq<(K, V)>, key: K)
    requires
        unique_keys(s),
    ensures
        unique_keys(spec_remove(s, key)),
    decreases s.len(),
{
    let t = spec_remove(s, key);
    if s.len() == 0 {
    } else if s[0].0 == key {
    } else {
        assert(forall|i: int, j: int|
            0 <= i < j < s.drop_first().len() ==> (#[trigger] s.drop_first()[i]).0 != (
            #[trigger] s.drop_first()[j]).0);
        lemma_remove_keeps_unique(s.drop_first(), key);
        let u = spec_remove(s.drop_first(), key);
        lemma_remove_keys(s.drop_first(), key);
        assert forall|i: int, j: int| 0 <= i < j < t.len() implies (#[trigger] t[i]).0 != (
        #[trigger] t[j]).0 by {
            if i == 0 {
                assert(t[0] == s[0]);
                assert(t[j] == u[j - 1]);
            } else {
                assert(t[i] == u[i - 1]);
                assert(t[j] == u[j - 1]);
            }
        }
    }
}

/// Every key left after a removal was a key before.
pub proof fn lemma_remove_keys<K, V>(s: Seq<(K, V)>, key: K)
    ensures
        forall|k: int|
            0 <= k < spec_remove(s, key).len() ==> exists|i: int|
                0 <= i < s.len() && (#[trigger] s[i]).0 == (#[trigger] spec_remove(s, key)[k]).0,
    decreases s.len(),
{
    let t = spec_remove(s, key);
    if s.len() == 0 {
    } else if s[0].0 == key {
        assert forall|k: int| 0 <= k < t.len() implies exists|i: int|
            0 <= i < s.len() && (#[trigger] s[i]).0 == (#[trigger] t[k]).0 by {
            assert(s[k + 1] == t[k]);
        }
    } else {
        lemma_remove_keys(s.drop_first(), key);
        let u = spec_remove(s.drop_first(), key);
        assert forall|k: int| 0 <= k < t.len() implies exists|i: int|
            0 <= i < s.len() && (#[trigger] s[i]).0 == (#[trigger] t[k]).0 by {
            if k == 0 {
                assert(t[0] == s[0]);
            } else {
                assert(t[k] == u[k - 1]);
                let i = choose|i: int|
                    0 <= i < s.drop_first().len() && (#[trigger] s.drop_first()[i]).0 == u[k - 1].0;
                assert(s[i + 1].0 == u[k - 1].0);
            }
        }
    }
}

/// A match at the first index carrying the key is what lookup returns.
pub proof fn lemma_lookup_at_index<K, V>(s: Seq<(K, V)>, key: K, i: int)
    requires
        0 <= i < s.len(),
        s[i].0 == key,
        forall|j: int| 0 <= j < i ==> (#[trigger] s[j]).0 != key,
    ensures
        spec_lookup(s, key) == Some(s[i].1),
    decreases i,
{
    if i > 0 {
        lemma_lookup_at_index(s.drop_first(), key, i - 1);
        assert(s.drop_first()[i - 1] == s[i]);
    }
}

/// When no pair carries the key, lookup returns nothing.
pub proof fn lemma_lookup_none<K, V>(s: Seq<(K, V)>, key: K)
    requires
        forall|j: int| 0 <= j < s.len() ==> (#[trigger] s[j]).0 != key,
    ensures
        spec_lookup(s, key) is None,
    decreases s.len(),
{
    if s.len() > 0 {
        assert(forall|j: int|
            0 <= j < s.drop_first().len() ==> (#[trigger] s.drop_first()[j]).0 != key);
        lemma_lookup_none(s.drop_first(), key);
    }
}

/// Inserting over the first match replaces that pair in place.
pub proof fn lemma_insert_at_index<K, V>(s: Seq<(K, V)>, key: K, value: V, i: int)
    requires
        0 <= i < s.len(),
        s[i].0 == key,
        forall|j: int| 0 <= j < i ==> (#[trigger] s[j]).0 != key,
    ensures
        spec_insert(s, key, value) == s.update(i, (key, value)),
    decreases i,
{
    if i == 0 {
        assert(spec_insert(s, key, value) =~= s.update(0, (key, value)));
    } else {
        lemma_insert_at_index(s.drop_first(), key, value, i - 1);
        assert(s.drop_first()[i - 1] == s[i]);
        assert(spec_insert(s, key, value) =~= s.update(i, (key, value)));
    }
}

/// Inserting an absent key appends its pair.
pub proof fn lemma_insert_absent<K, V>(s: Seq<(K, V)>, key: K, value: V)
    requires
        forall|j: int| 0 <= j < s.len() ==> (#[trigger] s[j]).0 != key,
    ensures
        spec_insert(s, key, value) == s.push((key, value)),
    decreases s.len(),
{
    if s.len() == 0 {
        assert(spec_insert(s, key, value) =~= s.push((key, value)));
    } else {
        assert(forall|j: int|
            0 <= j < s.drop_first().len() ==> (#[trigger] s.drop_first()[j]).0 != key);
        lemma_insert_absent(s.drop_first(), key, value);
        assert(spec_insert(s, key, value) =~= s.push((key, value)));
    }
}

/// Removing the first match drops exactly that pair.
pub proof fn lemma_remove_at_index<K, V>(s: Seq<(K, V)>, key: K, i: int)
    requires
        0 <= i < s.len(),
        s[i].0 == key,
        forall|j: int| 0 <= j < i ==> (#[trigger] s[j]).0 != key,
    ensures
        spec_remove(s, key) == s.remove(i),
    decreases i,
{
    if i == 0 {
        assert(spec_remove(s, key) =~= s.remove(0));
    } else {
        lemma_remove_at_index(s.drop_first(), key, i - 1);
        assert(s.drop_first()[i - 1] == s[i]);
        assert(spec_remove(s, key) =~= s.remove(i));
    }
}

/// Removing an absent key changes nothing.
pub proof fn lemma_remove_absent<K, V>(s: Seq<(K, V)>, key: K)
    requires
        forall|j: int| 0 <= j < s.len() ==> (#[trigger] s[j]).0 != key,
    ensures
        spec_remove(s, key) == s,
    decreases s.len(),
{
    if s.len() > 0 {
        assert(forall|j: int|
            0 <= j < s.drop_first().len() ==> (#[trigger] s.drop_first()[j]).0 != key);
        lemma_remove_absent(s.drop_first(), key);
        assert(spec_remove(s, key) =~= s);
    }
}

} // verus!
