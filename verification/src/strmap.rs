//! String-keyed association lists.
//!
//! Hash maps keep their contents opaque to proofs, so the library stores its
//! small string-keyed tables as vectors of key/value pairs with pairwise
//! distinct keys. The spec functions below give such a table map semantics;
//! keys are compared as character sequences.

use vstd::prelude::*;

verus! {

/// The value stored under `key`, or `None`. The first match decides; keys
/// are kept pairwise distinct, so it is the only one.
pub open spec fn kv_lookup<V>(entries: Seq<(Seq<char>, V)>, key: Seq<char>) -> Option<V>
    decreases entries.len(),
{
    if entries.len() == 0 {
        None
    } else if entries[0].0 == key {
        Some(entries[0].1)
    } else {
        kv_lookup(entries.drop_first(), key)
    }
}

/// Keys are pairwise distinct.
pub open spec fn kv_unique<V>(entries: Seq<(Seq<char>, V)>) -> bool {
    forall|i: int, j: int| 0 <= i < j < entries.len() ==> (#[trigger] entries[i]).0 != (
    #[trigger] entries[j]).0
}

/// A key that no entry holds is not found.
pub proof fn lemma_kv_lookup_not_found<V>(entries: Seq<(Seq<char>, V)>, key: Seq<char>)
    requires
        forall|i: int| 0 <= i < entries.len() ==> (#[trigger] entries[i]).0 != key,
    ensures
        kv_lookup(entries, key) is None,
    decreases entries.len(),
{
    if entries.len() > 0 {
        assert(entries[0].0 != key);
        assert forall|i: int|
            0 <= i < entries.drop_first().len() implies (#[trigger] entries.drop_first()[i]).0
            != key by {
            assert(entries.drop_first()[i] == entries[i + 1]);
        }
        lemma_kv_lookup_not_found(entries.drop_first(), key);
    }
}

/// The first entry that holds `key` decides the lookup.
pub proof fn lemma_kv_lookup_at<V>(entries: Seq<(Seq<char>, V)>, key: Seq<char>, at: int)
    requires
        0 <= at < entries.len(),
        entries[at].0 == key,
        forall|i: int| 0 <= i < at ==> (#[trigger] entries[i]).0 != key,
    ensures
        kv_lookup(entries, key) == Some(entries[at].1),
    decreases entries.len(),
{
    if at > 0 {
        assert(entries[0].0 != key);
        assert forall|i: int|
            0 <= i < at - 1 implies (#[trigger] entries.drop_first()[i]).0 != key by {
            assert(entries.drop_first()[i] == entries[i + 1]);
        }
        assert(entries.drop_first()[at - 1] == entries[at]);
        lemma_kv_lookup_at(entries.drop_first(), key, at - 1);
    }
}

/// Replacing the entry at a position whose key is not `key`, by a pair whose
/// key is not `key` either, leaves the lookup of `key` unchanged.
pub proof fn lemma_kv_lookup_update_other<V>(
    entries: Seq<(Seq<char>, V)>,
    at: int,
    pair: (Seq<char>, V),
    key: Seq<char>,
)
    requires
        0 <= at < entries.len(),
        entries[at].0 != key,
        pair.0 != key,
    ensures
        kv_lookup(entries.update(at, pair), key) == kv_lookup(entries, key),
    decreases entries.len(),
{
    let updated = entries.update(at, pair);
    if at == 0 {
        assert(updated.drop_first() =~= entries.drop_first());
    } else {
        assert(updated[0] == entries[0]);
        if entries[0].0 != key {
            assert(updated.drop_first() =~= entries.drop_first().update(at - 1, pair));
            assert(entries.drop_first()[at - 1] == entries[at]);
            lemma_kv_lookup_update_other(entries.drop_first(), at - 1, pair, key);
        }
    }
}

/// Appending an entry under some other key leaves the lookup of `key`
/// unchanged.
pub proof fn lemma_kv_lookup_push_other<V>(
    entries: Seq<(Seq<char>, V)>,
    pair: (Seq<char>, V),
    key: Seq<char>,
)
    requires
        pair.0 != key,
    ensures
        kv_lookup(entries.push(pair), key) == kv_lookup(entries, key),
    decreases entries.len(),
{
    let pushed = entries.push(pair);
    if entries.len() == 0 {
        assert(pushed[0] == pair);
        assert(pushed.drop_first() =~= entries);
    } else {
        assert(pushed[0] == entries[0]);
        if entries[0].0 != key {
            assert(pushed.drop_first() =~= entries.drop_first().push(pair));
            lemma_kv_lookup_push_other(entries.drop_first(), pair, key);
        }
    }
}

/// Appending an entry whose key is absent makes that key found, with the new
/// value.
pub proof fn lemma_kv_lookup_push_self<V>(entries: Seq<(Seq<char>, V)>, pair: (Seq<char>, V))
    requires
        forall|i: int| 0 <= i < entries.len() ==> (#[trigger] entries[i]).0 != pair.0,
    ensures
        kv_lookup(entries.push(pair), pair.0) == Some(pair.1),
    decreases entries.len(),
{
    let pushed = entries.push(pair);
    if entries.len() == 0 {
        assert(pushed[0] == pair);
    } else {
        assert(pushed[0] == entries[0]);
        assert(entries[0].0 != pair.0);
        assert(pushed.drop_first() =~= entries.drop_first().push(pair));
        assert forall|i: int|
            0 <= i < entries.drop_first().len() implies (#[trigger] entries.drop_first()[i]).0
            != pair.0 by {
            assert(entries.drop_first()[i] == entries[i + 1]);
        }
        lemma_kv_lookup_push_self(entries.drop_first(), pair);
    }
}

} // verus!
