//! Lists of pairs of a name and a value, looked up by the name. The first
//! pair with a name counts.

use vstd::prelude::*;

verus! {

/// The value of the first pair with the name at or after `from`.
pub open spec fn lookup<K: View, V>(entries: Seq<(K, V)>, name: K::V, from: int) -> Option<V>
    decreases entries.len() - from,
{
    if from < 0 || from >= entries.len() {
        None
    } else if entries[from].0@ == name {
        Some(entries[from].1)
    } else {
        lookup(entries, name, from + 1)
    }
}

/// The value of one pair is replaced: the name of that pair has the new
/// value, where no pair before it has the name, and nothing else changes.
pub proof fn lemma_lookup_update<K: View, V>(
    before: Seq<(K, V)>,
    after: Seq<(K, V)>,
    at: int,
    value: V,
    name: K::V,
    from: int,
)
    requires
        0 <= from <= at < before.len(),
        after.len() == before.len(),
        after[at].0 == before[at].0,
        after[at].1 == value,
        forall|k: int| 0 <= k < before.len() && k != at ==> #[trigger] after[k] == before[k],
        forall|k: int| 0 <= k < at ==> (#[trigger] before[k]).0@ != before[at].0@,
    ensures
        lookup(after, name, from) == (if name == before[at].0@ {
            Some(value)
        } else {
            lookup(before, name, from)
        }),
    decreases before.len() - from,
{
    if from < at {
        lemma_lookup_update(before, after, at, value, name, from + 1);
    } else if name != before[at].0@ {
        lemma_lookup_same(before, after, name, from + 1);
    }
}

/// Lists that agree from `from` on are looked up alike from there.
pub proof fn lemma_lookup_same<K: View, V>(before: Seq<(K, V)>, after: Seq<(K, V)>, name: K::V, from: int)
    requires
        0 <= from,
        after.len() == before.len(),
        forall|k: int| from <= k < before.len() ==> #[trigger] after[k] == before[k],
    ensures
        lookup(after, name, from) == lookup(before, name, from),
    decreases before.len() - from,
{
    if from < before.len() {
        lemma_lookup_same(before, after, name, from + 1);
    }
}

/// A pair with a new name is appended: that name has the value, and
/// nothing else changes.
pub proof fn lemma_lookup_push<K: View, V>(
    before: Seq<(K, V)>,
    after: Seq<(K, V)>,
    key: K,
    value: V,
    name: K::V,
    from: int,
)
    requires
        0 <= from <= before.len(),
        after == before.push((key, value)),
        forall|k: int| 0 <= k < before.len() ==> (#[trigger] before[k]).0@ != key@,
    ensures
        lookup(after, name, from) == (if name == key@ {
            Some(value)
        } else {
            lookup(before, name, from)
        }),
    decreases before.len() - from,
{
    if from < before.len() {
        assert(after[from] == before[from]);
        lemma_lookup_push(before, after, key, value, name, from + 1);
    } else {
        assert(after[from] == (key, value));
        assert(lookup(after, name, from + 1) is None);
        assert(lookup(before, name, from) is None);
    }
}

/// A name that no pair has is not found.
pub proof fn lemma_lookup_none<K: View, V>(entries: Seq<(K, V)>, name: K::V, from: int)
    requires
        0 <= from,
        forall|k: int| 0 <= k < entries.len() ==> (#[trigger] entries[k]).0@ != name,
    ensures
        lookup(entries, name, from) is None,
    decreases entries.len() - from,
{
    if from < entries.len() {
        lemma_lookup_none(entries, name, from + 1);
    }
}

/// A name that some pair has is found.
pub proof fn lemma_lookup_some<K: View, V>(entries: Seq<(K, V)>, name: K::V, from: int, at: int)
    requires
        0 <= from <= at < entries.len(),
        entries[at].0@ == name,
    ensures
        lookup(entries, name, from) is Some,
    decreases entries.len() - from,
{
    if from < at && entries[from].0@ != name {
        lemma_lookup_some(entries, name, from + 1, at);
    }
}

} // verus!
