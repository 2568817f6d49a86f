//! Sorting by keys, with items of equal key left in their order.

use vstd::prelude::*;

verus! {

/// Where an item with key `key` goes into keys in ascending order: before
/// the first key at or after `from` that is greater, so behind its equals.
pub open spec fn insertion_point(keys: Seq<nat>, key: nat, from: int) -> int
    decreases keys.len() - from,
{
    if from < 0 || from >= keys.len() {
        keys.len() as int
    } else if keys[from] > key {
        from
    } else {
        insertion_point(keys, key, from + 1)
    }
}

/// The items in ascending order of their keys, items of equal key in the
/// order of the list.
pub open spec fn sorted_by_key<T>(items: Seq<T>, key: spec_fn(T) -> nat) -> Seq<T>
    decreases items.len(),
{
    if items.len() == 0 {
        Seq::empty()
    } else {
        let before = sorted_by_key(items.drop_last(), key);
        before.insert(
            insertion_point(before.map_values(key), key(items.last()), 0),
            items.last(),
        )
    }
}

/// The items are in ascending order of their keys.
pub open spec fn ascending<T>(items: Seq<T>, key: spec_fn(T) -> nat) -> bool {
    forall|p: int, q: int| 0 <= p < q < items.len() ==> key(#[trigger] items[p]) <= key(#[trigger] items[q])
}

/// The place of a key in the order: a number by its value, no number
/// behind every number.
pub open spec fn rank(key: Option<u128>) -> nat {
    match key {
        Some(n) => n as nat,
        None => u128::MAX as nat + 1,
    }
}

fn comes_behind(first: Option<u128>, second: Option<u128>) -> (r: bool)
    ensures
        r == (rank(first) > rank(second)),
{
    match (first, second) {
        (Some(a), Some(b)) => a > b,
        (Some(_), None) => false,
        (None, Some(_)) => true,
        (None, None) => false,
    }
}

/// Sorts the items by their keys, ascending, items without a number last,
/// items of equal key in the order of the list.
pub fn sort_by_keys<T>(items: Vec<T>, counts: &Vec<Option<u128>>, Ghost(key): Ghost<spec_fn(T) -> nat>) -> (sorted: Vec<T>)
    requires
        counts@.len() == items@.len(),
        forall|i: int| 0 <= i < items@.len() ==> rank(#[trigger] counts@[i]) == key(items@[i]),
    ensures
        sorted@ == sorted_by_key(items@, key),
        sorted@.to_multiset() == items@.to_multiset(),
        ascending(sorted@, key),
{
    let mut sorted: Vec<T> = Vec::new();
    let mut keys: Vec<Option<u128>> = Vec::new();
    let ghost all = items@;
    let mut i: usize = 0;
    let n = counts.len();
    assert(all.take(0) =~= Seq::empty());
    assert(all.take(0).to_multiset() =~= sorted@.to_multiset());
    for item in it: items
        invariant
            it.seq() == all,
            i == it.index(),
            n == all.len(),
            counts@.len() == all.len(),
            forall|k: int| 0 <= k < all.len() ==> rank(#[trigger] counts@[k]) == key(all[k]),
            sorted@ == sorted_by_key(all.take(i as int), key),
            keys@.len() == sorted@.len(),
            forall|k: int| 0 <= k < keys@.len() ==> rank(#[trigger] keys@[k]) == key(sorted@[k]),
            ascending(sorted@, key),
            sorted@.to_multiset() == all.take(i as int).to_multiset(),
    {
        let count = counts[i];
        let ghost before = sorted@;
        let ghost before_keys = before.map_values(key);
        let mut pos: usize = 0;
        while pos < keys.len() && !comes_behind(keys[pos], count)
            invariant
                0 <= pos <= keys@.len(),
                keys@.len() == before.len(),
                before_keys == before.map_values(key),
                forall|k: int| 0 <= k < keys@.len() ==> rank(#[trigger] keys@[k]) == key(before[k]),
                forall|k: int| 0 <= k < pos ==> key(#[trigger] before[k]) <= rank(count),
                insertion_point(before_keys, rank(count), 0) == insertion_point(
                    before_keys,
                    rank(count),
                    pos as int,
                ),
            decreases keys@.len() - pos,
        {
            assert(before_keys[pos as int] == key(before[pos as int]));
            pos += 1;
        }
        proof {
            if pos < keys@.len() {
                assert(before_keys[pos as int] == key(before[pos as int]));
            }
            assert(insertion_point(before_keys, rank(count), 0) == pos);
            assert(all.take(i + 1).drop_last() =~= all.take(i as int));
            assert(all.take(i + 1).last() == item);
            vstd::seq_lib::to_multiset_insert(before, pos as int, item);
            vstd::seq_lib::to_multiset_build(all.take(i as int), item);
            assert(all.take(i + 1) =~= all.take(i as int).push(item));
        }
        sorted.insert(pos, item);
        keys.insert(pos, count);
        proof {
            assert forall|p: int, q: int| 0 <= p < q < sorted@.len() implies key(
                #[trigger] sorted@[p],
            ) <= key(#[trigger] sorted@[q]) by {
                let a = if p < pos { p } else { p - 1 };
                let b = if q < pos { q } else { q - 1 };
                if p != pos {
                    assert(sorted@[p] == before[a]);
                }
                if q != pos {
                    assert(sorted@[q] == before[b]);
                }
                if p != pos && q != pos {
                    assert(key(before[a]) <= key(before[b]));
                } else if p == pos {
                    assert(key(before[pos as int]) > rank(count));
                    if b > pos {
                        assert(key(before[pos as int]) <= key(before[b]));
                    }
                }
            }
        }
        i += 1;
    }
    assert(all.take(i as int) =~= all);
    sorted
}

/// The items in reverse order.
pub fn reverse<T>(items: Vec<T>) -> (reversed: Vec<T>)
    ensures
        reversed@ == items@.reverse(),
        reversed@.to_multiset() == items@.to_multiset(),
{
    let ghost all = items@;
    let mut items = items;
    let mut reversed: Vec<T> = Vec::new();
    while items.len() > 0
        invariant
            items@.len() + reversed@.len() == all.len(),
            items@ == all.take(items@.len() as int),
            forall|k: int| 0 <= k < reversed@.len() ==> #[trigger] reversed@[k] == all[all.len() - 1 - k],
        decreases items@.len(),
    {
        let ghost count = items@.len();
        match items.pop() {
            Some(item) => {
                assert(item == all[count - 1]);
                reversed.push(item);
                assert(items@ =~= all.take(count - 1));
            },
            None => {},
        }
    }
    proof {
        assert(reversed@ =~= all.reverse());
        all.lemma_reverse_to_multiset();
    }
    reversed
}

} // verus!
