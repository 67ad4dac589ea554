//! Association lists keyed by account identifier, with their map abstraction.
//!
//! The ledger cache, the durable layer and the nonce tracker all keep their
//! entries in a vector of key/value pairs with unique keys; `map_of` is the
//! mathematical map such a vector holds.

use vstd::prelude::*;

use crate::account::AccountId;

verus! {

/// The map held by a sequence of key/value pairs; a later entry for a key
/// wins, though the lists of this crate never repeat a key.
pub open spec fn map_of<V>(entries: Seq<(AccountId, V)>) -> Map<AccountId, V>
    decreases entries.len(),
{
    if entries.len() == 0 {
        Map::empty()
    } else {
        map_of(entries.drop_last()).insert(entries.last().0, entries.last().1)
    }
}

/// No key occurs twice.
pub open spec fn keys_unique<V>(entries: Seq<(AccountId, V)>) -> bool {
    forall|i: int, j: int|
        0 <= i < j < entries.len() ==> (#[trigger] entries[i]).0 != (#[trigger] entries[j]).0
}

pub proof fn lemma_map_of_dom_finite<V>(entries: Seq<(AccountId, V)>)
    ensures
        map_of(entries).dom().finite(),
    decreases entries.len(),
{
    if entries.len() == 0 {
    } else {
        lemma_map_of_dom_finite(entries.drop_last());
    }
}

/// A key is in the map exactly when some entry carries it.
pub proof fn lemma_map_of_contains<V>(entries: Seq<(AccountId, V)>, k: AccountId)
    ensures
        map_of(entries).contains_key(k) <==> exists|i: int|
            0 <= i < entries.len() && (#[trigger] entries[i]).0 == k,
    decreases entries.len(),
{
    if entries.len() == 0 {
    } else {
        lemma_map_of_contains(entries.drop_last(), k);
        if entries.last().0 == k {
            assert(entries[entries.len() - 1].0 == k);
        } else {
            if map_of(entries).contains_key(k) {
                let i = choose|i: int|
                    0 <= i < entries.drop_last().len() && (#[trigger] entries.drop_last()[i]).0
                        == k;
                assert(entries[i].0 == k);
            }
            if exists|i: int| 0 <= i < entries.len() && (#[trigger] entries[i]).0 == k {
                let i = choose|i: int| 0 <= i < entries.len() && (#[trigger] entries[i]).0 == k;
                assert(entries.drop_last()[i].0 == k);
            }
        }
    }
}

/// With unique keys, the entry carrying a key gives the map's value at it.
pub proof fn lemma_map_of_index<V>(entries: Seq<(AccountId, V)>, i: int)
    requires
        keys_unique(entries),
        0 <= i < entries.len(),
    ensures
        map_of(entries).contains_key(entries[i].0),
        map_of(entries)[entries[i].0] == entries[i].1,
    decreases entries.len(),
{
    if i == entries.len() - 1 {
        lemma_map_of_contains(entries, entries[i].0);
    } else {
        lemma_map_of_index(entries.drop_last(), i);
        assert(entries.drop_last()[i] == entries[i]);
        assert(entries.last().0 != entries[i].0);
    }
}

/// Appending a fresh entry inserts it into the map.
pub proof fn lemma_map_of_push<V>(entries: Seq<(AccountId, V)>, k: AccountId, v: V)
    ensures
        map_of(entries.push((k, v))) == map_of(entries).insert(k, v),
{
    assert(entries.push((k, v)).drop_last() =~= entries);
}

/// Overwriting the entry that carries a key updates the map at that key.
pub proof fn lemma_map_of_update<V>(entries: Seq<(AccountId, V)>, i: int, k: AccountId, v: V)
    requires
        keys_unique(entries),
        0 <= i < entries.len(),
        entries[i].0 == k,
    ensures
        map_of(entries.update(i, (k, v))) == map_of(entries).insert(k, v),
    decreases entries.len(),
{
    let upd = entries.update(i, (k, v));
    if i == entries.len() - 1 {
        assert(upd.drop_last() =~= entries.drop_last());
        assert(upd.last() == (k, v));
        assert(map_of(entries.drop_last()).insert(k, entries[i].1).insert(k, v) =~= map_of(
            entries.drop_last(),
        ).insert(k, v));
    } else {
        assert(upd.drop_last() =~= entries.drop_last().update(i, (k, v)));
        assert(upd.last() == entries.last());
        lemma_map_of_update(entries.drop_last(), i, k, v);
        assert(entries.last().0 != k);
        assert(map_of(entries.drop_last()).insert(k, v).insert(
            entries.last().0,
            entries.last().1,
        ) =~= map_of(entries.drop_last()).insert(entries.last().0, entries.last().1).insert(k, v));
    }
}

/// Finds the index of the entry that carries a key, if any.
pub fn find_index<V>(entries: &Vec<(AccountId, V)>, id: &AccountId) -> (r: Option<usize>)
    ensures
        match r {
            Some(i) => i < entries@.len() && entries@[i as int].0 == *id,
            None => forall|i: int|
                0 <= i < entries@.len() ==> (#[trigger] entries@[i]).0 != *id,
        },
{
    let mut i: usize = 0;
    while i < entries.len()
        invariant
            i <= entries@.len(),
            forall|j: int| 0 <= j < i ==> (#[trigger] entries@[j]).0 != *id,
        decreases entries@.len() - i,
    {
        if entries[i].0 == *id {
            return Some(i);
        }
        i = i + 1;
    }
    None
}

/// Sets the value a key maps to, keeping keys unique.
pub fn set_entry<V>(entries: &mut Vec<(AccountId, V)>, id: AccountId, value: V)
    requires
        keys_unique(old(entries)@),
    ensures
        keys_unique(final(entries)@),
        map_of(final(entries)@) == map_of(old(entries)@).insert(id, value),
{
    match find_index(entries, &id) {
        Some(i) => {
            entries[i] = (id, value);
            proof {
                let done = final(entries)@;
                lemma_map_of_update(old(entries)@, i as int, id, value);
                assert forall|p: int, q: int|
                    0 <= p < q < done.len() implies (#[trigger] done[p]).0 != (#[trigger] done[q]).0 by {
                    assert(old(entries)@[p].0 != old(entries)@[q].0);
                }
            }
        },
        None => {
            entries.push((id, value));
            proof {
                let done = final(entries)@;
                lemma_map_of_push(old(entries)@, id, value);
                assert forall|p: int, q: int|
                    0 <= p < q < done.len() implies (#[trigger] done[p]).0 != (#[trigger] done[q]).0 by {
                    if q < done.len() - 1 {
                        assert(old(entries)@[p].0 != old(entries)@[q].0);
                    } else {
                        assert(old(entries)@[p].0 != id);
                    }
                }
            }
        },
    }
}

} // verus!
