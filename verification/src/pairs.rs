//! Lists of key and value pairs read as maps: the laws that the callers use
//! to follow a map through a search and an update.
use vstd::prelude::*;

verus! {

/// The map that a list of key and value pairs holds (a later pair wins).
pub open spec fn pairs_map<K, V>(entries: Seq<(K, V)>) -> Map<K, V>
    decreases entries.len(),
{
    if entries.len() == 0 {
        Map::empty()
    } else {
        pairs_map(entries.drop_last()).insert(entries.last().0, entries.last().1)
    }
}

pub open spec fn unique_keys<K, V>(entries: Seq<(K, V)>) -> bool {
    forall|i: int, j: int| 0 <= i < j < entries.len() ==> #[trigger] entries[i].0 != #[trigger] entries[j].0
}

pub proof fn lemma_pairs_map_get<K, V>(entries: Seq<(K, V)>, k: int)
    requires
        unique_keys(entries),
        0 <= k < entries.len(),
    ensures
        pairs_map(entries).contains_key(entries[k].0),
        pairs_map(entries)[entries[k].0] == entries[k].1,
    decreases entries.len(),
{
    let rest = entries.drop_last();
    if k < entries.len() - 1 {
        assert(rest[k] == entries[k]);
        assert(unique_keys(rest)) by {
            assert forall|i: int, j: int| 0 <= i < j < rest.len() implies #[trigger] rest[i].0 != #[trigger] rest[j].0 by {
                assert(rest[i] == entries[i] && rest[j] == entries[j]);
            }
        }
        lemma_pairs_map_get(rest, k);
        assert(entries[k].0 != entries.last().0);
    }
}

pub proof fn lemma_pairs_map_absent<K, V>(entries: Seq<(K, V)>, key: K)
    requires
        forall|i: int| 0 <= i < entries.len() ==> #[trigger] entries[i].0 != key,
    ensures
        !pairs_map(entries).contains_key(key),
    decreases entries.len(),
{
    if entries.len() > 0 {
        let rest = entries.drop_last();
        assert forall|i: int| 0 <= i < rest.len() implies #[trigger] rest[i].0 != key by {
            assert(rest[i] == entries[i]);
        }
        lemma_pairs_map_absent(rest, key);
        assert(entries.last().0 != key);
    }
}

pub proof fn lemma_pairs_map_update<K, V>(entries: Seq<(K, V)>, k: int, value: V)
    requires
        unique_keys(entries),
        0 <= k < entries.len(),
    ensures
        pairs_map(entries.update(k, (entries[k].0, value))) == pairs_map(entries).insert(
            entries[k].0,
            value,
        ),
    decreases entries.len(),
{
    let updated = entries.update(k, (entries[k].0, value));
    let rest = entries.drop_last();
    assert(unique_keys(rest)) by {
        assert forall|i: int, j: int| 0 <= i < j < rest.len() implies #[trigger] rest[i].0 != #[trigger] rest[j].0 by {
            assert(rest[i] == entries[i] && rest[j] == entries[j]);
        }
    }
    if k == entries.len() - 1 {
        assert(updated.drop_last() =~= rest);
        assert(pairs_map(updated) =~= pairs_map(entries).insert(entries[k].0, value));
    } else {
        assert(updated.drop_last() =~= rest.update(k, (rest[k].0, value)));
        lemma_pairs_map_update(rest, k, value);
        assert(entries[k].0 != entries.last().0);
        assert(pairs_map(updated) =~= pairs_map(entries).insert(entries[k].0, value));
    }
}

} // verus!
