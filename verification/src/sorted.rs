//! Entries kept in ascending order of their keys, and the map that they make.
//!
//! This is how a header map stores what it holds. The lemmas here say what
//! inserting, replacing and removing at an index do to the map.

use crate::model::{ascending, key_at, lists, Entry, Fields};
use crate::name::key_of;
use crate::order::{lemma_precedes_irreflexive, precedes};
use vstd::prelude::*;

verus! {

/// Some entry has the key.
pub open spec fn holds_key(entries: Seq<Entry>, key: Seq<u8>) -> bool {
    exists|i: int| 0 <= i < entries.len() && #[trigger] key_at(entries, i) == key
}

/// An index at which the key stands, where some entry has it.
pub open spec fn index_of(entries: Seq<Entry>, key: Seq<u8>) -> int {
    choose|i: int| 0 <= i < entries.len() && #[trigger] key_at(entries, i) == key
}

/// The map that the entries make: each entry under its own key.
pub open spec fn fields_of(entries: Seq<Entry>) -> Fields {
    Map::new(|key: Seq<u8>| holds_key(entries, key), |key: Seq<u8>| entries[index_of(entries, key)])
}

/// `p` is where `key` belongs in `entries`, and no entry has it: the keys below
/// `p` sort before it, the keys from `p` on sort after it.
pub open spec fn belongs_at(entries: Seq<Entry>, key: Seq<u8>, p: int) -> bool {
    &&& 0 <= p <= entries.len()
    &&& forall|i: int| 0 <= i < p ==> precedes(#[trigger] key_at(entries, i), key)
    &&& forall|i: int| p <= i < entries.len() ==> precedes(key, #[trigger] key_at(entries, i))
}

/// In ascending entries a key stands at one index only.
pub proof fn lemma_one_index(entries: Seq<Entry>, i: int, j: int)
    requires
        ascending(entries),
        0 <= i < entries.len(),
        0 <= j < entries.len(),
        key_at(entries, i) == key_at(entries, j),
    ensures
        i == j,
{
    lemma_precedes_irreflexive(key_at(entries, i));
}

/// The map of ascending entries holds the entry at `i` under that entry's key.
pub proof fn lemma_entry_at(entries: Seq<Entry>, i: int)
    requires
        ascending(entries),
        0 <= i < entries.len(),
    ensures
        fields_of(entries).contains_key(key_at(entries, i)),
        fields_of(entries)[key_at(entries, i)] == entries[i],
{
    let key = key_at(entries, i);
    assert(holds_key(entries, key));
    lemma_one_index(entries, i, index_of(entries, key));
}

/// Ascending entries list the map that they make.
pub proof fn lemma_lists_own_fields(entries: Seq<Entry>)
    requires
        ascending(entries),
    ensures
        lists(entries, fields_of(entries)),
{
    assert forall|i: int| 0 <= i < entries.len() implies fields_of(entries).contains_key(
        #[trigger] key_at(entries, i),
    ) && fields_of(entries)[key_at(entries, i)] == entries[i] by {
        lemma_entry_at(entries, i);
    }
}

/// A key that belongs at `p` is not in the map.
pub proof fn lemma_absent(entries: Seq<Entry>, key: Seq<u8>, p: int)
    requires
        belongs_at(entries, key, p),
    ensures
        !fields_of(entries).contains_key(key),
{
    lemma_precedes_irreflexive(key);
    assert forall|i: int| 0 <= i < entries.len() implies key_at(entries, i) != key by {
        if i < p {
            assert(precedes(key_at(entries, i), key));
        } else {
            assert(precedes(key, key_at(entries, i)));
        }
    }
}

/// Putting a new entry where its key belongs keeps the entries ascending and
/// adds the entry to the map.
pub proof fn lemma_insert_at(entries: Seq<Entry>, p: int, entry: Entry)
    requires
        ascending(entries),
        belongs_at(entries, key_of(entry.0), p),
    ensures
        ascending(entries.insert(p, entry)),
        fields_of(entries.insert(p, entry)) == fields_of(entries).insert(key_of(entry.0), entry),
{
    let key = key_of(entry.0);
    let after = entries.insert(p, entry);
    assert forall|i: int, j: int| 0 <= i < j < after.len() implies precedes(
        #[trigger] key_at(after, i),
        #[trigger] key_at(after, j),
    ) by {
        let a = if i < p { i } else { i - 1 };
        let b = if j < p { j } else { j - 1 };
        if i == p {
            assert(key_at(after, j) == key_at(entries, b));
        } else if j == p {
            assert(key_at(after, i) == key_at(entries, a));
        } else {
            assert(key_at(after, i) == key_at(entries, a));
            assert(key_at(after, j) == key_at(entries, b));
        }
    }
    let left = fields_of(after);
    let right = fields_of(entries).insert(key, entry);
    lemma_absent(entries, key, p);
    assert forall|k: Seq<u8>| #[trigger] left.contains_key(k) implies right.contains_key(k)
        && left[k] == right[k] by {
        let i = index_of(after, k);
        lemma_entry_at(after, i);
        if i != p {
            let a = if i < p { i } else { i - 1 };
            assert(key_at(after, i) == key_at(entries, a));
            lemma_entry_at(entries, a);
        }
    }
    assert forall|k: Seq<u8>| #[trigger] right.contains_key(k) implies left.contains_key(k) by {
        if k == key {
            assert(key_at(after, p) == key);
        } else {
            let a = index_of(entries, k);
            let i = if a < p { a } else { a + 1 };
            assert(key_at(after, i) == key_at(entries, a));
        }
    }
    assert(left =~= right);
}

/// Giving the entry at `p` another value keeps the entries ascending and
/// replaces the entry in the map.
pub proof fn lemma_update_at(entries: Seq<Entry>, p: int, value: Seq<char>)
    requires
        ascending(entries),
        0 <= p < entries.len(),
    ensures
        ascending(entries.update(p, (entries[p].0, value))),
        fields_of(entries.update(p, (entries[p].0, value))) == fields_of(entries).insert(
            key_at(entries, p),
            (entries[p].0, value),
        ),
{
    let key = key_at(entries, p);
    let entry = (entries[p].0, value);
    let after = entries.update(p, entry);
    assert forall|i: int| 0 <= i < after.len() implies #[trigger] key_at(after, i) == key_at(
        entries,
        i,
    ) by {}
    assert forall|i: int, j: int| 0 <= i < j < after.len() implies precedes(
        #[trigger] key_at(after, i),
        #[trigger] key_at(after, j),
    ) by {
        assert(precedes(key_at(entries, i), key_at(entries, j)));
    }
    let left = fields_of(after);
    let right = fields_of(entries).insert(key, entry);
    assert forall|k: Seq<u8>| #[trigger] left.contains_key(k) implies right.contains_key(k)
        && left[k] == right[k] by {
        let i = index_of(after, k);
        lemma_entry_at(after, i);
        assert(key_at(after, i) == key_at(entries, i));
        lemma_entry_at(entries, i);
        if i != p && k == key {
            lemma_one_index(entries, i, p);
        }
    }
    assert forall|k: Seq<u8>| #[trigger] right.contains_key(k) implies left.contains_key(k) by {
        let i = if k == key { p } else { index_of(entries, k) };
        assert(key_at(after, i) == key_at(entries, i));
    }
    assert(left =~= right);
}

/// Taking out the entry at `p` keeps the entries ascending and removes the entry
/// from the map.
pub proof fn lemma_remove_at(entries: Seq<Entry>, p: int)
    requires
        ascending(entries),
        0 <= p < entries.len(),
    ensures
        ascending(entries.remove(p)),
        fields_of(entries.remove(p)) == fields_of(entries).remove(key_at(entries, p)),
{
    let key = key_at(entries, p);
    let after = entries.remove(p);
    assert forall|i: int| 0 <= i < after.len() implies #[trigger] key_at(after, i) == key_at(
        entries,
        if i < p { i } else { i + 1 },
    ) by {}
    assert forall|i: int, j: int| 0 <= i < j < after.len() implies precedes(
        #[trigger] key_at(after, i),
        #[trigger] key_at(after, j),
    ) by {
        let a = if i < p { i } else { i + 1 };
        let b = if j < p { j } else { j + 1 };
        assert(precedes(key_at(entries, a), key_at(entries, b)));
    }
    let left = fields_of(after);
    let right = fields_of(entries).remove(key);
    assert forall|k: Seq<u8>| #[trigger] left.contains_key(k) implies right.contains_key(k)
        && left[k] == right[k] by {
        let i = index_of(after, k);
        let a = if i < p { i } else { i + 1 };
        lemma_entry_at(after, i);
        assert(key_at(after, i) == key_at(entries, a));
        lemma_entry_at(entries, a);
        if k == key {
            lemma_one_index(entries, a, p);
        }
    }
    assert forall|k: Seq<u8>| #[trigger] right.contains_key(k) implies left.contains_key(k) by {
        let a = index_of(entries, k);
        if a == p {
        } else {
            let i = if a < p { a } else { a - 1 };
            assert(key_at(after, i) == key_at(entries, a));
        }
    }
    assert(left =~= right);
}

} // verus!
