//! The mathematical model of a header map, and the laws that hold of it.
//!
//! A header map is modelled as a finite map from keys to entries. The key of an
//! entry is its name's lower-cased bytes; the entry keeps the name as it was first
//! written, and the value.

use crate::ascii::{is_ascii_bytes, text_of};
use crate::error::{AsciiError, HeaderError, Utf8Error};
use crate::folding::{lemma_unfolded_keeps_utf8, unfolded};
use crate::name::key_of;
use crate::order::{lemma_precedes_asymmetric, lemma_precedes_irreflexive, precedes};
use vstd::prelude::*;
use vstd::utf8::*;

verus! {

/// A name as it was written, and a value.
pub type Entry = (Seq<char>, Seq<char>);

/// The model of a header map: from a name's key to the entry under that name.
pub type Fields = Map<Seq<u8>, Entry>;

/// A header as it came off the wire: the bytes of its name, and the bytes of its
/// value with the line folds still in them.
pub type RawHeader = (Seq<u8>, Seq<u8>);

/// What stands between two values that were appended under one name: a comma
/// and a space.
pub open spec fn separator() -> Seq<char> {
    seq![',', ' ']
}

/// The value under `name`, if there is one.
pub open spec fn value_of(fields: Fields, name: Seq<char>) -> Option<Seq<char>> {
    let key = key_of(name);
    if fields.contains_key(key) {
        Some(fields[key].1)
    } else {
        None
    }
}

/// `fields` after `value` was set under `name`. An entry that is already there
/// keeps its name as written and loses its old value.
pub open spec fn inserted(fields: Fields, name: Seq<char>, value: Seq<char>) -> Fields {
    let key = key_of(name);
    if fields.contains_key(key) {
        fields.insert(key, (fields[key].0, value))
    } else {
        fields.insert(key, (name, value))
    }
}

/// `fields` after `value` was appended under `name`. An entry that is already
/// there keeps its name as written, and its value grows by the separator and
/// `value`; otherwise this is `inserted`.
pub open spec fn appended(fields: Fields, name: Seq<char>, value: Seq<char>) -> Fields {
    let key = key_of(name);
    if fields.contains_key(key) {
        fields.insert(key, (fields[key].0, fields[key].1 + separator() + value))
    } else {
        fields.insert(key, (name, value))
    }
}

/// `fields` without the entry under `name`.
pub open spec fn removed(fields: Fields, name: Seq<char>) -> Fields {
    fields.remove(key_of(name))
}

/// The key of the entry at index `i`.
pub open spec fn key_at(entries: Seq<Entry>, i: int) -> Seq<u8> {
    key_of(entries[i].0)
}

/// The keys of `entries` ascend strictly.
pub open spec fn ascending(entries: Seq<Entry>) -> bool {
    forall|i: int, j: int|
        0 <= i < j < entries.len() ==> precedes(#[trigger] key_at(entries, i), #[trigger] key_at(entries, j))
}

/// `entries` lists `fields`: it holds each entry of `fields` once, in ascending
/// order of the keys, and nothing else.
pub open spec fn lists(entries: Seq<Entry>, fields: Fields) -> bool {
    &&& ascending(entries)
    &&& forall|i: int|
        0 <= i < entries.len() ==> fields.contains_key(#[trigger] key_at(entries, i))
            && fields[key_at(entries, i)] == entries[i]
    &&& forall|key: Seq<u8>| #[trigger]
        fields.contains_key(key) ==> exists|i: int|
            0 <= i < entries.len() && #[trigger] key_at(entries, i) == key
}

/// The entries of `fields` in the order in which a header map hands them out:
/// ascending by key.
pub open spec fn listing(fields: Fields) -> Seq<Entry> {
    choose|entries: Seq<Entry>| lists(entries, fields)
}

/// Listings of two maps with the same keys have the same keys at every index
/// below `n`.
proof fn lemma_listings_agree(a: Seq<Entry>, b: Seq<Entry>, fa: Fields, fb: Fields, n: int)
    requires
        lists(a, fa),
        lists(b, fb),
        fa.dom() == fb.dom(),
        0 <= n <= a.len(),
        n <= b.len(),
    ensures
        forall|i: int| 0 <= i < n ==> key_at(a, i) == key_at(b, i),
    decreases n,
{
    if n > 0 {
        let m = n - 1;
        lemma_listings_agree(a, b, fa, fb, m);
        let ka = key_at(a, m);
        let kb = key_at(b, m);
        assert(fb.contains_key(ka));
        assert(fa.contains_key(kb));
        let j = choose|j: int| 0 <= j < b.len() && key_at(b, j) == ka;
        let i = choose|i: int| 0 <= i < a.len() && key_at(a, i) == kb;
        lemma_precedes_irreflexive(ka);
        lemma_precedes_irreflexive(kb);
        lemma_precedes_asymmetric(ka, kb);
        if j < m {
            assert(key_at(a, j) == key_at(b, j));
            assert(precedes(key_at(a, j), key_at(a, m)));
        }
        if i < m {
            assert(key_at(a, i) == key_at(b, i));
            assert(precedes(key_at(b, i), key_at(b, m)));
        }
        if j > m {
            assert(precedes(key_at(b, m), key_at(b, j)));
        }
        if i > m {
            assert(precedes(key_at(a, m), key_at(a, i)));
        }
    }
}

/// Of two maps with the same keys, the listing of one is no longer than that of
/// the other.
proof fn lemma_listing_no_longer(a: Seq<Entry>, b: Seq<Entry>, fa: Fields, fb: Fields)
    requires
        lists(a, fa),
        lists(b, fb),
        fa.dom() == fb.dom(),
    ensures
        a.len() <= b.len(),
{
    if a.len() > b.len() {
        let n = b.len() as int;
        lemma_listings_agree(a, b, fa, fb, n);
        let k = key_at(a, n);
        assert(fb.contains_key(k));
        let j = choose|j: int| 0 <= j < b.len() && key_at(b, j) == k;
        assert(key_at(a, j) == key_at(b, j));
        assert(precedes(key_at(a, j), key_at(a, n)));
        lemma_precedes_irreflexive(k);
    }
}

/// Maps with the same keys are listed key by key alike: their listings are
/// equally long and hold the same key at each index.
pub proof fn lemma_listings_same_keys(a: Seq<Entry>, b: Seq<Entry>, fa: Fields, fb: Fields)
    requires
        lists(a, fa),
        lists(b, fb),
        fa.dom() == fb.dom(),
    ensures
        a.len() == b.len(),
        forall|i: int| 0 <= i < a.len() ==> key_at(a, i) == key_at(b, i),
{
    lemma_listing_no_longer(a, b, fa, fb);
    lemma_listing_no_longer(b, a, fb, fa);
    lemma_listings_agree(a, b, fa, fb, a.len() as int);
}

/// A map has at most one listing: the order in which its entries are handed out
/// depends on nothing but the map.
pub proof fn lemma_listing_unique(a: Seq<Entry>, b: Seq<Entry>, fields: Fields)
    requires
        lists(a, fields),
        lists(b, fields),
    ensures
        a == b,
        listing(fields) == a,
{
    let c = listing(fields);
    lemma_listings_same_keys(a, b, fields, fields);
    lemma_listings_same_keys(a, c, fields, fields);
    assert forall|i: int| 0 <= i < a.len() implies a[i] == b[i] && a[i] == c[i] by {
        assert(fields[key_at(a, i)] == a[i]);
        assert(fields[key_at(b, i)] == b[i]);
        assert(fields[key_at(c, i)] == c[i]);
    }
    assert(a =~= b);
    assert(a =~= c);
}

/// Inserting twice under one name leaves the value that was inserted last, as
/// if the first had never been inserted.
pub proof fn lemma_insert_overwrites(
    fields: Fields,
    name: Seq<char>,
    first: Seq<char>,
    second: Seq<char>,
)
    ensures
        value_of(inserted(inserted(fields, name, first), name, second), name) == Some(second),
        inserted(inserted(fields, name, first), name, second) == inserted(fields, name, second),
{
    assert(inserted(inserted(fields, name, first), name, second) =~= inserted(
        fields,
        name,
        second,
    ));
}

/// What was inserted under a name is found under every name with the same key,
/// and no other name's value changes.
pub proof fn lemma_insert_then_get(
    fields: Fields,
    name: Seq<char>,
    value: Seq<char>,
    other: Seq<char>,
)
    ensures
        key_of(other) == key_of(name) ==> value_of(inserted(fields, name, value), other) == Some(
            value,
        ),
        key_of(other) != key_of(name) ==> value_of(inserted(fields, name, value), other)
            == value_of(fields, other),
{
}

/// Inserting under two different names gives the same map in either order.
pub proof fn lemma_insert_commutes(
    fields: Fields,
    name: Seq<char>,
    value: Seq<char>,
    other: Seq<char>,
    other_value: Seq<char>,
)
    requires
        key_of(name) != key_of(other),
    ensures
        inserted(inserted(fields, name, value), other, other_value) == inserted(
            inserted(fields, other, other_value),
            name,
            value,
        ),
{
    assert(inserted(inserted(fields, name, value), other, other_value) =~= inserted(
        inserted(fields, other, other_value),
        name,
        value,
    ));
}

/// Appending under a name that is not there is inserting.
pub proof fn lemma_append_absent_inserts(fields: Fields, name: Seq<char>, value: Seq<char>)
    requires
        value_of(fields, name) is None,
    ensures
        appended(fields, name, value) == inserted(fields, name, value),
{
}

/// Appending twice under a name that was not there leaves the two values
/// joined by a comma and a space.
pub proof fn lemma_append_merges(
    fields: Fields,
    name: Seq<char>,
    first: Seq<char>,
    second: Seq<char>,
)
    requires
        value_of(fields, name) is None,
    ensures
        value_of(appended(appended(fields, name, first), name, second), name) == Some(
            first + separator() + second,
        ),
{
}

/// Appending under a name that is there puts the separator and the new value
/// behind the old one.
pub proof fn lemma_append_extends(
    fields: Fields,
    name: Seq<char>,
    value: Seq<char>,
)
    requires
        value_of(fields, name) is Some,
    ensures
        value_of(appended(fields, name, value), name) == Some(
            value_of(fields, name)->0 + separator() + value,
        ),
{
}

/// Removing a name that is not there changes nothing.
pub proof fn lemma_remove_absent(fields: Fields, name: Seq<char>)
    requires
        value_of(fields, name) is None,
    ensures
        removed(fields, name) == fields,
{
    assert(removed(fields, name) =~= fields);
}

/// After removing a name nothing is found under it, and every other name keeps
/// its value.
pub proof fn lemma_remove_then_get(fields: Fields, name: Seq<char>, other: Seq<char>)
    ensures
        key_of(other) == key_of(name) ==> value_of(removed(fields, name), other) is None,
        key_of(other) != key_of(name) ==> value_of(removed(fields, name), other) == value_of(
            fields,
            other,
        ),
{
}

/// Why a raw header is turned down, if it is: the name is looked at first, then
/// the unfolded value.
pub open spec fn rejection(raw: RawHeader) -> Option<HeaderError> {
    if !is_ascii_bytes(raw.0) {
        Some(HeaderError::Name(AsciiError))
    } else if !valid_utf8(unfolded(raw.1)) {
        Some(HeaderError::Value(Utf8Error))
    } else {
        None
    }
}

/// The map that a list of raw headers makes, taken one by one from the front:
/// each value is unfolded and decoded, then appended under its name. The first
/// header that is turned down ends it with that header's error.
pub open spec fn taken_in(raw: Seq<RawHeader>) -> Result<Fields, HeaderError>
    decreases raw.len(),
{
    if raw.len() == 0 {
        Ok(Map::empty())
    } else {
        match taken_in(raw.drop_last()) {
            Err(error) => Err(error),
            Ok(fields) => match rejection(raw.last()) {
                Some(error) => Err(error),
                None => Ok(
                    appended(fields, text_of(raw.last().0), decode_utf8(unfolded(raw.last().1))),
                ),
            },
        }
    }
}

/// Once the first `n` raw headers fail, so does the whole list, with their error.
pub proof fn lemma_taken_in_fails_early(raw: Seq<RawHeader>, n: int)
    requires
        0 <= n <= raw.len(),
        taken_in(raw.take(n)) is Err,
    ensures
        taken_in(raw) == taken_in(raw.take(n)),
    decreases raw.len() - n,
{
    if n == raw.len() {
        assert(raw.take(n) =~= raw);
    } else {
        assert(raw.take(n + 1).drop_last() =~= raw.take(n));
        lemma_taken_in_fails_early(raw, n + 1);
    }
}

/// A list of raw headers is taken in exactly when none of them is turned down.
pub proof fn lemma_taken_in_succeeds(raw: Seq<RawHeader>)
    ensures
        taken_in(raw) is Ok <==> forall|i: int| 0 <= i < raw.len() ==> rejection(#[trigger] raw[i]) is None,
    decreases raw.len(),
{
    if raw.len() > 0 {
        let front = raw.drop_last();
        lemma_taken_in_succeeds(front);
        if taken_in(raw) is Ok {
            assert forall|i: int| 0 <= i < raw.len() implies rejection(#[trigger] raw[i]) is None by {
                if i < raw.len() - 1 {
                    assert(raw[i] == front[i]);
                }
            }
        } else if taken_in(front) is Ok {
            assert(rejection(raw[raw.len() - 1]) is Some);
        } else {
            let i = choose|i: int| 0 <= i < front.len() && !(rejection(#[trigger] front[i]) is None);
            assert(raw[i] == front[i]);
        }
    }
}

/// Headers whose names are ASCII and whose values are valid UTF-8 as they stand
/// are always taken in: unfolding does not make a valid value invalid.
pub proof fn lemma_checked_headers_taken_in(raw: Seq<RawHeader>)
    requires
        forall|i: int|
            0 <= i < raw.len() ==> is_ascii_bytes((#[trigger] raw[i]).0) && valid_utf8(raw[i].1),
    ensures
        taken_in(raw) is Ok,
{
    lemma_taken_in_succeeds(raw);
    assert forall|i: int| 0 <= i < raw.len() implies rejection(#[trigger] raw[i]) is None by {
        lemma_unfolded_keeps_utf8(raw[i].1);
    }
}

} // verus!
