//! The header map: from header names, compared without regard to case, to values.

use crate::error::HeaderError;
use crate::folding::unfold_value;
use crate::model::{appended, ascending, inserted, key_at, lemma_listing_unique,
    lemma_listings_same_keys, lemma_taken_in_fails_early, lemma_taken_in_succeeds, listing, lists,
    rejection, removed, separator, taken_in, value_of, Entry, Fields, RawHeader};
use crate::name::HeaderName;
use crate::order::{lemma_order_of, lemma_precedes_transitive, precedes, Order};
use crate::sorted::{belongs_at, fields_of, lemma_absent, lemma_entry_at, lemma_insert_at,
    lemma_lists_own_fields, lemma_remove_at, lemma_update_at};
use crate::value::HeaderValue;
use vstd::prelude::*;
use vstd::std_specs::cmp::PartialEqSpecImpl;

verus! {

/// A collection of headers: at most one value under each name, names being the
/// same when they differ in the case of letters only. The headers are handed out
/// in ascending order of the names' keys, whatever the order they came in.
#[derive(Debug)]
pub struct Headers {
    names: Vec<HeaderName>,
    values: Vec<HeaderValue>,
}

/// A header as it came off the wire: the bytes of its name, and the bytes of its
/// value, which may still hold line folds.
#[derive(Debug, Clone, Copy)]
pub struct HeaderRef<'a> {
    pub name: &'a [u8],
    pub value: &'a [u8],
}

impl<'a> View for HeaderRef<'a> {
    type V = RawHeader;

    open spec fn view(&self) -> RawHeader {
        (self.name@, self.value@)
    }
}

/// What a list of raw headers holds.
pub open spec fn raw_headers(headers: Seq<HeaderRef<'_>>) -> Seq<RawHeader> {
    Seq::new(headers.len(), |i: int| headers[i]@)
}

/// Two maps hold the same keys with the same values; how a name is written does
/// not count.
pub open spec fn same_fields(a: Fields, b: Fields) -> bool {
    &&& a.dom() == b.dom()
    &&& forall|key: Seq<u8>| #[trigger] a.contains_key(key) ==> a[key].1 == b[key].1
}

/// The entries that names and values make, index by index.
spec fn entries_of(names: Seq<HeaderName>, values: Seq<HeaderValue>) -> Seq<Entry> {
    Seq::new(names.len(), |i: int| (names[i]@, values[i]@))
}

impl View for Headers {
    type V = Fields;

    /// The map from each name's key to the name as first written and its value.
    closed spec fn view(&self) -> Fields {
        fields_of(self.entries())
    }
}

impl Headers {
    #[verifier::type_invariant]
    spec fn well_formed(&self) -> bool {
        &&& self.names@.len() == self.values@.len()
        &&& ascending(entries_of(self.names@, self.values@))
    }

    /// The entries as they are stored, in ascending order of their keys.
    closed spec fn entries(&self) -> Seq<Entry> {
        entries_of(self.names@, self.values@)
    }

    /// An empty collection.
    pub fn new() -> (headers: Headers)
        ensures
            headers@ == Map::<Seq<u8>, Entry>::empty(),
    {
        let headers = Headers { names: Vec::new(), values: Vec::new() };
        assert(headers@ =~= Map::<Seq<u8>, Entry>::empty());
        headers
    }

    /// Takes in a list of raw headers, from the front: each value is unfolded and
    /// must then be valid UTF-8, each name must be ASCII, and a name that comes
    /// again has its value appended. The first header that fails ends it.
    pub fn from_headers_ref(headers: &[HeaderRef<'_>]) -> (r: Result<Headers, HeaderError>)
        ensures
            match taken_in(raw_headers(headers@)) {
                Ok(fields) => r matches Ok(taken) && taken@ == fields,
                Err(error) => r matches Err(e) && e == error,
            },
            r is Ok <==> forall|i: int|
                0 <= i < headers@.len() ==> rejection(#[trigger] headers@[i]@) is None,
    {
        let ghost raw = raw_headers(headers@);
        proof {
            lemma_taken_in_succeeds(raw);
            if taken_in(raw) is Ok {
                assert forall|i: int| 0 <= i < headers@.len() implies rejection(
                    #[trigger] headers@[i]@,
                ) is None by {
                    assert(raw[i] == headers@[i]@);
                }
            } else {
                let i = choose|i: int| 0 <= i < raw.len() && !(rejection(#[trigger] raw[i]) is None);
                assert(raw[i] == headers@[i]@);
            }
        }
        let mut owned = Headers::new();
        let mut i: usize = 0;
        assert(raw.take(0) =~= Seq::<RawHeader>::empty());
        while i < headers.len()
            invariant
                i <= headers.len(),
                raw == raw_headers(headers@),
                taken_in(raw.take(i as int)) == Ok::<Fields, HeaderError>(owned@),
                taken_in(raw) is Ok <==> forall|i: int|
                    0 <= i < headers@.len() ==> rejection(#[trigger] headers@[i]@) is None,
            decreases headers.len() - i,
        {
            let header = &headers[i];
            proof {
                assert(raw.take(i + 1).drop_last() =~= raw.take(i as int));
                assert(raw.take(i + 1).last() == header@);
                if i + 1 == headers.len() {
                    assert(raw.take(i + 1) =~= raw);
                }
            }
            let name = match HeaderName::try_from(header.name) {
                Ok(name) => name,
                Err(error) => {
                    proof {
                        lemma_taken_in_fails_early(raw, i + 1);
                    }
                    return Err(HeaderError::Name(error));
                },
            };
            let value = match HeaderValue::try_from(unfold_value(header.value)) {
                Ok(value) => value,
                Err(error) => {
                    proof {
                        lemma_taken_in_fails_early(raw, i + 1);
                    }
                    return Err(HeaderError::Value(error));
                },
            };
            owned.append(name, value);
            i += 1;
        }
        assert(raw.take(i as int) =~= raw);
        Ok(owned)
    }

    /// Searches for the name's key: the index where it stands, or else the index
    /// where it belongs.
    fn find(&self, name: &HeaderName) -> (r: (usize, bool))
        ensures
            r.1 ==> r.0 < self.entries().len() && key_at(self.entries(), r.0 as int) == name.key(),
            !r.1 ==> belongs_at(self.entries(), name.key(), r.0 as int),
    {
        proof {
            use_type_invariant(self);
        }
        let ghost entries = self.entries();
        let ghost key = name.key();
        let mut low: usize = 0;
        let mut high: usize = self.names.len();
        while low < high
            invariant
                low <= high <= self.names@.len(),
                self.names@.len() == self.values@.len(),
                entries == entries_of(self.names@, self.values@),
                ascending(entries),
                key == name.key(),
                forall|i: int| 0 <= i < low ==> precedes(#[trigger] key_at(entries, i), key),
                forall|i: int| high <= i < entries.len() ==> precedes(key, #[trigger] key_at(entries, i)),
            decreases high - low,
        {
            let middle = low + (high - low) / 2;
            let ghost here = key_at(entries, middle as int);
            proof {
                lemma_order_of(here, key);
            }
            match self.names[middle].compare(name) {
                Order::Less => {
                    assert forall|i: int| 0 <= i < middle + 1 implies precedes(
                        #[trigger] key_at(entries, i),
                        key,
                    ) by {
                        if i < middle {
                            assert(precedes(key_at(entries, i), key_at(entries, middle as int)));
                            lemma_precedes_transitive(key_at(entries, i), here, key);
                        }
                    }
                    low = middle + 1;
                },
                Order::Greater => {
                    assert forall|i: int| middle <= i < entries.len() implies precedes(
                        key,
                        #[trigger] key_at(entries, i),
                    ) by {
                        if middle < i {
                            assert(precedes(key_at(entries, middle as int), key_at(entries, i)));
                            lemma_precedes_transitive(key, here, key_at(entries, i));
                        }
                    }
                    high = middle;
                },
                Order::Equal => {
                    return (middle, true);
                },
            }
        }
        (low, false)
    }

    /// The value under `name`, if there is one.
    pub fn get(&self, name: &HeaderName) -> (r: Option<&HeaderValue>)
        ensures
            match value_of(self@, name@) {
                Some(text) => r matches Some(value) && value@ == text,
                None => r is None,
            },
    {
        proof {
            use_type_invariant(self);
        }
        let (at, found) = self.find(name);
        if found {
            proof {
                lemma_entry_at(self.entries(), at as int);
            }
            Some(&self.values[at])
        } else {
            proof {
                lemma_absent(self.entries(), name.key(), at as int);
            }
            None
        }
    }

    /// The value under `name`, if there is one, to be changed in place. The map
    /// ends up with whatever value is left there; nothing else in it changes.
    pub fn get_mut(&mut self, name: &HeaderName) -> (r: Option<&mut HeaderValue>)
        ensures
            match value_of(old(self)@, name@) {
                Some(text) => r matches Some(value) && value@ == text && final(self)@ == inserted(
                    old(self)@,
                    name@,
                    final(value)@,
                ),
                None => r is None && final(self)@ == old(self)@,
            },
    {
        proof {
            use_type_invariant(&*self);
        }
        let (at, found) = self.find(name);
        if found {
            let ghost entries = self.entries();
            let ghost names = self.names@;
            let ghost values = self.values@;
            proof {
                lemma_entry_at(entries, at as int);
                assert forall|value: HeaderValue| #[trigger]
                    ascending(entries_of(names, values.update(at as int, value))) && fields_of(
                        entries_of(names, values.update(at as int, value)),
                    ) == inserted(fields_of(entries), name@, value@) by {
                    lemma_update_at(entries, at as int, value@);
                    assert(entries_of(names, values.update(at as int, value)) =~= entries.update(
                        at as int,
                        (entries[at as int].0, value@),
                    ));
                }
            }
            Some(&mut self.values[at])
        } else {
            proof {
                lemma_absent(self.entries(), name.key(), at as int);
            }
            None
        }
    }

    /// Sets the value under `name`, in place of the value that was there, if any.
    pub fn insert(&mut self, name: HeaderName, value: HeaderValue)
        ensures
            final(self)@ == inserted(old(self)@, name@, value@),
    {
        let (at, found) = self.find(&name);
        let mut held = Headers::new();
        std::mem::swap(self, &mut held);
        proof {
            use_type_invariant(&held);
        }
        let ghost entries = held.entries();
        let Headers { mut names, mut values } = held;
        if found {
            proof {
                lemma_entry_at(entries, at as int);
                lemma_update_at(entries, at as int, value@);
                assert(entries_of(names@, values@.update(at as int, value)) =~= entries.update(
                    at as int,
                    (entries[at as int].0, value@),
                ));
            }
            values[at] = value;
        } else {
            proof {
                lemma_absent(entries, name.key(), at as int);
                lemma_insert_at(entries, at as int, (name@, value@));
                assert(entries_of(names@.insert(at as int, name), values@.insert(at as int, value))
                    =~= entries.insert(at as int, (name@, value@)));
            }
            names.insert(at, name);
            values.insert(at, value);
        }
        *self = Headers { names, values };
    }

    /// Adds a value under `name`: behind the value that is there, after a comma
    /// and a space, or as the value where there is none yet.
    pub fn append(&mut self, name: HeaderName, value: HeaderValue)
        ensures
            final(self)@ == appended(old(self)@, name@, value@),
    {
        let (at, found) = self.find(&name);
        let mut held = Headers::new();
        std::mem::swap(self, &mut held);
        proof {
            use_type_invariant(&held);
        }
        let ghost entries = held.entries();
        let Headers { mut names, mut values } = held;
        if found {
            let ghost joined = entries[at as int].1 + separator() + value@;
            proof {
                reveal_strlit(", ");
                assert(", "@ =~= separator());
                lemma_entry_at(entries, at as int);
                lemma_update_at(entries, at as int, joined);
            }
            values[at].push_str(", ");
            values[at].push_str(value.as_str());
            proof {
                assert(values@[at as int]@ == joined);
                assert(entries_of(names@, values@) =~= entries.update(
                    at as int,
                    (entries[at as int].0, joined),
                ));
            }
        } else {
            proof {
                lemma_absent(entries, name.key(), at as int);
                lemma_insert_at(entries, at as int, (name@, value@));
                assert(entries_of(names@.insert(at as int, name), values@.insert(at as int, value))
                    =~= entries.insert(at as int, (name@, value@)));
            }
            names.insert(at, name);
            values.insert(at, value);
        }
        *self = Headers { names, values };
    }

    /// Takes out the entry under `name`, if there is one.
    pub fn remove(&mut self, name: &HeaderName)
        ensures
            final(self)@ == removed(old(self)@, name@),
    {
        let (at, found) = self.find(name);
        if found {
            let mut held = Headers::new();
            std::mem::swap(self, &mut held);
            proof {
                use_type_invariant(&held);
            }
            let ghost entries = held.entries();
            let Headers { mut names, mut values } = held;
            proof {
                lemma_remove_at(entries, at as int);
                assert(entries_of(names@.remove(at as int), values@.remove(at as int))
                    =~= entries.remove(at as int));
            }
            names.remove(at);
            values.remove(at);
            *self = Headers { names, values };
        } else {
            proof {
                lemma_absent(self.entries(), name.key(), at as int);
                assert(self@.remove(name.key()) =~= self@);
            }
        }
    }

    /// All names with their values, in ascending order of the names' keys.
    pub fn iter(&self) -> (r: Vec<(&HeaderName, &HeaderValue)>)
        ensures
            lists(listing(self@), self@),
            r@.len() == listing(self@).len(),
            forall|i: int| 0 <= i < r@.len() ==> (r@[i].0@, r@[i].1@) == listing(self@)[i],
    {
        proof {
            use_type_invariant(self);
            lemma_lists_own_fields(self.entries());
            lemma_listing_unique(self.entries(), listing(self@), self@);
        }
        let mut out: Vec<(&HeaderName, &HeaderValue)> = Vec::with_capacity(self.names.len());
        let mut i: usize = 0;
        while i < self.names.len()
            invariant
                i <= self.names@.len(),
                self.names@.len() == self.values@.len(),
                out@.len() == i,
                forall|j: int|
                    0 <= j < i ==> out@[j].0 == self.names@[j] && out@[j].1 == self.values@[j],
            decreases self.names@.len() - i,
        {
            out.push((&self.names[i], &self.values[i]));
            i += 1;
        }
        out
    }

    /// All names, in ascending order of their keys.
    pub fn names(&self) -> (r: Vec<&HeaderName>)
        ensures
            lists(listing(self@), self@),
            r@.len() == listing(self@).len(),
            forall|i: int| 0 <= i < r@.len() ==> r@[i]@ == listing(self@)[i].0,
    {
        proof {
            use_type_invariant(self);
            lemma_lists_own_fields(self.entries());
            lemma_listing_unique(self.entries(), listing(self@), self@);
        }
        let mut out: Vec<&HeaderName> = Vec::with_capacity(self.names.len());
        let mut i: usize = 0;
        while i < self.names.len()
            invariant
                i <= self.names@.len(),
                out@.len() == i,
                forall|j: int| 0 <= j < i ==> out@[j] == self.names@[j],
            decreases self.names@.len() - i,
        {
            out.push(&self.names[i]);
            i += 1;
        }
        out
    }

    /// All values, in ascending order of the keys of their names.
    pub fn values(&self) -> (r: Vec<&HeaderValue>)
        ensures
            lists(listing(self@), self@),
            r@.len() == listing(self@).len(),
            forall|i: int| 0 <= i < r@.len() ==> r@[i]@ == listing(self@)[i].1,
    {
        proof {
            use_type_invariant(self);
            lemma_lists_own_fields(self.entries());
            lemma_listing_unique(self.entries(), listing(self@), self@);
        }
        let mut out: Vec<&HeaderValue> = Vec::with_capacity(self.values.len());
        let mut i: usize = 0;
        while i < self.values.len()
            invariant
                i <= self.values@.len(),
                out@.len() == i,
                forall|j: int| 0 <= j < i ==> out@[j] == self.values@[j],
            decreases self.values@.len() - i,
        {
            out.push(&self.values[i]);
            i += 1;
        }
        out
    }
}

impl Clone for Headers {
    fn clone(&self) -> (r: Self)
        ensures
            r@ == self@,
    {
        proof {
            use_type_invariant(self);
        }
        let mut names: Vec<HeaderName> = Vec::with_capacity(self.names.len());
        let mut values: Vec<HeaderValue> = Vec::with_capacity(self.values.len());
        let mut i: usize = 0;
        while i < self.names.len()
            invariant
                i <= self.names@.len(),
                self.names@.len() == self.values@.len(),
                names@.len() == i,
                values@.len() == i,
                forall|j: int|
                    0 <= j < i ==> names@[j]@ == self.names@[j]@ && values@[j]@ == self.values@[j]@,
            decreases self.names@.len() - i,
        {
            names.push(self.names[i].clone());
            values.push(self.values[i].clone());
            i += 1;
        }
        assert(entries_of(names@, values@) =~= self.entries());
        Headers { names, values }
    }
}

/// Collections are equal when they hold the same names, compared without regard
/// to case, with equal values.
impl PartialEq for Headers {
    fn eq(&self, other: &Self) -> (r: bool) {
        proof {
            use_type_invariant(self);
            use_type_invariant(other);
            lemma_lists_own_fields(self.entries());
            lemma_lists_own_fields(other.entries());
            if self@.dom() == other@.dom() {
                lemma_listings_same_keys(self.entries(), other.entries(), self@, other@);
            }
        }
        if self.names.len() != other.names.len() {
            return false;
        }
        let mut i: usize = 0;
        while i < self.names.len()
            invariant
                i <= self.names@.len(),
                self.names@.len() == self.values@.len(),
                other.names@.len() == other.values@.len(),
                self.names@.len() == other.names@.len(),
                lists(self.entries(), self@),
                lists(other.entries(), other@),
                self.entries() == entries_of(self.names@, self.values@),
                other.entries() == entries_of(other.names@, other.values@),
                self@.dom() == other@.dom() ==> forall|j: int|
                    0 <= j < self.names@.len() ==> key_at(self.entries(), j) == key_at(
                        other.entries(),
                        j,
                    ),
                forall|j: int|
                    0 <= j < i ==> #[trigger] key_at(self.entries(), j) == key_at(other.entries(), j),
                forall|j: int|
                    0 <= j < i ==> (#[trigger] self.entries()[j]).1 == other.entries()[j].1,
            decreases self.names@.len() - i,
        {
            if !(self.names[i] == other.names[i]) || !(self.values[i] == other.values[i]) {
                proof {
                    let mine = self.entries();
                    let theirs = other.entries();
                    let key = key_at(mine, i as int);
                    assert(self@.contains_key(key) && self@[key] == mine[i as int]);
                    if same_fields(self@, other@) {
                        assert(key_at(theirs, i as int) == key);
                        assert(other@[key] == theirs[i as int]);
                    }
                }
                return false;
            }
            proof {
                assert(self.entries()[i as int] == (self.names@[i as int]@, self.values@[i as int]@));
                assert(other.entries()[i as int] == (
                    other.names@[i as int]@,
                    other.values@[i as int]@,
                ));
            }
            i += 1;
        }
        proof {
            let mine = self.entries();
            let theirs = other.entries();
            assert forall|key: Seq<u8>| #[trigger] self@.contains_key(key) implies other@.contains_key(
                key,
            ) && self@[key].1 == other@[key].1 by {
                let j = choose|j: int| 0 <= j < mine.len() && key_at(mine, j) == key;
                assert(key_at(theirs, j) == key);
            }
            assert forall|key: Seq<u8>| #[trigger] other@.contains_key(key) implies self@.contains_key(
                key,
            ) by {
                let j = choose|j: int| 0 <= j < theirs.len() && key_at(theirs, j) == key;
                assert(key_at(mine, j) == key);
            }
            assert(self@.dom() =~= other@.dom());
        }
        true
    }
}

impl PartialEqSpecImpl for Headers {
    open spec fn obeys_eq_spec() -> bool {
        true
    }

    open spec fn eq_spec(&self, other: &Self) -> bool {
        same_fields(self@, other@)
    }
}

impl Eq for Headers {

}

impl AsRef<Headers> for Headers {
    fn as_ref(&self) -> (r: &Headers)
        ensures
            r == self,
    {
        self
    }
}

impl AsMut<Headers> for Headers {
    fn as_mut(&mut self) -> (r: &mut Headers)
        ensures
            *r == *old(self),
            *final(self) == *final(r),
    {
        self
    }
}

} // verus!
