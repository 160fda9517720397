//! The insertion-ordered maps of the `indexmap` crate, as the library uses
//! them: each map is seen as the sequence of its entries in insertion order.

use vstd::prelude::*;

use indexmap::{IndexMap, IndexSet};

use crate::collectable_set::{CollectableRecord, DefaultCollectableSet};
use crate::estree::location::SourceArrayLocation;
use crate::text::view_strings;

verus! {

#[verifier::external_type_specification]
#[verifier::external_body]
#[verifier::reject_recursive_types(K)]
#[verifier::reject_recursive_types(V)]
#[verifier::reject_recursive_types(S)]
pub struct ExIndexMap<K, V, S>(IndexMap<K, V, S>);

#[verifier::external_type_specification]
#[verifier::external_body]
#[verifier::reject_recursive_types(T)]
#[verifier::reject_recursive_types(S)]
pub struct ExIndexSet<T, S>(IndexSet<T, S>);

/// The items of a set of names, in insertion order.
pub uninterp spec fn name_set_items(s: IndexSet<String>) -> Seq<Seq<char>>;

/// The items after inserting `x`: added last unless already there.
pub open spec fn set_insert(items: Seq<Seq<char>>, x: Seq<char>) -> Seq<Seq<char>> {
    if items.contains(x) {
        items
    } else {
        items.push(x)
    }
}

/// `IndexSet::new`: a set with no items.
#[verifier::external_body]
pub(crate) fn name_set_new() -> (s: IndexSet<String>)
    ensures
        name_set_items(s) == Seq::<Seq<char>>::empty(),
{
    IndexSet::new()
}

/// `IndexSet::contains`: whether an item equals `value`.
#[verifier::external_body]
pub(crate) fn name_set_contains(s: &IndexSet<String>, value: &str) -> (r: bool)
    ensures
        r == name_set_items(*s).contains(value@),
{
    s.contains(value)
}

/// `IndexSet::insert`: adds the item last unless an equal one is there, and
/// says whether it added it.
#[verifier::external_body]
pub(crate) fn name_set_insert(s: &mut IndexSet<String>, value: String) -> (r: bool)
    ensures
        name_set_items(*final(s)) == set_insert(name_set_items(*old(s)), value@),
        r == !name_set_items(*old(s)).contains(value@),
{
    s.insert(value)
}

/// `IndexSet::len`: the number of items.
#[verifier::external_body]
pub(crate) fn name_set_len(s: &IndexSet<String>) -> (r: usize)
    ensures
        r == name_set_items(*s).len(),
{
    s.len()
}

/// The entries of a map from a name to a list of names, in insertion order:
/// each key with the list stored under it.
pub uninterp spec fn name_list_entries(m: IndexMap<String, Vec<String>>) -> Seq<
    (Seq<char>, Seq<Seq<char>>),
>;

/// The first position of an entry whose key is `key`.
pub open spec fn key_index<V>(entries: Seq<(Seq<char>, V)>, key: Seq<char>) -> Option<int>
    decreases entries.len(),
{
    if entries.len() == 0 {
        None
    } else {
        match key_index(entries.drop_last(), key) {
            Some(i) => Some(i),
            None => if entries.last().0 == key {
                Some(entries.len() - 1)
            } else {
                None
            },
        }
    }
}

pub proof fn lemma_key_index<V>(entries: Seq<(Seq<char>, V)>, key: Seq<char>)
    ensures
        key_index(entries, key) matches Some(i) ==> 0 <= i < entries.len() && entries[i].0 == key
            && forall|j: int| 0 <= j < i ==> entries[j].0 != key,
        key_index(entries, key) is None ==> forall|j: int|
            0 <= j < entries.len() ==> entries[j].0 != key,
    decreases entries.len(),
{
    if entries.len() > 0 {
        lemma_key_index(entries.drop_last(), key);
        assert forall|j: int| 0 <= j < entries.len() - 1 implies entries[j]
            == entries.drop_last()[j] by {}
    }
}

/// `IndexMap::new`: a map with no entries.
#[verifier::external_body]
pub(crate) fn name_list_new() -> (m: IndexMap<String, Vec<String>>)
    ensures
        name_list_entries(m) == Seq::<(Seq<char>, Seq<Seq<char>>)>::empty(),
{
    IndexMap::new()
}

/// `IndexMap::len`: the number of entries.
#[verifier::external_body]
pub(crate) fn name_list_len(m: &IndexMap<String, Vec<String>>) -> (n: usize)
    ensures
        n == name_list_entries(*m).len(),
{
    m.len()
}

/// `IndexMap::contains_key`: whether some entry has the key.
#[verifier::external_body]
pub(crate) fn name_list_contains_key(m: &IndexMap<String, Vec<String>>, key: &str) -> (r: bool)
    ensures
        r == key_index(name_list_entries(*m), key@) is Some,
{
    m.contains_key(key)
}

/// `IndexMap::get`: the list stored under the key, if an entry has it.
#[verifier::external_body]
pub(crate) fn name_list_get<'a>(
    m: &'a IndexMap<String, Vec<String>>,
    key: &str,
) -> (r: Option<&'a Vec<String>>)
    ensures
        match key_index(name_list_entries(*m), key@) {
            Some(i) => r matches Some(v) && view_strings(v@) == name_list_entries(*m)[i].1,
            None => r is None,
        },
{
    m.get(key)
}

/// `IndexMap::get_index`: the entry at a position, if there is one.
#[verifier::external_body]
pub(crate) fn name_list_get_index(
    m: &IndexMap<String, Vec<String>>,
    index: usize,
) -> (r: Option<(&String, &Vec<String>)>)
    ensures
        index < name_list_entries(*m).len() ==> r is Some && (r->0).0@ == name_list_entries(
            *m,
        )[index as int].0 && view_strings((r->0).1@) == name_list_entries(*m)[index as int].1,
        index >= name_list_entries(*m).len() ==> r is None,
{
    m.get_index(index)
}

/// `IndexMap::insert`: where an entry has the key, its list is replaced in
/// place and the old list handed back; else the entry is added last.
#[verifier::external_body]
pub(crate) fn name_list_insert(
    m: &mut IndexMap<String, Vec<String>>,
    key: String,
    value: Vec<String>,
) -> (r: Option<Vec<String>>)
    ensures
        match key_index(name_list_entries(*old(m)), key@) {
            Some(i) => {
                &&& name_list_entries(*final(m)) == name_list_entries(*old(m)).update(
                    i,
                    (key@, view_strings(value@)),
                )
                &&& r matches Some(v) && view_strings(v@) == name_list_entries(*old(m))[i].1
            },
            None => {
                &&& name_list_entries(*final(m)) == name_list_entries(*old(m)).push(
                    (key@, view_strings(value@)),
                )
                &&& r is None
            },
        },
{
    m.insert(key, value)
}

/// The entries of a map from a name to a count, in insertion order.
pub uninterp spec fn count_entries(m: IndexMap<String, u32>) -> Seq<(Seq<char>, u32)>;

/// `IndexMap::new`: a map with no entries.
#[verifier::external_body]
pub(crate) fn count_map_new() -> (m: IndexMap<String, u32>)
    ensures
        count_entries(m) == Seq::<(Seq<char>, u32)>::empty(),
{
    IndexMap::new()
}

/// `IndexMap::get`: the count stored under the key, if an entry has it.
#[verifier::external_body]
pub(crate) fn count_map_get(m: &IndexMap<String, u32>, key: &str) -> (r: Option<u32>)
    ensures
        match key_index(count_entries(*m), key@) {
            Some(i) => r == Some(count_entries(*m)[i].1),
            None => r is None,
        },
{
    m.get(key).copied()
}

/// `IndexMap::insert`: where an entry has the key, its count is replaced in
/// place; else the entry is added last.
#[verifier::external_body]
pub(crate) fn count_map_insert(m: &mut IndexMap<String, u32>, key: String, value: u32) -> (r: Option<u32>)
    ensures
        match key_index(count_entries(*old(m)), key@) {
            Some(i) => {
                &&& count_entries(*final(m)) == count_entries(*old(m)).update(i, (key@, value))
                &&& r == Some(count_entries(*old(m))[i].1)
            },
            None => {
                &&& count_entries(*final(m)) == count_entries(*old(m)).push((key@, value))
                &&& r is None
            },
        },
{
    m.insert(key, value)
}

/// The entries of a map from a name to the locations where it was seen, in
/// insertion order.
pub uninterp spec fn location_entries(m: IndexMap<String, Vec<SourceArrayLocation>>) -> Seq<
    (Seq<char>, Seq<SourceArrayLocation>),
>;

/// The entries after seeing `key` at `location`: appended to the key's
/// locations, or a new entry added last.
pub open spec fn add_location(
    entries: Seq<(Seq<char>, Seq<SourceArrayLocation>)>,
    key: Seq<char>,
    location: SourceArrayLocation,
) -> Seq<(Seq<char>, Seq<SourceArrayLocation>)> {
    match key_index(entries, key) {
        Some(i) => entries.update(i, (key, entries[i].1.push(location))),
        None => entries.push((key, seq![location])),
    }
}

/// `IndexMap::new`: a map with no entries.
#[verifier::external_body]
pub(crate) fn location_map_new() -> (m: IndexMap<String, Vec<SourceArrayLocation>>)
    ensures
        location_entries(m) == Seq::<(Seq<char>, Seq<SourceArrayLocation>)>::empty(),
{
    IndexMap::new()
}

/// `IndexMap::len`: the number of entries.
#[verifier::external_body]
pub(crate) fn location_map_len(m: &IndexMap<String, Vec<SourceArrayLocation>>) -> (n: usize)
    ensures
        n == location_entries(*m).len(),
{
    m.len()
}

/// `IndexMap::contains_key`: whether some entry has the key.
#[verifier::external_body]
pub(crate) fn location_map_contains_key(m: &IndexMap<String, Vec<SourceArrayLocation>>, key: &str) -> (r: bool)
    ensures
        r == key_index(location_entries(*m), key@) is Some,
{
    m.contains_key(key)
}

/// `IndexMap::entry(key).or_default()`, then `Vec::push` on the list: the
/// location is appended to the key's list, a new empty list being added
/// last where no entry has the key.
#[verifier::external_body]
pub(crate) fn location_map_push(
    m: &mut IndexMap<String, Vec<SourceArrayLocation>>,
    key: String,
    location: SourceArrayLocation,
)
    ensures
        location_entries(*final(m)) == add_location(location_entries(*old(m)), key@, location),
{
    m.entry(key).or_default().push(location)
}

/// `IndexMap::get_index`: the entry at a position, if there is one.
#[verifier::external_body]
pub(crate) fn location_map_get_index(
    m: &IndexMap<String, Vec<SourceArrayLocation>>,
    index: usize,
) -> (r: Option<(&String, &Vec<SourceArrayLocation>)>)
    ensures
        index < location_entries(*m).len() ==> r is Some && (r->0).0@ == location_entries(
            *m,
        )[index as int].0 && (r->0).1@ == location_entries(*m)[index as int].1,
        index >= location_entries(*m).len() ==> r is None,
{
    m.get_index(index)
}

/// The entries of a map from a collected value to its sightings, in
/// insertion order.
pub uninterp spec fn record_entries(m: IndexMap<String, Vec<CollectableRecord>>) -> Seq<
    (Seq<char>, Seq<CollectableRecord>),
>;

/// The entries after one more sighting of `key`: appended to the key's
/// list, or a new entry added last.
pub open spec fn add_record(
    entries: Seq<(Seq<char>, Seq<CollectableRecord>)>,
    key: Seq<char>,
    record: CollectableRecord,
) -> Seq<(Seq<char>, Seq<CollectableRecord>)> {
    match key_index(entries, key) {
        Some(i) => entries.update(i, (key, entries[i].1.push(record))),
        None => entries.push((key, seq![record])),
    }
}

/// `IndexMap::new`: a map with no entries.
#[verifier::external_body]
pub(crate) fn record_map_new() -> (m: IndexMap<String, Vec<CollectableRecord>>)
    ensures
        record_entries(m) == Seq::<(Seq<char>, Seq<CollectableRecord>)>::empty(),
{
    IndexMap::new()
}

/// `IndexMap::len`: the number of entries.
#[verifier::external_body]
pub(crate) fn record_map_len(m: &IndexMap<String, Vec<CollectableRecord>>) -> (n: usize)
    ensures
        n == record_entries(*m).len(),
{
    m.len()
}

/// `IndexMap::entry(key).or_default()`, then `Vec::push` on the list: the
/// record is appended to the key's list, a new empty list being added last
/// where no entry has the key.
#[verifier::external_body]
pub(crate) fn record_map_push(
    m: &mut IndexMap<String, Vec<CollectableRecord>>,
    key: String,
    record: CollectableRecord,
)
    ensures
        record_entries(*final(m)) == add_record(record_entries(*old(m)), key@, record),
{
    m.entry(key).or_default().push(record)
}

/// `IndexMap::get_index`: the entry at a position, if there is one.
#[verifier::external_body]
pub(crate) fn record_map_get_index(
    m: &IndexMap<String, Vec<CollectableRecord>>,
    index: usize,
) -> (r: Option<(&String, &Vec<CollectableRecord>)>)
    ensures
        index < record_entries(*m).len() ==> r is Some && (r->0).0@ == record_entries(
            *m,
        )[index as int].0 && (r->0).1@ == record_entries(*m)[index as int].1,
        index >= record_entries(*m).len() ==> r is None,
{
    m.get_index(index)
}

/// The entries of a map from a type of collected values to its set, in
/// insertion order.
pub uninterp spec fn registry_entries(m: IndexMap<String, DefaultCollectableSet>) -> Seq<
    (Seq<char>, DefaultCollectableSet),
>;

/// `IndexMap::new`: a map with no entries.
#[verifier::external_body]
pub(crate) fn registry_map_new() -> (m: IndexMap<String, DefaultCollectableSet>)
    ensures
        registry_entries(m) == Seq::<(Seq<char>, DefaultCollectableSet)>::empty(),
{
    IndexMap::new()
}

/// `IndexMap::insert`: where an entry has the key, its set is replaced in
/// place and the old set handed back; else the entry is added last.
#[verifier::external_body]
pub(crate) fn registry_map_insert(
    m: &mut IndexMap<String, DefaultCollectableSet>,
    key: String,
    value: DefaultCollectableSet,
) -> (r: Option<DefaultCollectableSet>)
    ensures
        match key_index(registry_entries(*old(m)), key@) {
            Some(i) => {
                &&& registry_entries(*final(m)) == registry_entries(*old(m)).update(i, (key@, value))
                &&& r == Some(registry_entries(*old(m))[i].1)
            },
            None => {
                &&& registry_entries(*final(m)) == registry_entries(*old(m)).push((key@, value))
                &&& r is None
            },
        },
{
    m.insert(key, value)
}

/// `IndexMap::contains_key`: whether some entry has the key.
#[verifier::external_body]
pub(crate) fn registry_map_contains_key(m: &IndexMap<String, DefaultCollectableSet>, key: &str) -> (r: bool)
    ensures
        r == key_index(registry_entries(*m), key@) is Some,
{
    m.contains_key(key)
}

/// `IndexMap::get`: the set stored under the key, if an entry has it.
#[verifier::external_body]
pub(crate) fn registry_map_get<'a>(
    m: &'a IndexMap<String, DefaultCollectableSet>,
    key: &str,
) -> (r: Option<&'a DefaultCollectableSet>)
    ensures
        match key_index(registry_entries(*m), key@) {
            Some(i) => r == Some(&registry_entries(*m)[i].1),
            None => r is None,
        },
{
    m.get(key)
}

/// `IndexMap::get_index_of`: the position of the entry with the key.
#[verifier::external_body]
pub(crate) fn registry_map_index_of(m: &IndexMap<String, DefaultCollectableSet>, key: &str) -> (r: Option<usize>)
    ensures
        match key_index(registry_entries(*m), key@) {
            Some(i) => r is Some && r->0 as int == i,
            None => r is None,
        },
{
    m.get_index_of(key)
}

/// `IndexMap::shift_remove_index`: the entry at a position, taken out with
/// the entries after it moving up one place; no entry is left with its key
/// (the keys of a map are distinct).
#[verifier::external_body]
pub(crate) fn registry_map_shift_remove_index(
    m: &mut IndexMap<String, DefaultCollectableSet>,
    index: usize,
) -> (r: Option<(String, DefaultCollectableSet)>)
    ensures
        index < registry_entries(*old(m)).len() ==> {
            &&& r is Some
            &&& (r->0).0@ == registry_entries(*old(m))[index as int].0
            &&& (r->0).1 == registry_entries(*old(m))[index as int].1
            &&& registry_entries(*final(m)) == registry_entries(*old(m)).remove(index as int)
            &&& key_index(registry_entries(*final(m)), (r->0).0@) is None
        },
        index >= registry_entries(*old(m)).len() ==> r is None && registry_entries(*final(m))
            == registry_entries(*old(m)),
{
    m.shift_remove_index(index)
}

/// `IndexMap::shift_insert` of a key that no entry has: the entry is put at
/// the position, the entries from there on moving down one place.
#[verifier::external_body]
pub(crate) fn registry_map_shift_insert(
    m: &mut IndexMap<String, DefaultCollectableSet>,
    index: usize,
    key: String,
    value: DefaultCollectableSet,
)
    requires
        index <= registry_entries(*old(m)).len(),
        key_index(registry_entries(*old(m)), key@) is None,
    ensures
        registry_entries(*final(m)) == registry_entries(*old(m)).insert(index as int, (key@, value)),
{
    let _ = m.shift_insert(index, key, value);
}

} // verus!
