//! Sets of collected values (URLs, hosts, e-mail addresses, dependencies,
//! ...), each value with the places where it was seen.

use vstd::prelude::*;

use indexmap::IndexMap;

use crate::collections::{
    add_record, key_index, lemma_key_index, record_entries, record_map_get_index, record_map_len,
    record_map_new, record_map_push, registry_entries, registry_map_contains_key, registry_map_get,
    registry_map_index_of, registry_map_insert, registry_map_new, registry_map_shift_insert,
    registry_map_shift_remove_index,
};
use crate::estree::location::SourceArrayLocation;
use crate::json::{clone_fields, fields_same, JsonValue};
use crate::probe::opt_view;
use crate::text::{to_string, view_strings};

verus! {

/// The places where a value was seen in one file.
pub struct CollectableLocation {
    pub file: Option<String>,
    pub location: Vec<SourceArrayLocation>,
    pub metadata: Option<Vec<(String, JsonValue)>>,
}

/// A collected value with the places where it was seen.
pub struct CollectableEntry {
    pub value: String,
    pub locations: Vec<CollectableLocation>,
}

/// A set of collected values as plain data.
pub struct CollectableSetData {
    pub collectable_type: String,
    pub entries: Vec<CollectableEntry>,
}

/// One sighting of a value.
pub struct CollectableRecord {
    pub file: Option<String>,
    pub location: SourceArrayLocation,
    pub metadata: Option<Vec<(String, JsonValue)>>,
}

/// Two metadata objects hold the same fields.
pub open spec fn metadata_same(
    a: Option<Vec<(String, JsonValue)>>,
    b: Option<Vec<(String, JsonValue)>>,
) -> bool {
    match (a, b) {
        (Some(x), Some(y)) => fields_same(x@, y@),
        (None, None) => true,
        _ => false,
    }
}

/// Two sightings hold the same data.
pub open spec fn record_same(a: CollectableRecord, b: CollectableRecord) -> bool {
    &&& opt_view(a.file) == opt_view(b.file)
    &&& a.location == b.location
    &&& metadata_same(a.metadata, b.metadata)
}

/// Two lists of sightings hold the same data, in the same order.
pub open spec fn records_same(a: Seq<CollectableRecord>, b: Seq<CollectableRecord>) -> bool {
    a.len() == b.len() && forall|i: int| 0 <= i < a.len() ==> record_same(#[trigger] a[i], b[i])
}

/// Two sets of entries hold the same values with the same sightings, in
/// the same order.
pub open spec fn entries_same(
    a: Seq<(Seq<char>, Seq<CollectableRecord>)>,
    b: Seq<(Seq<char>, Seq<CollectableRecord>)>,
) -> bool {
    a.len() == b.len() && forall|i: int|
        0 <= i < a.len() ==> #[trigger] a[i].0 == b[i].0 && records_same(a[i].1, b[i].1)
}

/// The collected values, in the order they were first seen.
pub open spec fn entry_keys(entries: Seq<(Seq<char>, Seq<CollectableRecord>)>) -> Seq<Seq<char>> {
    entries.map_values(|e: (Seq<char>, Seq<CollectableRecord>)| e.0)
}

/// The plain form of one sighting: its file, its one location, its
/// metadata.
pub open spec fn location_of_record(l: CollectableLocation, rec: CollectableRecord) -> bool {
    &&& opt_view(l.file) == opt_view(rec.file)
    &&& l.location@ == seq![rec.location]
    &&& metadata_same(rec.metadata, l.metadata)
}

/// The plain form of a set's entries.
pub open spec fn data_of_entries(
    data: Seq<CollectableEntry>,
    entries: Seq<(Seq<char>, Seq<CollectableRecord>)>,
) -> bool {
    &&& data.len() == entries.len()
    &&& forall|i: int|
        0 <= i < data.len() ==> {
            &&& #[trigger] data[i].value@ == entries[i].0
            &&& data[i].locations@.len() == entries[i].1.len()
            &&& forall|j: int|
                0 <= j < entries[i].1.len() ==> location_of_record(
                    #[trigger] data[i].locations@[j],
                    entries[i].1[j],
                )
        }
}

/// The entries after the sightings at `points` of `key`, in one file.
pub open spec fn merge_points(
    acc: Seq<(Seq<char>, Seq<CollectableRecord>)>,
    key: Seq<char>,
    file: Option<String>,
    points: Seq<SourceArrayLocation>,
    metadata: Option<Vec<(String, JsonValue)>>,
) -> Seq<(Seq<char>, Seq<CollectableRecord>)>
    decreases points.len(),
{
    if points.len() == 0 {
        acc
    } else {
        merge_points(
            add_record(acc, key, CollectableRecord { file, location: points[0], metadata }),
            key,
            file,
            points.drop_first(),
            metadata,
        )
    }
}

/// The entries after the sightings of `key` in each of its files.
pub open spec fn merge_locations(
    acc: Seq<(Seq<char>, Seq<CollectableRecord>)>,
    key: Seq<char>,
    locations: Seq<CollectableLocation>,
) -> Seq<(Seq<char>, Seq<CollectableRecord>)>
    decreases locations.len(),
{
    if locations.len() == 0 {
        acc
    } else {
        merge_locations(
            merge_points(acc, key, locations[0].file, locations[0].location@, locations[0].metadata),
            key,
            locations.drop_first(),
        )
    }
}

/// The entries after the sightings of the values of `data`, in order.
pub open spec fn merge_entries(
    acc: Seq<(Seq<char>, Seq<CollectableRecord>)>,
    data: Seq<CollectableEntry>,
) -> Seq<(Seq<char>, Seq<CollectableRecord>)>
    decreases data.len(),
{
    if data.len() == 0 {
        acc
    } else {
        merge_entries(merge_locations(acc, data[0].value@, data[0].locations@), data.drop_first())
    }
}

/// A copy of a file name.
fn clone_file(file: &Option<String>) -> (r: Option<String>)
    ensures
        opt_view(r) == opt_view(*file),
{
    match file {
        Some(f) => Some(f.clone()),
        None => None,
    }
}

/// A copy of metadata.
fn clone_metadata(metadata: &Option<Vec<(String, JsonValue)>>) -> (r: Option<Vec<(String, JsonValue)>>)
    ensures
        metadata_same(*metadata, r),
{
    match metadata {
        Some(m) => Some(clone_fields(m)),
        None => None,
    }
}

/// A set of collected values of one type (`url`, `hostname`, `ip`,
/// `email`, `dependency`, or a custom one).
pub struct DefaultCollectableSet {
    /// Each value with its sightings (read it through `values` or
    /// `to_json`).
    pub entries: IndexMap<String, Vec<CollectableRecord>>,
    pub collectable_type: String,
}

impl DefaultCollectableSet {
    /// The values with their sightings, in the order first seen.
    pub open spec fn spec_entries(&self) -> Seq<(Seq<char>, Seq<CollectableRecord>)> {
        record_entries(self.entries)
    }

    /// Distinct values, each seen at least once.
    pub open spec fn wf(&self) -> bool {
        entries_wf(self.spec_entries())
    }

    /// An empty set of a type.
    pub fn new(collectable_type: &str) -> (r: DefaultCollectableSet)
        ensures
            r.wf(),
            r.collectable_type@ == collectable_type@,
            r.spec_entries() == Seq::<(Seq<char>, Seq<CollectableRecord>)>::empty(),
    {
        DefaultCollectableSet { entries: record_map_new(), collectable_type: to_string(collectable_type) }
    }

    /// Records a sighting of a value.
    pub fn add(
        &mut self,
        value: &str,
        file: Option<String>,
        location: SourceArrayLocation,
        metadata: Option<Vec<(String, JsonValue)>>,
    )
        ensures
            final(self).spec_entries() == add_record(
                old(self).spec_entries(),
                value@,
                CollectableRecord { file, location, metadata },
            ),
            final(self).collectable_type == old(self).collectable_type,
            old(self).wf() ==> final(self).wf(),
    {
        proof {
            if old(self).wf() {
                lemma_add_record_wf(old(self).spec_entries(), value@, CollectableRecord { file, location, metadata });
            }
        }
        record_map_push(&mut self.entries, to_string(value), CollectableRecord { file, location, metadata });
    }

    /// The values, in the order first seen.
    pub fn values(&self) -> (r: Vec<String>)
        ensures
            view_strings(r@) == entry_keys(self.spec_entries()),
    {
        let n = record_map_len(&self.entries);
        let mut r: Vec<String> = Vec::new();
        let mut i: usize = 0;
        while i < n
            invariant
                0 <= i <= n,
                n == self.spec_entries().len(),
                r@.len() == i,
                forall|j: int| 0 <= j < i ==> #[trigger] r@[j]@ == self.spec_entries()[j].0,
            decreases n - i,
        {
            let (key, _) = record_map_get_index(&self.entries, i).unwrap();
            r.push(to_string(key.as_str()));
            i = i + 1;
        }
        assert(view_strings(r@) =~= entry_keys(self.spec_entries()));
        r
    }

    /// The set as plain data: each value with one location per sighting.
    pub fn to_json(&self) -> (r: CollectableSetData)
        ensures
            r.collectable_type@ == self.collectable_type@,
            data_of_entries(r.entries@, self.spec_entries()),
    {
        let n = record_map_len(&self.entries);
        let ghost entries = self.spec_entries();
        let mut out: Vec<CollectableEntry> = Vec::new();
        let mut i: usize = 0;
        while i < n
            invariant
                0 <= i <= n,
                n == entries.len(),
                entries == self.spec_entries(),
                out@.len() == i,
                forall|k: int|
                    0 <= k < i ==> {
                        &&& #[trigger] out@[k].value@ == entries[k].0
                        &&& out@[k].locations@.len() == entries[k].1.len()
                        &&& forall|j: int|
                            0 <= j < entries[k].1.len() ==> location_of_record(
                                #[trigger] out@[k].locations@[j],
                                entries[k].1[j],
                            )
                    },
            decreases n - i,
        {
            let (key, records) = record_map_get_index(&self.entries, i).unwrap();
            let mut locations: Vec<CollectableLocation> = Vec::new();
            let mut j: usize = 0;
            while j < records.len()
                invariant
                    0 <= j <= records@.len(),
                    records@ == entries[i as int].1,
                    locations@.len() == j,
                    forall|m: int|
                        0 <= m < j ==> location_of_record(#[trigger] locations@[m], records@[m]),
                decreases records.len() - j,
            {
                let record = &records[j];
                let mut points: Vec<SourceArrayLocation> = Vec::new();
                points.push(record.location);
                assert(points@ =~= seq![record.location]);
                locations.push(
                    CollectableLocation {
                        file: clone_file(&record.file),
                        location: points,
                        metadata: clone_metadata(&record.metadata),
                    },
                );
                j = j + 1;
            }
            let ghost locs = locations@;
            let ghost before = out@;
            out.push(CollectableEntry { value: to_string(key.as_str()), locations });
            assert forall|k: int| 0 <= k < i + 1 implies {
                &&& #[trigger] out@[k].value@ == entries[k].0
                &&& out@[k].locations@.len() == entries[k].1.len()
                &&& forall|j: int|
                    0 <= j < entries[k].1.len() ==> location_of_record(
                        #[trigger] out@[k].locations@[j],
                        entries[k].1[j],
                    )
            } by {
                if k < i {
                    assert(out@[k] == before[k]);
                } else {
                    assert(out@[k].locations@ == locs);
                    assert forall|j: int| 0 <= j < entries[k].1.len() implies location_of_record(
                        #[trigger] out@[k].locations@[j],
                        entries[k].1[j],
                    ) by {
                        assert(location_of_record(locs[j], records@[j]));
                    }
                }
            }
            i = i + 1;
        }
        CollectableSetData { collectable_type: to_string(self.collectable_type.as_str()), entries: out }
    }
}

/// The same keys find the same positions.
proof fn lemma_key_index_same(
    a: Seq<(Seq<char>, Seq<CollectableRecord>)>,
    b: Seq<(Seq<char>, Seq<CollectableRecord>)>,
    key: Seq<char>,
)
    requires
        a.len() == b.len(),
        forall|i: int| 0 <= i < a.len() ==> #[trigger] a[i].0 == b[i].0,
    ensures
        key_index(a, key) == key_index(b, key),
    decreases a.len(),
{
    if a.len() > 0 {
        lemma_key_index_same(a.drop_last(), b.drop_last(), key);
    }
}

/// Adding the same sighting to entries that hold the same data keeps them
/// holding the same data.
proof fn lemma_add_same(
    a: Seq<(Seq<char>, Seq<CollectableRecord>)>,
    b: Seq<(Seq<char>, Seq<CollectableRecord>)>,
    key: Seq<char>,
    ra: CollectableRecord,
    rb: CollectableRecord,
)
    requires
        entries_same(a, b),
        record_same(ra, rb),
    ensures
        entries_same(add_record(a, key, ra), add_record(b, key, rb)),
{
    lemma_key_index_same(a, b, key);
    lemma_key_index(a, key);
    let a2 = add_record(a, key, ra);
    let b2 = add_record(b, key, rb);
    match key_index(a, key) {
        Some(k) => {
            assert forall|i: int| 0 <= i < a2.len() implies #[trigger] a2[i].0 == b2[i].0 && records_same(
                a2[i].1,
                b2[i].1,
            ) by {
                if i == k {
                    assert(records_same(a[k].1, b[k].1));
                    assert forall|j: int| 0 <= j < a2[i].1.len() implies record_same(
                        #[trigger] a2[i].1[j],
                        b2[i].1[j],
                    ) by {
                        if j < a[k].1.len() {
                            assert(record_same(a[k].1[j], b[k].1[j]));
                        }
                    }
                } else {
                    assert(a2[i] == a[i]);
                    assert(b2[i] == b[i]);
                }
            }
        },
        None => {
            assert forall|i: int| 0 <= i < a2.len() implies #[trigger] a2[i].0 == b2[i].0 && records_same(
                a2[i].1,
                b2[i].1,
            ) by {
                if i < a.len() {
                    assert(a2[i] == a[i]);
                    assert(b2[i] == b[i]);
                } else {
                    assert(records_same(a2[i].1, b2[i].1)) by {
                        assert(a2[i].1 =~= seq![ra]);
                        assert(b2[i].1 =~= seq![rb]);
                    }
                }
            }
        },
    }
}

/// Entries hold the same data as themselves.
proof fn lemma_entries_same_refl(a: Seq<(Seq<char>, Seq<CollectableRecord>)>)
    ensures
        entries_same(a, a),
{
    assert forall|i: int| 0 <= i < a.len() implies records_same(#[trigger] a[i].1, a[i].1) by {
        assert forall|j: int| 0 <= j < a[i].1.len() implies record_same(#[trigger] a[i].1[j], a[i].1[j]) by {
            lemma_metadata_same_refl(a[i].1[j].metadata);
        }
    }
}

/// Metadata holds the same fields as itself.
proof fn lemma_metadata_same_refl(m: Option<Vec<(String, JsonValue)>>)
    ensures
        metadata_same(m, m),
{
    if let Some(f) = m {
        crate::json::lemma_fields_same_refl(f@);
    }
}

impl DefaultCollectableSet {
    /// Records every sighting of plain data, value after value, file after
    /// file, location after location.
    pub fn merge_data(&mut self, data: &CollectableSetData)
        ensures
            entries_same(merge_entries(old(self).spec_entries(), data.entries@), final(self).spec_entries()),
            final(self).collectable_type == old(self).collectable_type,
            old(self).wf() ==> final(self).wf(),
    {
        let ghost e0 = self.spec_entries();
        let ghost mut cur = e0;
        proof {
            lemma_entries_same_refl(e0);
            assert(data.entries@.skip(0) =~= data.entries@);
        }
        let mut i: usize = 0;
        while i < data.entries.len()
            invariant
                0 <= i <= data.entries@.len(),
                merge_entries(e0, data.entries@) == merge_entries(cur, data.entries@.skip(i as int)),
                entries_same(cur, self.spec_entries()),
                self.collectable_type == old(self).collectable_type,
                old(self).wf() ==> self.wf(),
            decreases data.entries.len() - i,
        {
            let entry = &data.entries[i];
            let ghost key = entry.value@;
            let ghost locs = entry.locations@;
            let ghost start = cur;
            proof {
                assert(data.entries@.skip(i as int)[0] == *entry);
                assert(data.entries@.skip(i as int).drop_first() =~= data.entries@.skip(i + 1));
                assert(locs.skip(0) =~= locs);
            }
            let mut j: usize = 0;
            while j < entry.locations.len()
                invariant
                    0 <= j <= locs.len(),
                    locs == entry.locations@,
                    key == entry.value@,
                    merge_locations(start, key, locs) == merge_locations(cur, key, locs.skip(j as int)),
                    entries_same(cur, self.spec_entries()),
                    self.collectable_type == old(self).collectable_type,
                    old(self).wf() ==> self.wf(),
                decreases entry.locations.len() - j,
            {
                let place = &entry.locations[j];
                let ghost points = place.location@;
                let ghost start_points = cur;
                proof {
                    assert(locs.skip(j as int)[0] == *place);
                    assert(locs.skip(j as int).drop_first() =~= locs.skip(j + 1));
                    assert(points.skip(0) =~= points);
                }
                let mut k: usize = 0;
                while k < place.location.len()
                    invariant
                        0 <= k <= points.len(),
                        points == place.location@,
                        key == entry.value@,
                        merge_points(start_points, key, place.file, points, place.metadata) == merge_points(
                            cur,
                            key,
                            place.file,
                            points.skip(k as int),
                            place.metadata,
                        ),
                        entries_same(cur, self.spec_entries()),
                        self.collectable_type == old(self).collectable_type,
                        old(self).wf() ==> self.wf(),
                    decreases place.location.len() - k,
                {
                    let file = clone_file(&place.file);
                    let metadata = clone_metadata(&place.metadata);
                    let ghost actual = CollectableRecord { file, location: place.location[k as int], metadata };
                    let ghost wanted = CollectableRecord {
                        file: place.file,
                        location: points[k as int],
                        metadata: place.metadata,
                    };
                    let ghost before = self.spec_entries();
                    self.add(entry.value.as_str(), file, place.location[k], metadata);
                    proof {
                        lemma_add_same(cur, before, key, wanted, actual);
                        assert(points.skip(k as int)[0] == points[k as int]);
                        assert(points.skip(k as int).drop_first() =~= points.skip(k + 1));
                        cur = add_record(cur, key, wanted);
                    }
                    k = k + 1;
                }
                proof {
                    assert(points.skip(k as int) =~= Seq::<SourceArrayLocation>::empty());
                }
                j = j + 1;
            }
            proof {
                assert(locs.skip(j as int) =~= Seq::<CollectableLocation>::empty());
            }
            i = i + 1;
        }
        proof {
            assert(data.entries@.skip(i as int) =~= Seq::<CollectableEntry>::empty());
        }
    }

    /// A set rebuilt from plain data.
    pub fn from_json(data: &CollectableSetData) -> (r: DefaultCollectableSet)
        ensures
            r.wf(),
            r.collectable_type@ == data.collectable_type@,
            entries_same(
                merge_entries(Seq::<(Seq<char>, Seq<CollectableRecord>)>::empty(), data.entries@),
                r.spec_entries(),
            ),
    {
        let mut set = DefaultCollectableSet::new(data.collectable_type.as_str());
        set.merge_data(data);
        set
    }
}

/// No two entries have the same value.
pub open spec fn keys_unique(entries: Seq<(Seq<char>, Seq<CollectableRecord>)>) -> bool {
    forall|i: int, j: int| 0 <= i < j < entries.len() ==> #[trigger] entries[i].0 != #[trigger] entries[j].0
}

/// What a set's entries always satisfy: distinct values, each seen at
/// least once.
pub open spec fn entries_wf(entries: Seq<(Seq<char>, Seq<CollectableRecord>)>) -> bool {
    &&& keys_unique(entries)
    &&& forall|i: int| 0 <= i < entries.len() ==> #[trigger] entries[i].1.len() > 0
}

/// The sighting that the plain form of a location stands for.
pub open spec fn record_of_location(l: CollectableLocation, point: SourceArrayLocation) -> CollectableRecord {
    CollectableRecord { file: l.file, location: point, metadata: l.metadata }
}

/// A sighting added to well-formed entries keeps them well-formed.
pub proof fn lemma_add_record_wf(
    entries: Seq<(Seq<char>, Seq<CollectableRecord>)>,
    key: Seq<char>,
    record: CollectableRecord,
)
    requires
        entries_wf(entries),
    ensures
        entries_wf(add_record(entries, key, record)),
{
    lemma_key_index(entries, key);
    let e2 = add_record(entries, key, record);
    match key_index(entries, key) {
        Some(k) => {
            assert forall|i: int, j: int| 0 <= i < j < e2.len() implies #[trigger] e2[i].0 != #[trigger] e2[j].0 by {
                assert(entries[i].0 != entries[j].0);
            }
            assert forall|i: int| 0 <= i < e2.len() implies #[trigger] e2[i].1.len() > 0 by {
                if i != k {
                    assert(e2[i] == entries[i]);
                }
            }
        },
        None => {
            assert forall|i: int, j: int| 0 <= i < j < e2.len() implies #[trigger] e2[i].0 != #[trigger] e2[j].0 by {
                if j < entries.len() {
                    assert(entries[i].0 != entries[j].0);
                }
            }
            assert forall|i: int| 0 <= i < e2.len() implies #[trigger] e2[i].1.len() > 0 by {
                if i < entries.len() {
                    assert(e2[i] == entries[i]);
                }
            }
        },
    }
}

/// Merging the locations of a value already held last, one point each,
/// appends their sightings to it.
proof fn lemma_merge_held(
    t: Seq<(Seq<char>, Seq<CollectableRecord>)>,
    key: Seq<char>,
    held: Seq<CollectableRecord>,
    rest: Seq<CollectableRecord>,
    acc: Seq<(Seq<char>, Seq<CollectableRecord>)>,
    locations: Seq<CollectableLocation>,
)
    requires
        keys_unique(t.push((key, held))),
        entries_same(t.push((key, held)), acc),
        locations.len() == rest.len(),
        forall|j: int| 0 <= j < rest.len() ==> location_of_record(#[trigger] locations[j], rest[j]),
    ensures
        entries_same(t.push((key, held + rest)), merge_locations(acc, key, locations)),
    decreases locations.len(),
{
    let full = t.push((key, held));
    if locations.len() == 0 {
        assert(held + rest =~= held);
    } else {
        let l0 = locations[0];
        let rec = record_of_location(l0, rest[0].location);
        assert(location_of_record(l0, rest[0]));
        assert(l0.location@ =~= seq![rest[0].location]);
        assert(merge_points(acc, key, l0.file, l0.location@, l0.metadata) == add_record(acc, key, rec)) by {
            reveal_with_fuel(merge_points, 2);
            assert(l0.location@.drop_first() =~= Seq::<SourceArrayLocation>::empty());
        }
        let last = full.len() - 1;
        assert(key_index(full, key) == Some(last)) by {
            lemma_key_index(full, key);
            if let Some(i) = key_index(full, key) {
                if i < last {
                    assert(full[i].0 != full[last].0);
                }
            }
        }
        assert forall|i: int| 0 <= i < full.len() implies #[trigger] full[i].0 == acc[i].0 by {}
        lemma_key_index_same(full, acc, key);
        let acc1 = add_record(acc, key, rec);
        let held1 = held.push(rest[0]);
        let full1 = t.push((key, held1));
        assert(record_same(rest[0], rec));
        assert(acc1 == acc.update(last, (key, acc[last].1.push(rec))));
        assert(acc1.len() == full1.len());
        assert(entries_same(full1, acc1)) by {
            assert forall|i: int| 0 <= i < full1.len() implies #[trigger] full1[i].0 == acc1[i].0
                && records_same(full1[i].1, acc1[i].1) by {
                if i < last {
                    assert(full1[i] == full[i]);
                    assert(acc1[i] == acc[i]);
                } else {
                    assert(full[last].0 == acc[last].0);
                    assert(records_same(full[last].1, acc[last].1));
                    assert(full1[i].1 == held1);
                    assert(acc1[i].1 == acc[last].1.push(rec));
                    assert forall|j: int| 0 <= j < full1[i].1.len() implies record_same(
                        #[trigger] full1[i].1[j],
                        acc1[i].1[j],
                    ) by {
                        if j < held.len() {
                            assert(record_same(full[last].1[j], acc[last].1[j]));
                        }
                    }
                }
            }
        }
        assert(keys_unique(full1)) by {
            assert forall|i: int, j: int| 0 <= i < j < full1.len() implies #[trigger] full1[i].0
                != #[trigger] full1[j].0 by {
                assert(full[i].0 != full[j].0);
            }
        }
        assert forall|j: int| 0 <= j < rest.drop_first().len() implies location_of_record(
            #[trigger] locations.drop_first()[j],
            rest.drop_first()[j],
        ) by {
            assert(location_of_record(locations[j + 1], rest[j + 1]));
        }
        lemma_merge_held(t, key, held1, rest.drop_first(), acc1, locations.drop_first());
        assert(held1 + rest.drop_first() =~= held + rest);
    }
}

/// Merging the locations of a value not held yet adds it last, with its
/// sightings.
proof fn lemma_merge_fresh(
    t: Seq<(Seq<char>, Seq<CollectableRecord>)>,
    key: Seq<char>,
    records: Seq<CollectableRecord>,
    acc: Seq<(Seq<char>, Seq<CollectableRecord>)>,
    locations: Seq<CollectableLocation>,
)
    requires
        keys_unique(t),
        forall|i: int| 0 <= i < t.len() ==> #[trigger] t[i].0 != key,
        entries_same(t, acc),
        records.len() > 0,
        locations.len() == records.len(),
        forall|j: int| 0 <= j < records.len() ==> location_of_record(#[trigger] locations[j], records[j]),
    ensures
        entries_same(t.push((key, records)), merge_locations(acc, key, locations)),
{
    let l0 = locations[0];
    let rec = record_of_location(l0, records[0].location);
    assert(location_of_record(l0, records[0]));
    assert(l0.location@ =~= seq![records[0].location]);
    assert(merge_points(acc, key, l0.file, l0.location@, l0.metadata) == add_record(acc, key, rec)) by {
        reveal_with_fuel(merge_points, 2);
        assert(l0.location@.drop_first() =~= Seq::<SourceArrayLocation>::empty());
    }
    assert forall|i: int| 0 <= i < t.len() implies #[trigger] t[i].0 == acc[i].0 by {}
    lemma_key_index_same(t, acc, key);
    lemma_key_index(t, key);
    let acc1 = add_record(acc, key, rec);
    let held = seq![records[0]];
    let full = t.push((key, held));
    assert(entries_same(full, acc1)) by {
        assert forall|i: int| 0 <= i < full.len() implies #[trigger] full[i].0 == acc1[i].0 && records_same(
            full[i].1,
            acc1[i].1,
        ) by {
            if i < t.len() {
                assert(full[i] == t[i]);
                assert(acc1[i] == acc[i]);
            } else {
                assert(acc1[i].1 =~= seq![rec]);
            }
        }
    }
    assert(keys_unique(full)) by {
        assert forall|i: int, j: int| 0 <= i < j < full.len() implies #[trigger] full[i].0 != #[trigger] full[j].0 by {
            if j < t.len() {
                assert(t[i].0 != t[j].0);
            }
        }
    }
    assert forall|j: int| 0 <= j < records.drop_first().len() implies location_of_record(
        #[trigger] locations.drop_first()[j],
        records.drop_first()[j],
    ) by {
        assert(location_of_record(locations[j + 1], records[j + 1]));
    }
    lemma_merge_held(t, key, held, records.drop_first(), acc1, locations.drop_first());
    assert(held + records.drop_first() =~= records);
}

/// Merging the plain form of the entries from `i` on, into entries that
/// hold those before `i`, rebuilds all of them.
proof fn lemma_merge_rebuilds(
    entries: Seq<(Seq<char>, Seq<CollectableRecord>)>,
    data: Seq<CollectableEntry>,
    i: int,
    acc: Seq<(Seq<char>, Seq<CollectableRecord>)>,
)
    requires
        entries_wf(entries),
        data_of_entries(data, entries),
        0 <= i <= entries.len(),
        entries_same(entries.take(i), acc),
    ensures
        entries_same(entries, merge_entries(acc, data.skip(i))),
    decreases entries.len() - i,
{
    if i == entries.len() {
        assert(entries.take(i) =~= entries);
        assert(data.skip(i) =~= Seq::<CollectableEntry>::empty());
    } else {
        let t = entries.take(i);
        let key = entries[i].0;
        assert(data[i].value@ == key);
        assert forall|k: int| 0 <= k < t.len() implies #[trigger] t[k].0 != key by {
            assert(entries[k].0 != entries[i].0);
        }
        assert(keys_unique(t)) by {
            assert forall|a: int, b: int| 0 <= a < b < t.len() implies #[trigger] t[a].0 != #[trigger] t[b].0 by {
                assert(entries[a].0 != entries[b].0);
            }
        }
        assert(entries[i].1.len() > 0);
        assert forall|j: int| 0 <= j < entries[i].1.len() implies location_of_record(
            #[trigger] data[i].locations@[j],
            entries[i].1[j],
        ) by {}
        lemma_merge_fresh(t, key, entries[i].1, acc, data[i].locations@);
        assert(t.push((key, entries[i].1)) =~= entries.take(i + 1));
        assert(data.skip(i)[0] == data[i]);
        assert(data.skip(i).drop_first() =~= data.skip(i + 1));
        lemma_merge_rebuilds(entries, data, i + 1, merge_locations(acc, key, data[i].locations@));
    }
}

/// Rebuilding a set from its plain form gives back its values, in order,
/// each with its sightings in order.
pub proof fn lemma_json_roundtrip(entries: Seq<(Seq<char>, Seq<CollectableRecord>)>, data: Seq<CollectableEntry>)
    requires
        entries_wf(entries),
        data_of_entries(data, entries),
    ensures
        entries_same(entries, merge_entries(Seq::<(Seq<char>, Seq<CollectableRecord>)>::empty(), data)),
{
    assert(entries.take(0) =~= Seq::<(Seq<char>, Seq<CollectableRecord>)>::empty());
    assert(data.skip(0) =~= data);
    lemma_merge_rebuilds(entries, data, 0, Seq::<(Seq<char>, Seq<CollectableRecord>)>::empty());
}

/// Two plain locations hold the same data.
pub open spec fn location_same(a: CollectableLocation, b: CollectableLocation) -> bool {
    &&& opt_view(a.file) == opt_view(b.file)
    &&& a.location@ == b.location@
    &&& metadata_same(a.metadata, b.metadata)
}

/// Two plain forms of a set's entries hold the same values, in order, each
/// with the same locations, in order.
pub open spec fn data_same(a: Seq<CollectableEntry>, b: Seq<CollectableEntry>) -> bool {
    &&& a.len() == b.len()
    &&& forall|i: int|
        0 <= i < a.len() ==> {
            &&& (#[trigger] a[i]).value@ == b[i].value@
            &&& a[i].locations@.len() == b[i].locations@.len()
            &&& forall|j: int|
                0 <= j < a[i].locations@.len() ==> location_same(
                    #[trigger] a[i].locations@[j],
                    b[i].locations@[j],
                )
        }
}

proof fn lemma_metadata_same_sym_trans(
    a: Option<Vec<(String, JsonValue)>>,
    b: Option<Vec<(String, JsonValue)>>,
    c: Option<Vec<(String, JsonValue)>>,
)
    ensures
        metadata_same(a, b) ==> metadata_same(b, a),
        metadata_same(a, b) && metadata_same(b, c) ==> metadata_same(a, c),
{
    match (a, b, c) {
        (Some(x), Some(y), Some(z)) => crate::json::lemma_fields_same_sym_trans(x@, y@, z@),
        (Some(x), Some(y), None) => crate::json::lemma_fields_same_sym_trans(x@, y@, y@),
        _ => {},
    }
}

/// Writing a set as plain data, rebuilding a set from it and writing that
/// one again gives the same plain data: the same values in the same order,
/// each with the same file, location and metadata per sighting.
pub proof fn lemma_to_json_from_json(
    entries: Seq<(Seq<char>, Seq<CollectableRecord>)>,
    data: Seq<CollectableEntry>,
    rebuilt: Seq<(Seq<char>, Seq<CollectableRecord>)>,
    data_again: Seq<CollectableEntry>,
)
    requires
        entries_wf(entries),
        data_of_entries(data, entries),
        entries_same(merge_entries(Seq::<(Seq<char>, Seq<CollectableRecord>)>::empty(), data), rebuilt),
        data_of_entries(data_again, rebuilt),
    ensures
        data_same(data, data_again),
{
    let merged = merge_entries(Seq::<(Seq<char>, Seq<CollectableRecord>)>::empty(), data);
    lemma_json_roundtrip(entries, data);
    assert forall|i: int| 0 <= i < data.len() implies {
        &&& (#[trigger] data[i]).value@ == data_again[i].value@
        &&& data[i].locations@.len() == data_again[i].locations@.len()
        &&& forall|j: int|
            0 <= j < data[i].locations@.len() ==> location_same(
                #[trigger] data[i].locations@[j],
                data_again[i].locations@[j],
            )
    } by {
        assert(entries_same(entries, merged));
        assert(i < entries.len());
        assert(entries[i].0 == merged[i].0);
        assert(records_same(entries[i].1, merged[i].1));
        assert(merged[i].0 == rebuilt[i].0 && records_same(merged[i].1, rebuilt[i].1));
        assert(data[i].value@ == entries[i].0);
        assert(data_again[i].value@ == rebuilt[i].0);
        assert forall|j: int| 0 <= j < data[i].locations@.len() implies location_same(
            #[trigger] data[i].locations@[j],
            data_again[i].locations@[j],
        ) by {
            let l1 = data[i].locations@[j];
            let l2 = data_again[i].locations@[j];
            let r1 = entries[i].1[j];
            let rm = merged[i].1[j];
            let r2 = rebuilt[i].1[j];
            assert(location_of_record(l1, r1));
            assert(record_same(r1, rm));
            assert(record_same(rm, r2));
            assert(location_of_record(l2, r2));
            lemma_metadata_same_sym_trans(r1.metadata, l1.metadata, l1.metadata);
            lemma_metadata_same_sym_trans(l1.metadata, r1.metadata, rm.metadata);
            lemma_metadata_same_sym_trans(l1.metadata, rm.metadata, r2.metadata);
            lemma_metadata_same_sym_trans(l1.metadata, r2.metadata, l2.metadata);
        }
    }
}

/// The registry's entries after a set is registered under its type: it
/// replaces a set of the same type where it stands, or comes last.
pub open spec fn register(
    entries: Seq<(Seq<char>, DefaultCollectableSet)>,
    set: DefaultCollectableSet,
) -> Seq<(Seq<char>, DefaultCollectableSet)> {
    match key_index(entries, set.collectable_type@) {
        Some(i) => entries.update(i, (set.collectable_type@, set)),
        None => entries.push((set.collectable_type@, set)),
    }
}

/// The registry's entries after the sets are registered in order.
pub open spec fn register_all(
    entries: Seq<(Seq<char>, DefaultCollectableSet)>,
    sets: Seq<DefaultCollectableSet>,
) -> Seq<(Seq<char>, DefaultCollectableSet)>
    decreases sets.len(),
{
    if sets.len() == 0 {
        entries
    } else {
        register(register_all(entries, sets.drop_last()), sets.last())
    }
}

/// The sighting a registry records: its metadata, or empty metadata.
pub open spec fn registry_record(
    record: CollectableRecord,
    file: Option<String>,
    location: SourceArrayLocation,
    metadata: Option<Vec<(String, JsonValue)>>,
) -> bool {
    &&& record.file == file
    &&& record.location == location
    &&& match metadata {
        Some(m) => record.metadata == Some(m),
        None => record.metadata matches Some(v) && v@.len() == 0,
    }
}

/// The collectable sets of an analysis, by type.
pub struct CollectableSetRegistry {
    pub sets: IndexMap<String, DefaultCollectableSet>,
}

impl CollectableSetRegistry {
    /// The sets by type, in the order registered.
    pub open spec fn spec_sets(&self) -> Seq<(Seq<char>, DefaultCollectableSet)> {
        registry_entries(self.sets)
    }

    /// A registry of the sets, each under its type (a later set replacing
    /// an earlier one of the same type).
    pub fn new(collectable_sets: Vec<DefaultCollectableSet>) -> (r: CollectableSetRegistry)
        ensures
            r.spec_sets() == register_all(Seq::<(Seq<char>, DefaultCollectableSet)>::empty(), collectable_sets@),
    {
        let ghost sets = collectable_sets@;
        let n = collectable_sets.len();
        let mut rest = collectable_sets;
        let mut rev: Vec<DefaultCollectableSet> = Vec::new();
        while rest.len() > 0
            invariant
                rest@ == sets.take(rest@.len() as int),
                n == sets.len(),
                rev@.len() + rest@.len() == n,
                forall|j: int| 0 <= j < rev@.len() ==> #[trigger] rev@[j] == sets[n - 1 - j],
            decreases rest@.len(),
        {
            let set = rest.pop().unwrap();
            assert(rest@ =~= sets.take(rest@.len() as int));
            rev.push(set);
        }
        let mut map = registry_map_new();
        let mut i: usize = 0;
        while rev.len() > 0
            invariant
                n == sets.len(),
                i + rev@.len() == n,
                forall|j: int| 0 <= j < rev@.len() ==> #[trigger] rev@[j] == sets[n - 1 - j],
                registry_entries(map) == register_all(
                    Seq::<(Seq<char>, DefaultCollectableSet)>::empty(),
                    sets.take(i as int),
                ),
            decreases rev@.len(),
        {
            let set = rev.pop().unwrap();
            assert(set == sets[i as int]);
            assert(sets.take(i + 1).drop_last() =~= sets.take(i as int));
            let key = to_string(set.collectable_type.as_str());
            let _ = registry_map_insert(&mut map, key, set);
            i = i + 1;
        }
        assert(sets.take(n as int) =~= sets);
        CollectableSetRegistry { sets: map }
    }

    /// Records a sighting in the set of a type, when there is one; with no
    /// metadata, the sighting gets empty metadata.
    pub fn add(
        &mut self,
        collectable_type: &str,
        value: &str,
        file: Option<String>,
        location: SourceArrayLocation,
        metadata: Option<Vec<(String, JsonValue)>>,
    )
        ensures
            match key_index(old(self).spec_sets(), collectable_type@) {
                Some(i) => {
                    &&& final(self).spec_sets().len() == old(self).spec_sets().len()
                    &&& forall|j: int|
                        0 <= j < old(self).spec_sets().len() && j != i ==> #[trigger] final(self).spec_sets()[j]
                            == old(self).spec_sets()[j]
                    &&& final(self).spec_sets()[i].0 == collectable_type@
                    &&& final(self).spec_sets()[i].1.collectable_type == old(self).spec_sets()[i].1.collectable_type
                    &&& exists|record: CollectableRecord|
                        registry_record(record, file, location, metadata)
                            && final(self).spec_sets()[i].1.spec_entries() == add_record(
                            old(self).spec_sets()[i].1.spec_entries(),
                            value@,
                            record,
                        )
                },
                None => final(self).spec_sets() == old(self).spec_sets(),
            },
    {
        let index = match registry_map_index_of(&self.sets, collectable_type) {
            Some(i) => i,
            None => {
                return;
            },
        };
        let ghost before = self.spec_sets();
        proof {
            lemma_key_index(before, collectable_type@);
        }
        let (key, mut set) = registry_map_shift_remove_index(&mut self.sets, index).unwrap();
        let meta = match metadata {
            Some(m) => Some(m),
            None => Some(Vec::new()),
        };
        let ghost record = CollectableRecord { file, location, metadata: meta };
        set.add(value, file, location, meta);
        registry_map_shift_insert(&mut self.sets, index, key, set);
        proof {
            let after = self.spec_sets();
            assert forall|j: int| 0 <= j < before.len() && j != index implies #[trigger] after[j] == before[j] by {
                if j < index {
                } else {
                    assert(after[j] == before.remove(index as int)[j - 1]);
                }
            }
            assert(registry_record(record, file, location, metadata));
            assert(after[index as int].1 == set);
            assert(after[index as int].1.spec_entries() == add_record(
                before[index as int].1.spec_entries(),
                value@,
                record,
            ));
            assert(before == old(self).spec_sets());
            assert(after.len() == before.len());
            assert(after[index as int].0 == collectable_type@);
            assert(after[index as int].1.collectable_type == before[index as int].1.collectable_type);
            assert(exists|rec: CollectableRecord|
                registry_record(rec, file, location, metadata)
                    && after[index as int].1.spec_entries() == add_record(
                    before[index as int].1.spec_entries(),
                    value@,
                    rec,
                ));
        }
    }

    /// Whether a set of the type is registered.
    pub fn has(&self, collectable_type: &str) -> (r: bool)
        ensures
            r == key_index(self.spec_sets(), collectable_type@) is Some,
    {
        registry_map_contains_key(&self.sets, collectable_type)
    }

    /// The set of a type.
    pub fn get(&self, collectable_type: &str) -> (r: Option<&DefaultCollectableSet>)
        ensures
            match key_index(self.spec_sets(), collectable_type@) {
                Some(i) => r == Some(&self.spec_sets()[i].1),
                None => r is None,
            },
    {
        registry_map_get(&self.sets, collectable_type)
    }
}

} // verus!
