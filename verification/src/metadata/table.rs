//! Table metadata: the schemas, partition specs, sort orders, snapshots and
//! references of a table, and the lookups among them.
//!
//! JSON values that the metadata carries through without reading them are held as
//! JSON text; maps keyed by text are held as lists of entries with distinct keys.
use vstd::prelude::*;
use crate::text::{str_eq, ends_with, has_suffix};
use super::schema::Schema;
use super::snapshot::{Snapshot, SnapshotLogEntry, SnapshotRef};
use super::spec::{PartitionSpec, SortOrder};

verus! {

/// An entry of the metadata log.
#[derive(Debug, Clone, PartialEq, Eq)]
pub struct MetadataLogEntry {
    /// When the metadata file was written
    pub timestamp_ms: i64,
    /// Path to the metadata file
    pub metadata_file: String,
}

/// Blob metadata of a statistics file.
#[derive(Debug)]
pub struct BlobMetadata {
    pub blob_type: String,
    pub snapshot_id: i64,
    pub sequence_number: i64,
    pub fields: Vec<i32>,
    /// Other properties, their values as JSON text
    pub properties: Vec<(String, String)>,
}

/// A statistics file of a snapshot.
#[derive(Debug)]
pub struct StatisticsFile {
    pub snapshot_id: i64,
    pub statistics_path: String,
    pub file_size_in_bytes: i64,
    pub file_footer_size_in_bytes: i64,
    pub blob_metadata: Vec<BlobMetadata>,
}

/// A partition statistics file of a snapshot.
#[derive(Debug, Clone, PartialEq, Eq)]
pub struct PartitionStatisticsFile {
    pub snapshot_id: i64,
    pub statistics_path: String,
    pub file_size_in_bytes: i64,
}

/// The metadata of a table.
#[derive(Debug)]
pub struct TableMetadata {
    /// Format version (1, 2, or 3)
    pub format_version: i32,
    pub table_uuid: String,
    pub location: String,
    pub last_sequence_number: i64,
    pub last_updated_ms: i64,
    pub last_column_id: i32,
    pub current_schema_id: i32,
    /// All schemas (format version 2 on)
    pub schemas: Vec<Schema>,
    /// The single schema of format version 1
    pub schema: Option<Schema>,
    pub default_spec_id: i32,
    pub partition_specs: Vec<PartitionSpec>,
    /// The single partition spec of format version 1, its fields as JSON text
    pub partition_spec: Option<Vec<String>>,
    pub last_partition_id: i32,
    pub default_sort_order_id: i32,
    pub sort_orders: Vec<SortOrder>,
    /// Table properties, keys distinct
    pub properties: Vec<(String, String)>,
    /// Current snapshot ID
    pub current_snapshot_id: Option<i64>,
    pub snapshots: Vec<Snapshot>,
    pub snapshot_log: Vec<SnapshotLogEntry>,
    pub metadata_log: Vec<MetadataLogEntry>,
    /// Branches and tags by name, names distinct
    pub refs: Vec<(String, SnapshotRef)>,
    pub statistics: Vec<StatisticsFile>,
    pub partition_statistics: Vec<PartitionStatisticsFile>,
    /// Next row ID (format version 3 on, for row lineage)
    pub next_row_id: Option<i64>,
    /// The location this metadata was read from
    pub metadata_location: Option<String>,
}

/// The position of the first item whose key is `k`.
pub open spec fn first_key<T>(items: Seq<T>, key: spec_fn(T) -> int, k: int) -> Option<int>
    decreases items.len(),
{
    if items.len() == 0 {
        None
    } else if key(items[0]) == k {
        Some(0)
    } else {
        match first_key(items.drop_first(), key, k) {
            Some(i) => Some(i + 1),
            None => None,
        }
    }
}

proof fn lemma_first_key<T>(items: Seq<T>, key: spec_fn(T) -> int, k: int)
    ensures
        first_key(items, key, k) matches Some(i) ==> 0 <= i < items.len() && key(items[i]) == k && forall|j: int|
            0 <= j < i ==> key(items[j]) != k,
        first_key(items, key, k) is None ==> forall|j: int| 0 <= j < items.len() ==> key(items[j]) != k,
    decreases items.len(),
{
    if items.len() > 0 && key(items[0]) != k {
        lemma_first_key(items.drop_first(), key, k);
        assert forall|j: int| 1 <= j < items.len() implies items[j] == items.drop_first()[j - 1] by {}
    }
}

/// The key of a schema.
pub open spec fn schema_key() -> spec_fn(Schema) -> int {
    |s: Schema| s.schema_id as int
}

/// The key of a partition spec.
pub open spec fn spec_key() -> spec_fn(PartitionSpec) -> int {
    |s: PartitionSpec| s.spec_id as int
}

/// The key of a sort order.
pub open spec fn order_key() -> spec_fn(SortOrder) -> int {
    |s: SortOrder| s.order_id as int
}

/// The key of a snapshot.
pub open spec fn snapshot_key() -> spec_fn(Snapshot) -> int {
    |s: Snapshot| s.snapshot_id as int
}

/// The index of the first entry with the key.
pub open spec fn entry_position<V>(entries: Seq<(String, V)>, key: Seq<char>) -> Option<int>
    decreases entries.len(),
{
    if entries.len() == 0 {
        None
    } else if entries[0].0@ == key {
        Some(0)
    } else {
        match entry_position(entries.drop_first(), key) {
            Some(i) => Some(i + 1),
            None => None,
        }
    }
}

proof fn lemma_entry_position<V>(entries: Seq<(String, V)>, key: Seq<char>)
    ensures
        entry_position(entries, key) matches Some(i) ==> 0 <= i < entries.len() && entries[i].0@ == key,
    decreases entries.len(),
{
    if entries.len() > 0 && entries[0].0@ != key {
        lemma_entry_position(entries.drop_first(), key);
    }
}

fn position_of_schema(items: &Vec<Schema>, id: i32) -> (r: Option<usize>)
    ensures
        match r {
            Some(i) => first_key(items@, schema_key(), id as int) == Some(i as int),
            None => first_key(items@, schema_key(), id as int) is None,
        },
{
    let mut i: usize = 0;
    assert(items@.skip(0) =~= items@);
    while i < items.len()
        invariant
            i <= items.len(),
            first_key(items@, schema_key(), id as int) == match first_key(items@.skip(i as int), schema_key(), id as int) {
                Some(j) => Some(j + i),
                None => None,
            },
        decreases items.len() - i,
    {
        assert(items@.skip(i as int)[0] == items@[i as int]);
        assert(items@.skip(i as int).drop_first() =~= items@.skip(i + 1));
        if items[i].schema_id == id {
            return Some(i);
        }
        i = i + 1;
    }
    assert(items@.skip(i as int) =~= Seq::<Schema>::empty());
    None
}

fn position_of_spec(items: &Vec<PartitionSpec>, id: i32) -> (r: Option<usize>)
    ensures
        match r {
            Some(i) => first_key(items@, spec_key(), id as int) == Some(i as int),
            None => first_key(items@, spec_key(), id as int) is None,
        },
{
    let mut i: usize = 0;
    assert(items@.skip(0) =~= items@);
    while i < items.len()
        invariant
            i <= items.len(),
            first_key(items@, spec_key(), id as int) == match first_key(items@.skip(i as int), spec_key(), id as int) {
                Some(j) => Some(j + i),
                None => None,
            },
        decreases items.len() - i,
    {
        assert(items@.skip(i as int)[0] == items@[i as int]);
        assert(items@.skip(i as int).drop_first() =~= items@.skip(i + 1));
        if items[i].spec_id == id {
            return Some(i);
        }
        i = i + 1;
    }
    assert(items@.skip(i as int) =~= Seq::<PartitionSpec>::empty());
    None
}

fn position_of_order(items: &Vec<SortOrder>, id: i32) -> (r: Option<usize>)
    ensures
        match r {
            Some(i) => first_key(items@, order_key(), id as int) == Some(i as int),
            None => first_key(items@, order_key(), id as int) is None,
        },
{
    let mut i: usize = 0;
    assert(items@.skip(0) =~= items@);
    while i < items.len()
        invariant
            i <= items.len(),
            first_key(items@, order_key(), id as int) == match first_key(items@.skip(i as int), order_key(), id as int) {
                Some(j) => Some(j + i),
                None => None,
            },
        decreases items.len() - i,
    {
        assert(items@.skip(i as int)[0] == items@[i as int]);
        assert(items@.skip(i as int).drop_first() =~= items@.skip(i + 1));
        if items[i].order_id == id {
            return Some(i);
        }
        i = i + 1;
    }
    assert(items@.skip(i as int) =~= Seq::<SortOrder>::empty());
    None
}

fn position_of_snapshot(items: &Vec<Snapshot>, id: i64) -> (r: Option<usize>)
    ensures
        match r {
            Some(i) => first_key(items@, snapshot_key(), id as int) == Some(i as int),
            None => first_key(items@, snapshot_key(), id as int) is None,
        },
{
    let mut i: usize = 0;
    assert(items@.skip(0) =~= items@);
    while i < items.len()
        invariant
            i <= items.len(),
            first_key(items@, snapshot_key(), id as int) == match first_key(
                items@.skip(i as int),
                snapshot_key(),
                id as int,
            ) {
                Some(j) => Some(j + i),
                None => None,
            },
        decreases items.len() - i,
    {
        assert(items@.skip(i as int)[0] == items@[i as int]);
        assert(items@.skip(i as int).drop_first() =~= items@.skip(i + 1));
        if items[i].snapshot_id == id {
            return Some(i);
        }
        i = i + 1;
    }
    assert(items@.skip(i as int) =~= Seq::<Snapshot>::empty());
    None
}

fn position_of_entry<V>(entries: &Vec<(String, V)>, key: &str) -> (r: Option<usize>)
    ensures
        match r {
            Some(i) => entry_position(entries@, key@) == Some(i as int),
            None => entry_position(entries@, key@) is None,
        },
{
    let mut i: usize = 0;
    assert(entries@.skip(0) =~= entries@);
    while i < entries.len()
        invariant
            i <= entries.len(),
            entry_position(entries@, key@) == match entry_position(entries@.skip(i as int), key@) {
                Some(j) => Some(j + i),
                None => None,
            },
        decreases entries.len() - i,
    {
        assert(entries@.skip(i as int)[0] == entries@[i as int]);
        assert(entries@.skip(i as int).drop_first() =~= entries@.skip(i + 1));
        if str_eq(entries[i].0.as_str(), key) {
            return Some(i);
        }
        i = i + 1;
    }
    assert(entries@.skip(i as int) =~= Seq::<(String, V)>::empty());
    None
}

/// Whether a found reference is to the item expected.
pub open spec fn found_ref<T>(r: Option<&T>, v: Option<T>) -> bool {
    match (r, v) {
        (Some(a), Some(b)) => *a == b,
        (None, None) => true,
        _ => false,
    }
}

/// The item at a position found, if one was.
pub open spec fn item_at<T>(items: Seq<T>, at: Option<int>) -> Option<T> {
    match at {
        Some(i) => Some(items[i]),
        None => None,
    }
}

impl TableMetadata {
    /// The schema with the current schema ID when there is a list of schemas, else
    /// the single schema of format version 1.
    pub fn current_schema(&self) -> (r: Option<&Schema>)
        ensures
            found_ref(
                r,
                if self.schemas@.len() > 0 {
                    item_at(self.schemas@, first_key(self.schemas@, schema_key(), self.current_schema_id as int))
                } else {
                    self.schema
                },
            ),
    {
        proof {
            lemma_first_key(self.schemas@, schema_key(), self.current_schema_id as int);
        }
        if self.schemas.len() > 0 {
            return match position_of_schema(&self.schemas, self.current_schema_id) {
                Some(i) => Some(&self.schemas[i]),
                None => None,
            };
        }
        match &self.schema {
            Some(s) => Some(s),
            None => None,
        }
    }

    /// The partition spec with the default spec ID.
    pub fn current_spec(&self) -> (r: Option<&PartitionSpec>)
        ensures
            found_ref(r, item_at(self.partition_specs@, first_key(self.partition_specs@, spec_key(), self.default_spec_id as int))),
    {
        self.spec(self.default_spec_id)
    }

    /// The sort order with the default sort order ID.
    pub fn current_sort_order(&self) -> (r: Option<&SortOrder>)
        ensures
            found_ref(r, item_at(self.sort_orders@, first_key(self.sort_orders@, order_key(), self.default_sort_order_id as int))),
    {
        self.sort_order(self.default_sort_order_id)
    }

    /// The snapshot with the current snapshot ID, if there is one.
    pub fn current_snapshot(&self) -> (r: Option<&Snapshot>)
        ensures
            found_ref(
                r,
                match self.current_snapshot_id {
                    Some(id) => item_at(self.snapshots@, first_key(self.snapshots@, snapshot_key(), id as int)),
                    None => None,
                },
            ),
    {
        match self.current_snapshot_id {
            Some(id) => self.snapshot(id),
            None => None,
        }
    }

    /// The first snapshot with the ID.
    pub fn snapshot(&self, id: i64) -> (r: Option<&Snapshot>)
        ensures
            found_ref(r, item_at(self.snapshots@, first_key(self.snapshots@, snapshot_key(), id as int))),
    {
        proof {
            lemma_first_key(self.snapshots@, snapshot_key(), id as int);
        }
        match position_of_snapshot(&self.snapshots, id) {
            Some(i) => Some(&self.snapshots[i]),
            None => None,
        }
    }

    /// The first schema in the list with the ID.
    pub fn schema(&self, id: i32) -> (r: Option<&Schema>)
        ensures
            found_ref(r, item_at(self.schemas@, first_key(self.schemas@, schema_key(), id as int))),
    {
        proof {
            lemma_first_key(self.schemas@, schema_key(), id as int);
        }
        match position_of_schema(&self.schemas, id) {
            Some(i) => Some(&self.schemas[i]),
            None => None,
        }
    }

    /// The first partition spec with the ID.
    pub fn spec(&self, id: i32) -> (r: Option<&PartitionSpec>)
        ensures
            found_ref(r, item_at(self.partition_specs@, first_key(self.partition_specs@, spec_key(), id as int))),
    {
        proof {
            lemma_first_key(self.partition_specs@, spec_key(), id as int);
        }
        match position_of_spec(&self.partition_specs, id) {
            Some(i) => Some(&self.partition_specs[i]),
            None => None,
        }
    }

    /// The first sort order with the ID.
    pub fn sort_order(&self, id: i32) -> (r: Option<&SortOrder>)
        ensures
            found_ref(r, item_at(self.sort_orders@, first_key(self.sort_orders@, order_key(), id as int))),
    {
        proof {
            lemma_first_key(self.sort_orders@, order_key(), id as int);
        }
        match position_of_order(&self.sort_orders, id) {
            Some(i) => Some(&self.sort_orders[i]),
            None => None,
        }
    }

    /// The branch or tag with the name.
    pub fn snapshot_ref(&self, name: &str) -> (r: Option<&SnapshotRef>)
        ensures
            r == match entry_position(self.refs@, name@) {
                Some(i) => Some(&self.refs@[i].1),
                None => None,
            },
    {
        proof {
            lemma_entry_position(self.refs@, name@);
        }
        match position_of_entry(&self.refs, name) {
            Some(i) => Some(&self.refs[i].1),
            None => None,
        }
    }

    /// The `main` branch.
    pub fn main_branch(&self) -> (r: Option<&SnapshotRef>)
        ensures
            r == match entry_position(self.refs@, "main"@) {
                Some(i) => Some(&self.refs@[i].1),
                None => None,
            },
    {
        self.snapshot_ref("main")
    }

    /// The value of a property.
    pub fn property(&self, key: &str) -> (r: Option<&str>)
        ensures
            match entry_position(self.properties@, key@) {
                Some(i) => r matches Some(v) && v@ == self.properties@[i].1@,
                None => r is None,
            },
    {
        proof {
            lemma_entry_position(self.properties@, key@);
        }
        match position_of_entry(&self.properties, key) {
            Some(i) => Some(self.properties[i].1.as_str()),
            None => None,
        }
    }

    /// The location this metadata was read from.
    pub fn metadata_location(&self) -> (r: Option<&str>)
        ensures
            match self.metadata_location {
                Some(l) => r matches Some(v) && v@ == l@,
                None => r is None,
            },
    {
        match &self.metadata_location {
            Some(l) => Some(l.as_str()),
            None => None,
        }
    }

    /// Whether the table is of format version 1.
    pub fn is_v1(&self) -> (r: bool)
        ensures
            r == (self.format_version == 1),
    {
        self.format_version == 1
    }

    /// Whether the table is of format version 2.
    pub fn is_v2(&self) -> (r: bool)
        ensures
            r == (self.format_version == 2),
    {
        self.format_version == 2
    }

    /// Whether the table is of format version 3.
    pub fn is_v3(&self) -> (r: bool)
        ensures
            r == (self.format_version == 3),
    {
        self.format_version == 3
    }

    /// Whether row lineage is on: format version 3 or later with a next row ID.
    pub fn has_row_lineage(&self) -> (r: bool)
        ensures
            r == (self.format_version >= 3 && self.next_row_id is Some),
    {
        self.format_version >= 3 && self.next_row_id.is_some()
    }
}

/// Reads and writes table metadata.
pub struct TableMetadataParser;

/// Whether a metadata file is gzip-compressed, by its name.
pub open spec fn gzip_named(path: Seq<char>) -> bool {
    has_suffix(path, ".gz"@) || has_suffix(path, ".metadata.json.gz"@)
}

impl TableMetadataParser {
    /// Whether a metadata file is gzip-compressed: its name ends with `.gz`.
    pub fn is_gzip(path: &str) -> (r: bool)
        ensures
            r == gzip_named(path@),
    {
        ends_with(path, ".gz") || ends_with(path, ".metadata.json.gz")
    }

    /// The metadata, recording where it was read from.
    pub fn with_location(metadata: TableMetadata, location: Option<String>) -> (r: TableMetadata)
        ensures
            r == (TableMetadata { metadata_location: location, ..metadata }),
    {
        TableMetadata { metadata_location: location, ..metadata }
    }
}

} // verus!
