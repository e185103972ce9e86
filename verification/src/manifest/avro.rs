//! Decoding manifest entries from Avro values.
//!
//! An [`AvroValue`] holds what the decoder reads of an Avro datum: floating-point
//! values by their bit patterns, maps and records as lists of named values, and
//! any kind the decoder does not read as `Other`.
use vstd::prelude::*;
use std::collections::HashMap;
use crate::error::Error;
use crate::text::{str_eq, copy_string, parse_i32, parse_i32_value};
use crate::types::{FileContent, FileFormat, PartitionData, PartitionValue, PartitionValueView, partition_views,
    copy_bytes, format_named};
use super::content_file::{ContentFileData, ContentFileView, bound_bytes, bare_file};
use super::small::{ids_from_vec, offsets_from_vec};
use super::entry::RawManifestEntry;

verus! {

broadcast use vstd::std_specs::hash::group_hash_axioms;

/// An Avro datum.
#[derive(Debug)]
pub enum AvroValue {
    Null,
    Boolean(bool),
    Int(i32),
    Long(i64),
    /// A `float`, by its bit pattern
    Float(u32),
    /// A `double`, by its bit pattern
    Double(u64),
    Bytes(Vec<u8>),
    String(String),
    /// A fixed-size byte array, with its size
    Fixed(usize, Vec<u8>),
    /// A union branch, with its index
    Union(u32, Box<AvroValue>),
    Array(Vec<AvroValue>),
    /// A map, as its entries
    Entries(Vec<(String, AvroValue)>),
    /// A record, as its fields in schema order
    Record(Vec<(String, AvroValue)>),
    /// Days since the epoch
    Date(i32),
    /// Microseconds since the epoch
    TimestampMicros(i64),
    /// The 16 bytes of a UUID
    Uuid([u8; 16]),
    /// A kind that manifest decoding does not read
    Other,
}

// ---------------------------------------------------------------------------
// Scalars
// ---------------------------------------------------------------------------

/// An `int` value, read through unions; a `long` is truncated.
pub open spec fn int_value(v: AvroValue) -> Option<i32>
    decreases v,
{
    match v {
        AvroValue::Int(i) => Some(i),
        AvroValue::Long(l) => Some(l as i32),
        AvroValue::Union(_, inner) => int_value(*inner),
        _ => None,
    }
}

/// An optional `int`: null reads as none.
pub open spec fn optional_int_value(v: AvroValue) -> Option<i32>
    decreases v,
{
    match v {
        AvroValue::Null => None,
        AvroValue::Union(_, inner) => optional_int_value(*inner),
        _ => int_value(v),
    }
}

/// A `long` value, read through unions; an `int` is widened.
pub open spec fn long_value(v: AvroValue) -> Option<i64>
    decreases v,
{
    match v {
        AvroValue::Long(l) => Some(l),
        AvroValue::Int(i) => Some(i as i64),
        AvroValue::Union(_, inner) => long_value(*inner),
        _ => None,
    }
}

/// An optional `long`: null reads as none.
pub open spec fn optional_long_value(v: AvroValue) -> Option<i64>
    decreases v,
{
    match v {
        AvroValue::Null => None,
        AvroValue::Union(_, inner) => optional_long_value(*inner),
        _ => long_value(v),
    }
}

/// A string value, read through unions.
pub open spec fn string_value(v: AvroValue) -> Option<Seq<char>>
    decreases v,
{
    match v {
        AvroValue::String(s) => Some(s@),
        AvroValue::Union(_, inner) => string_value(*inner),
        _ => None,
    }
}

/// An optional string: null reads as none.
pub open spec fn optional_string_value(v: AvroValue) -> Option<Seq<char>>
    decreases v,
{
    match v {
        AvroValue::Null => None,
        AvroValue::Union(_, inner) => optional_string_value(*inner),
        _ => string_value(v),
    }
}

/// A bytes value (bytes or fixed), read through unions.
pub open spec fn bytes_value(v: AvroValue) -> Option<Seq<u8>>
    decreases v,
{
    match v {
        AvroValue::Bytes(b) => Some(b@),
        AvroValue::Fixed(_, b) => Some(b@),
        AvroValue::Union(_, inner) => bytes_value(*inner),
        _ => None,
    }
}

fn extract_int(value: &AvroValue) -> (r: Option<i32>)
    ensures
        r == int_value(*value),
    decreases value,
{
    match value {
        AvroValue::Int(i) => Some(*i),
        AvroValue::Long(l) => Some(*l as i32),
        AvroValue::Union(_, inner) => extract_int(inner),
        _ => None,
    }
}

fn extract_optional_int(value: &AvroValue) -> (r: Option<i32>)
    ensures
        r == optional_int_value(*value),
    decreases value,
{
    match value {
        AvroValue::Null => None,
        AvroValue::Union(_, inner) => extract_optional_int(inner),
        _ => extract_int(value),
    }
}

fn extract_long(value: &AvroValue) -> (r: Option<i64>)
    ensures
        r == long_value(*value),
    decreases value,
{
    match value {
        AvroValue::Long(l) => Some(*l),
        AvroValue::Int(i) => Some(*i as i64),
        AvroValue::Union(_, inner) => extract_long(inner),
        _ => None,
    }
}

fn extract_optional_long(value: &AvroValue) -> (r: Option<i64>)
    ensures
        r == optional_long_value(*value),
    decreases value,
{
    match value {
        AvroValue::Null => None,
        AvroValue::Union(_, inner) => extract_optional_long(inner),
        _ => extract_long(value),
    }
}

fn extract_string(value: &AvroValue) -> (r: Option<String>)
    ensures
        match r {
            Some(s) => string_value(*value) == Some(s@),
            None => string_value(*value) is None,
        },
    decreases value,
{
    match value {
        AvroValue::String(s) => Some(copy_string(s)),
        AvroValue::Union(_, inner) => extract_string(inner),
        _ => None,
    }
}

fn extract_optional_string(value: &AvroValue) -> (r: Option<String>)
    ensures
        match r {
            Some(s) => optional_string_value(*value) == Some(s@),
            None => optional_string_value(*value) is None,
        },
    decreases value,
{
    match value {
        AvroValue::Null => None,
        AvroValue::Union(_, inner) => extract_optional_string(inner),
        _ => extract_string(value),
    }
}

fn extract_bytes(value: &AvroValue) -> (r: Option<Vec<u8>>)
    ensures
        match r {
            Some(b) => bytes_value(*value) == Some(b@),
            None => bytes_value(*value) is None,
        },
    decreases value,
{
    match value {
        AvroValue::Bytes(b) => Some(copy_bytes(b)),
        AvroValue::Fixed(_, b) => Some(copy_bytes(b)),
        AvroValue::Union(_, inner) => extract_bytes(inner),
        _ => None,
    }
}

// ---------------------------------------------------------------------------
// Maps and arrays of statistics
// ---------------------------------------------------------------------------

/// The pair a key-value record holds: the last `key` and `value` fields read as
/// `int` and by `read`.
pub open spec fn record_pair<V>(fields: Seq<(String, AvroValue)>, read: spec_fn(AvroValue) -> Option<V>) -> (
    Option<i32>,
    Option<V>,
)
    decreases fields.len(),
{
    if fields.len() == 0 {
        (None, None)
    } else {
        let (k, v) = record_pair(fields.drop_last(), read);
        let (name, value) = fields.last();
        if name@ == "key"@ {
            (int_value(value), v)
        } else if name@ == "value"@ {
            (k, read(value))
        } else {
            (k, v)
        }
    }
}

/// The statistics of a map: entries whose key is a decimal `int` and whose value
/// reads, later entries taking the place of earlier ones under the same key.
pub open spec fn map_entries<V>(es: Seq<(String, AvroValue)>, read: spec_fn(AvroValue) -> Option<V>) -> Map<i32, V>
    decreases es.len(),
{
    if es.len() == 0 {
        Map::empty()
    } else {
        let m = map_entries(es.drop_last(), read);
        let (k, v) = es.last();
        match (parse_i32_value(k@), read(v)) {
            (Some(key), Some(x)) => m.insert(key, x),
            _ => m,
        }
    }
}

/// The statistics of an array of key-value records, later records taking the place
/// of earlier ones under the same key.
pub open spec fn array_entries<V>(items: Seq<AvroValue>, read: spec_fn(AvroValue) -> Option<V>) -> Map<i32, V>
    decreases items.len(),
{
    if items.len() == 0 {
        Map::empty()
    } else {
        let m = array_entries(items.drop_last(), read);
        match items.last() {
            AvroValue::Record(fields) => match record_pair(fields@, read) {
                (Some(key), Some(x)) => m.insert(key, x),
                _ => m,
            },
            _ => m,
        }
    }
}

/// A map of statistics by column id; none when it reads empty.
pub open spec fn stats_map<V>(v: AvroValue, read: spec_fn(AvroValue) -> Option<V>) -> Option<Map<i32, V>>
    decreases v,
{
    match v {
        AvroValue::Entries(es) => {
            let m = map_entries(es@, read);
            if m.dom().len() == 0 {
                None
            } else {
                Some(m)
            }
        },
        AvroValue::Array(items) => {
            let m = array_entries(items@, read);
            if m.dom().len() == 0 {
                None
            } else {
                Some(m)
            }
        },
        AvroValue::Union(_, inner) => stats_map(*inner, read),
        _ => None,
    }
}

/// Reads a `long` statistic.
pub open spec fn read_long() -> spec_fn(AvroValue) -> Option<i64> {
    |v: AvroValue| long_value(v)
}

/// Reads a bytes statistic.
pub open spec fn read_bytes() -> spec_fn(AvroValue) -> Option<Seq<u8>> {
    |v: AvroValue| bytes_value(v)
}

proof fn lemma_map_entries_finite<V>(es: Seq<(String, AvroValue)>, read: spec_fn(AvroValue) -> Option<V>)
    ensures
        map_entries(es, read).dom().finite(),
    decreases es.len(),
{
    if es.len() > 0 {
        lemma_map_entries_finite(es.drop_last(), read);
    }
}

proof fn lemma_array_entries_finite<V>(items: Seq<AvroValue>, read: spec_fn(AvroValue) -> Option<V>)
    ensures
        array_entries(items, read).dom().finite(),
    decreases items.len(),
{
    if items.len() > 0 {
        lemma_array_entries_finite(items.drop_last(), read);
    }
}

fn pair_of_long_record(fields: &Vec<(String, AvroValue)>) -> (r: (Option<i32>, Option<i64>))
    ensures
        r == record_pair(fields@, read_long()),
{
    let mut key: Option<i32> = None;
    let mut val: Option<i64> = None;
    let mut i: usize = 0;
    while i < fields.len()
        invariant
            i <= fields.len(),
            (key, val) == record_pair(fields@.take(i as int), read_long()),
        decreases fields.len() - i,
    {
        assert(fields@.take(i + 1).drop_last() =~= fields@.take(i as int));
        let (name, v) = &fields[i];
        if str_eq(name.as_str(), "key") {
            key = extract_int(v);
        } else if str_eq(name.as_str(), "value") {
            val = extract_long(v);
        }
        i = i + 1;
    }
    assert(fields@.take(fields.len() as int) =~= fields@);
    (key, val)
}

fn pair_of_bytes_record(fields: &Vec<(String, AvroValue)>) -> (r: (Option<i32>, Option<Vec<u8>>))
    ensures
        (r.0, match r.1 {
            Some(b) => Some(b@),
            None => None,
        }) == record_pair(fields@, read_bytes()),
{
    let mut key: Option<i32> = None;
    let mut val: Option<Vec<u8>> = None;
    let ghost mut vv: Option<Seq<u8>> = None;
    let mut i: usize = 0;
    while i < fields.len()
        invariant
            i <= fields.len(),
            (key, vv) == record_pair(fields@.take(i as int), read_bytes()),
            match val {
                Some(b) => vv == Some(b@),
                None => vv is None,
            },
        decreases fields.len() - i,
    {
        assert(fields@.take(i + 1).drop_last() =~= fields@.take(i as int));
        let (name, v) = &fields[i];
        if str_eq(name.as_str(), "key") {
            key = extract_int(v);
        } else if str_eq(name.as_str(), "value") {
            val = extract_bytes(v);
            proof {
                vv = bytes_value(*v);
            }
        }
        i = i + 1;
    }
    assert(fields@.take(fields.len() as int) =~= fields@);
    (key, val)
}

fn extract_int_long_map(value: &AvroValue) -> (r: Option<HashMap<i32, i64>>)
    ensures
        match r {
            Some(m) => stats_map(*value, read_long()) == Some(m@),
            None => stats_map(*value, read_long()) is None,
        },
    decreases value,
{
    match value {
        AvroValue::Entries(es) => {
            let mut m: HashMap<i32, i64> = HashMap::new();
            let mut i: usize = 0;
            while i < es.len()
                invariant
                    i <= es.len(),
                    m@ == map_entries(es@.take(i as int), read_long()),
                decreases es.len() - i,
            {
                assert(es@.take(i + 1).drop_last() =~= es@.take(i as int));
                let (k, v) = &es[i];
                match (parse_i32(k.as_str()), extract_long(v)) {
                    (Some(key), Some(x)) => {
                        m.insert(key, x);
                    },
                    _ => {},
                }
                i = i + 1;
            }
            assert(es@.take(es.len() as int) =~= es@);
            proof {
                lemma_map_entries_finite(es@, read_long());
            }
            if m.len() == 0 {
                assert(m@.dom().len() == 0);
                None
            } else {
                Some(m)
            }
        },
        AvroValue::Array(items) => {
            let mut m: HashMap<i32, i64> = HashMap::new();
            let mut i: usize = 0;
            while i < items.len()
                invariant
                    i <= items.len(),
                    m@ == array_entries(items@.take(i as int), read_long()),
                decreases items.len() - i,
            {
                assert(items@.take(i + 1).drop_last() =~= items@.take(i as int));
                match &items[i] {
                    AvroValue::Record(fields) => {
                        match pair_of_long_record(fields) {
                            (Some(key), Some(x)) => {
                                m.insert(key, x);
                            },
                            _ => {},
                        }
                    },
                    _ => {},
                }
                i = i + 1;
            }
            assert(items@.take(items.len() as int) =~= items@);
            proof {
                lemma_array_entries_finite(items@, read_long());
            }
            if m.len() == 0 {
                None
            } else {
                Some(m)
            }
        },
        AvroValue::Union(_, inner) => extract_int_long_map(inner),
        _ => None,
    }
}

fn extract_int_bytes_map(value: &AvroValue) -> (r: Option<HashMap<i32, Vec<u8>>>)
    ensures
        match r {
            Some(m) => stats_map(*value, read_bytes()) == Some(bound_bytes(m@)),
            None => stats_map(*value, read_bytes()) is None,
        },
    decreases value,
{
    match value {
        AvroValue::Entries(es) => {
            let mut m: HashMap<i32, Vec<u8>> = HashMap::new();
            let mut i: usize = 0;
            assert(bound_bytes(m@) =~= Map::<i32, Seq<u8>>::empty());
            while i < es.len()
                invariant
                    i <= es.len(),
                    bound_bytes(m@) == map_entries(es@.take(i as int), read_bytes()),
                decreases es.len() - i,
            {
                assert(es@.take(i + 1).drop_last() =~= es@.take(i as int));
                let (k, v) = &es[i];
                match (parse_i32(k.as_str()), extract_bytes(v)) {
                    (Some(key), Some(x)) => {
                        let ghost before = bound_bytes(m@);
                        let ghost xv = x@;
                        m.insert(key, x);
                        assert(bound_bytes(m@) =~= before.insert(key, xv));
                    },
                    _ => {},
                }
                i = i + 1;
            }
            assert(es@.take(es.len() as int) =~= es@);
            proof {
                lemma_map_entries_finite(es@, read_bytes());
            }
            assert(bound_bytes(m@).dom() =~= m@.dom());
            if m.len() == 0 {
                None
            } else {
                Some(m)
            }
        },
        AvroValue::Array(items) => {
            let mut m: HashMap<i32, Vec<u8>> = HashMap::new();
            let mut i: usize = 0;
            assert(bound_bytes(m@) =~= Map::<i32, Seq<u8>>::empty());
            while i < items.len()
                invariant
                    i <= items.len(),
                    bound_bytes(m@) == array_entries(items@.take(i as int), read_bytes()),
                decreases items.len() - i,
            {
                assert(items@.take(i + 1).drop_last() =~= items@.take(i as int));
                match &items[i] {
                    AvroValue::Record(fields) => {
                        let (k, val) = pair_of_bytes_record(fields);
                        match (k, val) {
                            (Some(key), Some(x)) => {
                                let ghost before = bound_bytes(m@);
                                let ghost xv = x@;
                                m.insert(key, x);
                                assert(bound_bytes(m@) =~= before.insert(key, xv));
                            },
                            _ => {},
                        }
                    },
                    _ => {},
                }
                i = i + 1;
            }
            assert(items@.take(items.len() as int) =~= items@);
            proof {
                lemma_array_entries_finite(items@, read_bytes());
            }
            assert(bound_bytes(m@).dom() =~= m@.dom());
            if m.len() == 0 {
                None
            } else {
                Some(m)
            }
        },
        AvroValue::Union(_, inner) => extract_int_bytes_map(inner),
        _ => None,
    }
}

/// The items of an array that read, in order; none when none do.
pub open spec fn read_items<V>(items: Seq<AvroValue>, read: spec_fn(AvroValue) -> Option<V>) -> Seq<V>
    decreases items.len(),
{
    if items.len() == 0 {
        Seq::empty()
    } else {
        let s = read_items(items.drop_last(), read);
        match read(items.last()) {
            Some(x) => s.push(x),
            None => s,
        }
    }
}

/// An array of numbers, read through unions; none when it reads empty.
pub open spec fn number_array<V>(v: AvroValue, read: spec_fn(AvroValue) -> Option<V>) -> Option<Seq<V>>
    decreases v,
{
    match v {
        AvroValue::Array(items) => {
            let s = read_items(items@, read);
            if s.len() == 0 {
                None
            } else {
                Some(s)
            }
        },
        AvroValue::Union(_, inner) => number_array(*inner, read),
        _ => None,
    }
}

/// Reads an `int` item.
pub open spec fn read_int() -> spec_fn(AvroValue) -> Option<i32> {
    |v: AvroValue| int_value(v)
}

fn extract_long_array(value: &AvroValue) -> (r: Option<Vec<i64>>)
    ensures
        match r {
            Some(s) => number_array(*value, read_long()) == Some(s@),
            None => number_array(*value, read_long()) is None,
        },
    decreases value,
{
    match value {
        AvroValue::Array(items) => {
            let mut out: Vec<i64> = Vec::new();
            let mut i: usize = 0;
            while i < items.len()
                invariant
                    i <= items.len(),
                    out@ == read_items(items@.take(i as int), read_long()),
                decreases items.len() - i,
            {
                assert(items@.take(i + 1).drop_last() =~= items@.take(i as int));
                match extract_long(&items[i]) {
                    Some(x) => out.push(x),
                    None => {},
                }
                i = i + 1;
            }
            assert(items@.take(items.len() as int) =~= items@);
            if out.len() == 0 {
                None
            } else {
                Some(out)
            }
        },
        AvroValue::Union(_, inner) => extract_long_array(inner),
        _ => None,
    }
}

fn extract_int_array(value: &AvroValue) -> (r: Option<Vec<i32>>)
    ensures
        match r {
            Some(s) => number_array(*value, read_int()) == Some(s@),
            None => number_array(*value, read_int()) is None,
        },
    decreases value,
{
    match value {
        AvroValue::Array(items) => {
            let mut out: Vec<i32> = Vec::new();
            let mut i: usize = 0;
            while i < items.len()
                invariant
                    i <= items.len(),
                    out@ == read_items(items@.take(i as int), read_int()),
                decreases items.len() - i,
            {
                assert(items@.take(i + 1).drop_last() =~= items@.take(i as int));
                match extract_int(&items[i]) {
                    Some(x) => out.push(x),
                    None => {},
                }
                i = i + 1;
            }
            assert(items@.take(items.len() as int) =~= items@);
            if out.len() == 0 {
                None
            } else {
                Some(out)
            }
        },
        AvroValue::Union(_, inner) => extract_int_array(inner),
        _ => None,
    }
}

// ---------------------------------------------------------------------------
// Partitions, content files and entries
// ---------------------------------------------------------------------------

/// The partition value an Avro value stands for, read through unions; a kind a
/// partition cannot hold reads as null.
pub open spec fn partition_value_of(v: AvroValue) -> PartitionValueView
    decreases v,
{
    match v {
        AvroValue::Null => PartitionValueView::Null,
        AvroValue::Boolean(b) => PartitionValueView::Boolean(b),
        AvroValue::Int(i) => PartitionValueView::Int(i),
        AvroValue::Long(l) => PartitionValueView::Long(l),
        AvroValue::Float(f) => PartitionValueView::Float(f),
        AvroValue::Double(d) => PartitionValueView::Double(d),
        AvroValue::String(s) => PartitionValueView::String(s@),
        AvroValue::Bytes(b) => PartitionValueView::Binary(b@),
        AvroValue::Date(d) => PartitionValueView::Date(d),
        AvroValue::TimestampMicros(t) => PartitionValueView::Timestamp(t),
        AvroValue::Uuid(u) => PartitionValueView::Uuid(u@),
        AvroValue::Union(_, inner) => partition_value_of(*inner),
        _ => PartitionValueView::Null,
    }
}

/// The partition tuple of a value: the values of a record's fields in order, the
/// empty tuple for null; none for any other kind.
pub open spec fn partition_of(v: AvroValue) -> Option<Seq<PartitionValueView>> {
    match v {
        AvroValue::Record(fields) => Some(Seq::new(fields.len() as nat, |i: int| partition_value_of(fields@[i].1))),
        AvroValue::Null => Some(Seq::empty()),
        _ => None,
    }
}

fn avro_to_partition_value(value: &AvroValue) -> (r: PartitionValue)
    ensures
        r@ == partition_value_of(*value),
    decreases value,
{
    match value {
        AvroValue::Null => PartitionValue::Null,
        AvroValue::Boolean(b) => PartitionValue::Boolean(*b),
        AvroValue::Int(i) => PartitionValue::Int(*i),
        AvroValue::Long(l) => PartitionValue::Long(*l),
        AvroValue::Float(f) => PartitionValue::Float(*f),
        AvroValue::Double(d) => PartitionValue::Double(*d),
        AvroValue::String(s) => PartitionValue::String(copy_string(s)),
        AvroValue::Bytes(b) => PartitionValue::Binary(copy_bytes(b)),
        AvroValue::Date(d) => PartitionValue::Date(*d),
        AvroValue::TimestampMicros(t) => PartitionValue::Timestamp(*t),
        AvroValue::Uuid(u) => PartitionValue::Uuid(*u),
        AvroValue::Union(_, inner) => avro_to_partition_value(inner),
        _ => PartitionValue::Null,
    }
}

fn parse_partition(value: &AvroValue) -> (r: Result<PartitionData, Error>)
    ensures
        match partition_of(*value) {
            Some(p) => r matches Ok(d) && d@ == p,
            None => r matches Err(Error::InvalidData { message }) && message@ == "Expected record or null for partition"@,
        },
{
    match value {
        AvroValue::Record(fields) => {
            let mut values: Vec<PartitionValue> = Vec::new();
            let mut i: usize = 0;
            while i < fields.len()
                invariant
                    i <= fields.len(),
                    values.len() == i,
                    forall|k: int| 0 <= k < i ==> (#[trigger] values@[k])@ == partition_value_of(fields@[k].1),
                decreases fields.len() - i,
            {
                values.push(avro_to_partition_value(&fields[i].1));
                i = i + 1;
            }
            let d = PartitionData::new(values);
            assert(d@ =~= Seq::new(fields.len() as nat, |i: int| partition_value_of(fields@[i].1)));
            Ok(d)
        },
        AvroValue::Null => Ok(PartitionData::empty()),
        _ => Err(Error::invalid_data("Expected record or null for partition")),
    }
}

/// An `int` field, zero when it does not read.
pub open spec fn int_or_zero(v: AvroValue) -> i32 {
    match int_value(v) {
        Some(i) => i,
        None => 0,
    }
}

/// A `long` field, zero when it does not read.
pub open spec fn long_or_zero(v: AvroValue) -> i64 {
    match long_value(v) {
        Some(l) => l,
        None => 0,
    }
}

/// A content file with one more field read. Fields with other names are skipped.
pub open spec fn apply_file_field(f: ContentFileView, name: Seq<char>, v: AvroValue) -> Result<ContentFileView, Seq<char>> {
    if name == "content"@ {
        Ok(ContentFileView {
            content: match crate::types::content_with_id(int_or_zero(v)) {
                Some(c) => c,
                None => FileContent::Data,
            },
            ..f
        })
    } else if name == "file_path"@ {
        Ok(ContentFileView {
            file_path: match string_value(v) {
                Some(s) => s,
                None => Seq::empty(),
            },
            ..f
        })
    } else if name == "file_format"@ {
        let s = match string_value(v) {
            Some(s) => s,
            None => Seq::empty(),
        };
        Ok(ContentFileView {
            file_format: match format_named(crate::text::lowercase_of(s)) {
                Some(x) => x,
                None => FileFormat::Parquet,
            },
            ..f
        })
    } else if name == "spec_id"@ {
        Ok(ContentFileView { spec_id: int_or_zero(v), ..f })
    } else if name == "partition"@ {
        match partition_of(v) {
            Some(p) => Ok(ContentFileView { partition: p, ..f }),
            None => Err("Expected record or null for partition"@),
        }
    } else if name == "record_count"@ {
        Ok(ContentFileView { record_count: long_or_zero(v), ..f })
    } else if name == "file_size_in_bytes"@ {
        Ok(ContentFileView { file_size_in_bytes: long_or_zero(v), ..f })
    } else if name == "column_sizes"@ {
        Ok(ContentFileView { column_sizes: stats_map(v, read_long()), ..f })
    } else if name == "value_counts"@ {
        Ok(ContentFileView { value_counts: stats_map(v, read_long()), ..f })
    } else if name == "null_value_counts"@ {
        Ok(ContentFileView { null_value_counts: stats_map(v, read_long()), ..f })
    } else if name == "nan_value_counts"@ {
        Ok(ContentFileView { nan_value_counts: stats_map(v, read_long()), ..f })
    } else if name == "lower_bounds"@ {
        Ok(ContentFileView { lower_bounds: stats_map(v, read_bytes()), ..f })
    } else if name == "upper_bounds"@ {
        Ok(ContentFileView { upper_bounds: stats_map(v, read_bytes()), ..f })
    } else if name == "key_metadata"@ {
        Ok(ContentFileView { key_metadata: bytes_value(v), ..f })
    } else if name == "split_offsets"@ {
        Ok(ContentFileView { split_offsets: number_array(v, read_long()), ..f })
    } else if name == "equality_ids"@ {
        Ok(ContentFileView { equality_field_ids: number_array(v, read_int()), ..f })
    } else if name == "sort_order_id"@ {
        Ok(ContentFileView { sort_order_id: optional_int_value(v), ..f })
    } else if name == "first_row_id"@ {
        Ok(ContentFileView { first_row_id: optional_long_value(v), ..f })
    } else if name == "referenced_data_file"@ {
        Ok(ContentFileView { referenced_data_file: optional_string_value(v), ..f })
    } else if name == "content_offset"@ {
        Ok(ContentFileView { content_offset: optional_long_value(v), ..f })
    } else if name == "content_size_in_bytes"@ {
        Ok(ContentFileView { content_size_in_bytes: optional_long_value(v), ..f })
    } else {
        Ok(f)
    }
}

/// The content file a record's fields describe, read in order from a data file
/// with no fields set; the first failure ends the reading.
pub open spec fn file_of_fields(fields: Seq<(String, AvroValue)>) -> Result<ContentFileView, Seq<char>>
    decreases fields.len(),
{
    if fields.len() == 0 {
        Ok(bare_file(FileContent::Data, Seq::empty(), FileFormat::Parquet, 0, Seq::empty(), 0, 0))
    } else {
        match file_of_fields(fields.drop_last()) {
            Ok(f) => apply_file_field(f, fields.last().0@, fields.last().1),
            Err(m) => Err(m),
        }
    }
}

/// The content file a value describes: a record's fields.
pub open spec fn content_file_of(v: AvroValue) -> Result<ContentFileView, Seq<char>> {
    match v {
        AvroValue::Record(fields) => file_of_fields(fields@),
        _ => Err("Expected record value for data file"@),
    }
}

proof fn lemma_file_fields_stop(fields: Seq<(String, AvroValue)>, n: int)
    requires
        0 <= n <= fields.len(),
        file_of_fields(fields.take(n)) is Err,
    ensures
        file_of_fields(fields) == file_of_fields(fields.take(n)),
    decreases fields.len() - n,
{
    if n < fields.len() {
        assert(fields.take(n + 1).drop_last() =~= fields.take(n));
        lemma_file_fields_stop(fields, n + 1);
    } else {
        assert(fields.take(n) =~= fields);
    }
}

/// Reads one field into a content file.
fn read_file_field(file: &mut ContentFileData, name: &str, value: &AvroValue) -> (r: Result<(), Error>)
    ensures
        match apply_file_field(old(file)@, name@, *value) {
            Ok(f) => r is Ok && final(file)@ == f,
            Err(m) => r matches Err(Error::InvalidData { message }) && message@ == m,
        },
{
    if str_eq(name, "content") {
        let id = match extract_int(value) {
            Some(i) => i,
            None => 0,
        };
        file.content = match FileContent::from_id(id) {
            Some(c) => c,
            None => FileContent::Data,
        };
    } else if str_eq(name, "file_path") {
        file.file_path = match extract_string(value) {
            Some(s) => s,
            None => String::new(),
        };
    } else if str_eq(name, "file_format") {
        let s = match extract_string(value) {
            Some(s) => s,
            None => String::new(),
        };
        file.file_format = match FileFormat::from_str(s.as_str()) {
            Some(x) => x,
            None => FileFormat::Parquet,
        };
    } else if str_eq(name, "spec_id") {
        file.spec_id = match extract_int(value) {
            Some(i) => i,
            None => 0,
        };
    } else if str_eq(name, "partition") {
        match parse_partition(value) {
            Ok(p) => {
                file.partition = p;
            },
            Err(e) => {
                return Err(e);
            },
        }
    } else if str_eq(name, "record_count") {
        file.record_count = match extract_long(value) {
            Some(l) => l,
            None => 0,
        };
    } else if str_eq(name, "file_size_in_bytes") {
        file.file_size_in_bytes = match extract_long(value) {
            Some(l) => l,
            None => 0,
        };
    } else if str_eq(name, "column_sizes") {
        file.column_sizes = extract_int_long_map(value);
    } else if str_eq(name, "value_counts") {
        file.value_counts = extract_int_long_map(value);
    } else if str_eq(name, "null_value_counts") {
        file.null_value_counts = extract_int_long_map(value);
    } else if str_eq(name, "nan_value_counts") {
        file.nan_value_counts = extract_int_long_map(value);
    } else if str_eq(name, "lower_bounds") {
        file.lower_bounds = extract_int_bytes_map(value);
    } else if str_eq(name, "upper_bounds") {
        file.upper_bounds = extract_int_bytes_map(value);
    } else if str_eq(name, "key_metadata") {
        file.key_metadata = extract_bytes(value);
    } else if str_eq(name, "split_offsets") {
        file.split_offsets = match extract_long_array(value) {
            Some(v) => Some(offsets_from_vec(v)),
            None => None,
        };
    } else if str_eq(name, "equality_ids") {
        file.equality_field_ids = match extract_int_array(value) {
            Some(v) => Some(ids_from_vec(v)),
            None => None,
        };
    } else if str_eq(name, "sort_order_id") {
        file.sort_order_id = extract_optional_int(value);
    } else if str_eq(name, "first_row_id") {
        file.first_row_id = extract_optional_long(value);
    } else if str_eq(name, "referenced_data_file") {
        file.referenced_data_file = extract_optional_string(value);
    } else if str_eq(name, "content_offset") {
        file.content_offset = extract_optional_long(value);
    } else if str_eq(name, "content_size_in_bytes") {
        file.content_size_in_bytes = extract_optional_long(value);
    }
    Ok(())
}

/// Reads a content file from a record.
pub fn parse_content_file(value: &AvroValue) -> (r: Result<ContentFileData, Error>)
    ensures
        match content_file_of(*value) {
            Ok(f) => r matches Ok(d) && d@ == f,
            Err(m) => r matches Err(Error::InvalidData { message }) && message@ == m,
        },
{
    match value {
        AvroValue::Record(fields) => {
            let mut file = ContentFileData::new_default();
            let mut i: usize = 0;
            assert(fields@.take(0) =~= Seq::<(String, AvroValue)>::empty());
            while i < fields.len()
                invariant
                    i <= fields.len(),
                    file_of_fields(fields@.take(i as int)) == Ok::<ContentFileView, Seq<char>>(file@),
                    content_file_of(*value) == file_of_fields(fields@),
                decreases fields.len() - i,
            {
                assert(fields@.take(i + 1).drop_last() =~= fields@.take(i as int));
                let (name, v) = &fields[i];
                match read_file_field(&mut file, name.as_str(), v) {
                    Ok(()) => {},
                    Err(e) => {
                        proof {
                            lemma_file_fields_stop(fields@, i + 1);
                        }
                        return Err(e);
                    },
                }
                i = i + 1;
            }
            assert(fields@.take(fields.len() as int) =~= fields@);
            Ok(file)
        },
        _ => Err(Error::invalid_data("Expected record value for data file")),
    }
}

/// What a decoded manifest entry holds.
pub struct RawEntryView {
    pub status: i32,
    pub snapshot_id: Option<i64>,
    pub data_sequence_number: Option<i64>,
    pub file_sequence_number: Option<i64>,
    pub file: ContentFileView,
}

/// What a decoded entry holds.
pub open spec fn raw_view(e: RawManifestEntry) -> RawEntryView {
    RawEntryView {
        status: e.status,
        snapshot_id: e.snapshot_id,
        data_sequence_number: e.data_sequence_number,
        file_sequence_number: e.file_sequence_number,
        file: e.file@,
    }
}

/// An entry with one more field read. Fields with other names are skipped.
pub open spec fn apply_entry_field(e: RawEntryView, name: Seq<char>, v: AvroValue) -> Result<RawEntryView, Seq<char>> {
    if name == "status"@ {
        Ok(RawEntryView { status: int_or_zero(v), ..e })
    } else if name == "snapshot_id"@ {
        Ok(RawEntryView { snapshot_id: optional_long_value(v), ..e })
    } else if name == "sequence_number"@ || name == "data_sequence_number"@ {
        Ok(RawEntryView { data_sequence_number: optional_long_value(v), ..e })
    } else if name == "file_sequence_number"@ {
        Ok(RawEntryView { file_sequence_number: optional_long_value(v), ..e })
    } else if name == "data_file"@ {
        match content_file_of(v) {
            Ok(f) => Ok(RawEntryView { file: f, ..e }),
            Err(m) => Err(m),
        }
    } else {
        Ok(e)
    }
}

/// The entry a record's fields describe, read in order from an entry with status
/// 0, no sequence numbers and a data file with no fields set.
pub open spec fn entry_of_fields(fields: Seq<(String, AvroValue)>) -> Result<RawEntryView, Seq<char>>
    decreases fields.len(),
{
    if fields.len() == 0 {
        Ok(RawEntryView {
            status: 0,
            snapshot_id: None,
            data_sequence_number: None,
            file_sequence_number: None,
            file: bare_file(FileContent::Data, Seq::empty(), FileFormat::Parquet, 0, Seq::empty(), 0, 0),
        })
    } else {
        match entry_of_fields(fields.drop_last()) {
            Ok(e) => apply_entry_field(e, fields.last().0@, fields.last().1),
            Err(m) => Err(m),
        }
    }
}

/// The entry a value describes: a record's fields.
pub open spec fn entry_of(v: AvroValue) -> Result<RawEntryView, Seq<char>> {
    match v {
        AvroValue::Record(fields) => entry_of_fields(fields@),
        _ => Err("Expected record value for manifest entry"@),
    }
}

proof fn lemma_entry_fields_stop(fields: Seq<(String, AvroValue)>, n: int)
    requires
        0 <= n <= fields.len(),
        entry_of_fields(fields.take(n)) is Err,
    ensures
        entry_of_fields(fields) == entry_of_fields(fields.take(n)),
    decreases fields.len() - n,
{
    if n < fields.len() {
        assert(fields.take(n + 1).drop_last() =~= fields.take(n));
        lemma_entry_fields_stop(fields, n + 1);
    } else {
        assert(fields.take(n) =~= fields);
    }
}

/// Reads a manifest entry from a record.
pub fn parse_manifest_entry(value: &AvroValue) -> (r: Result<RawManifestEntry, Error>)
    ensures
        match entry_of(*value) {
            Ok(e) => r matches Ok(raw) && raw_view(raw) == e,
            Err(m) => r matches Err(Error::InvalidData { message }) && message@ == m,
        },
{
    match value {
        AvroValue::Record(fields) => {
            let mut entry = RawManifestEntry::default();
            let mut i: usize = 0;
            assert(fields@.take(0) =~= Seq::<(String, AvroValue)>::empty());
            while i < fields.len()
                invariant
                    i <= fields.len(),
                    entry_of_fields(fields@.take(i as int)) == Ok::<RawEntryView, Seq<char>>(raw_view(entry)),
                    entry_of(*value) == entry_of_fields(fields@),
                decreases fields.len() - i,
            {
                assert(fields@.take(i + 1).drop_last() =~= fields@.take(i as int));
                let (name, v) = &fields[i];
                let n = name.as_str();
                if str_eq(n, "status") {
                    entry.status = match extract_int(v) {
                        Some(s) => s,
                        None => 0,
                    };
                } else if str_eq(n, "snapshot_id") {
                    entry.snapshot_id = extract_optional_long(v);
                } else if str_eq(n, "sequence_number") || str_eq(n, "data_sequence_number") {
                    entry.data_sequence_number = extract_optional_long(v);
                } else if str_eq(n, "file_sequence_number") {
                    entry.file_sequence_number = extract_optional_long(v);
                } else if str_eq(n, "data_file") {
                    match parse_content_file(v) {
                        Ok(f) => {
                            entry.file = f;
                        },
                        Err(e) => {
                            proof {
                                lemma_entry_fields_stop(fields@, i + 1);
                            }
                            return Err(e);
                        },
                    }
                }
                i = i + 1;
            }
            assert(fields@.take(fields.len() as int) =~= fields@);
            Ok(entry)
        },
        _ => Err(Error::invalid_data("Expected record value for manifest entry")),
    }
}

} // verus!
