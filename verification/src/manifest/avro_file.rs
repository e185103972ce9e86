//! Avro object container files: the header's metadata and the data they hold, as
//! plain values.
use vstd::prelude::*;
use apache_avro::types::Value;
use apache_avro::Reader;
use super::avro::AvroValue;
use super::reader::header_entries;

verus! {

/// An Avro datum as the `apache-avro` crate decodes it.
#[verifier::external_type_specification]
#[verifier::external_body]
pub struct ExAvroDatum(Value);

/// Whether two decoded values are the same but for the order of the entries of their
/// maps: an Avro map is decoded into a hash map, whose walk order is not fixed.
pub open spec fn same_value(a: AvroValue, b: AvroValue) -> bool
    decreases a,
{
    match a {
        AvroValue::Union(i, x) => b matches AvroValue::Union(j, y) && i == j && same_value(*x, *y),
        AvroValue::Array(xs) => b matches AvroValue::Array(ys) && xs@.len() == ys@.len() && forall|k: int|
            0 <= k < xs@.len() ==> same_value(#[trigger] xs@[k], ys@[k]),
        AvroValue::Record(xs) => b matches AvroValue::Record(ys) && xs@.len() == ys@.len() && forall|k: int|
            0 <= k < xs@.len() ==> (#[trigger] xs@[k]).0@ == ys@[k].0@ && same_value(xs@[k].1, ys@[k].1),
        AvroValue::Entries(xs) => b matches AvroValue::Entries(ys) && xs@.len() == ys@.len() && exists|p: Seq<int>|
            #[trigger] is_permutation(p, xs@.len() as int) && forall|k: int|
                0 <= k < xs@.len() ==> (#[trigger] xs@[p[k]]).0@ == ys@[k].0@ && same_value(xs@[p[k]].1, ys@[k].1),
        _ => a == b,
    }
}

/// Whether `p` lists each of `0..n` once.
pub open spec fn is_permutation(p: Seq<int>, n: int) -> bool {
    &&& p.len() == n
    &&& forall|k: int| 0 <= k < n ==> 0 <= #[trigger] p[k] < n
    &&& forall|j: int, k: int| 0 <= j < k < n ==> p[j] != p[k]
}

/// Whether two sequences of decoded values are the same, value by value, but for the
/// order of map entries.
pub open spec fn same_values(a: Seq<AvroValue>, b: Seq<AvroValue>) -> bool {
    a.len() == b.len() && forall|i: int| 0 <= i < a.len() ==> same_value(#[trigger] a[i], b[i])
}

/// The metadata of a header as a map from key to bytes.
pub open spec fn header_map(meta: Seq<(Seq<char>, Seq<u8>)>) -> Map<Seq<char>, Seq<u8>>
    decreases meta.len(),
{
    if meta.len() == 0 {
        Map::empty()
    } else {
        header_map(meta.drop_first()).insert(meta[0].0, meta[0].1)
    }
}

/// Whether no key occurs twice in a header's metadata.
pub open spec fn distinct_keys(meta: Seq<(Seq<char>, Seq<u8>)>) -> bool {
    forall|i: int, j: int| 0 <= i < j < meta.len() ==> (#[trigger] meta[i]).0 != (#[trigger] meta[j]).0
}

/// What `apache_avro::Reader` reads from an Avro object container file: its header's
/// metadata, the data it decodes in order up to the first that fails to decode, and
/// whether every datum decoded; `None` when the header does not read. The order of
/// the entries of an Avro map within a datum is left open, see `same_value`.
pub uninterp spec fn avro_file_of(bytes: Seq<u8>) -> Option<(Map<Seq<char>, Seq<u8>>, Seq<AvroValue>, bool)>;

/// A numeric or null Avro datum as a plain value; other kinds as `avro_bytes` gives.
#[verifier::external_body]
fn avro_scalar(v: &Value) -> AvroValue {
    match v {
        Value::Null => AvroValue::Null,
        Value::Boolean(b) => AvroValue::Boolean(*b),
        Value::Int(i) => AvroValue::Int(*i),
        Value::Long(l) => AvroValue::Long(*l),
        Value::Float(f) => AvroValue::Float(f.to_bits()),
        Value::Double(d) => AvroValue::Double(d.to_bits()),
        Value::Date(d) => AvroValue::Date(*d),
        Value::TimestampMicros(t) => AvroValue::TimestampMicros(*t),
        _ => avro_bytes(v),
    }
}

/// A byte or text Avro datum as a plain value; a kind the manifests do not use is
/// `Other`.
#[verifier::external_body]
fn avro_bytes(v: &Value) -> AvroValue {
    match v {
        Value::Bytes(b) => AvroValue::Bytes(b.clone()),
        Value::String(s) => AvroValue::String(s.clone()),
        Value::Fixed(n, b) => AvroValue::Fixed(*n, b.clone()),
        Value::Uuid(u) => AvroValue::Uuid(*u.as_bytes()),
        _ => AvroValue::Other,
    }
}

/// An Avro datum as a plain value, converted part by part.
#[verifier::external_body]
fn avro_value(v: &Value) -> AvroValue {
    match v {
        Value::Union(i, inner) => AvroValue::Union(*i, Box::new(avro_value(inner))),
        Value::Array(items) => AvroValue::Array(items.iter().map(avro_value).collect()),
        Value::Map(m) => AvroValue::Entries(m.iter().map(|(k, x)| (k.clone(), avro_value(x))).collect()),
        Value::Record(fs) => AvroValue::Record(fs.iter().map(|(k, x)| (k.clone(), avro_value(x))).collect()),
        _ => avro_scalar(v),
    }
}

/// Calls `apache_avro::Reader::new` on the bytes and reads the file through: the
/// header's user metadata (from a hash map, so each key once), and every datum
/// converted to a plain value until the first that fails, with that failure's text.
/// What it reads is named `avro_file_of`, but for the order of map entries; the texts
/// of the errors are not stated.
#[verifier::external_body]
pub(crate) fn decode_avro_file(bytes: &[u8]) -> (r: Result<(Vec<(String, Vec<u8>)>, Vec<AvroValue>, Option<String>), String>)
    ensures
        match avro_file_of(bytes@) {
            Some((h, vs, complete)) => r matches Ok((hv, vv, failure)) && header_map(header_entries(hv@)) == h
                && distinct_keys(header_entries(hv@)) && same_values(vv@, vs) && (failure is None <==> complete),
            None => r is Err,
        },
{
    let reader = Reader::new(bytes).map_err(|e| e.to_string())?;
    let header = reader.user_metadata().iter().map(|(k, v)| (k.clone(), v.clone())).collect();
    let mut values = Vec::new();
    for datum in reader {
        match datum {
            Ok(v) => values.push(avro_value(&v)),
            Err(e) => return Ok((header, values, Some(e.to_string()))),
        }
    }
    Ok((header, values, None))
}

} // verus!
