//! Core Iceberg types: file formats and content kinds, partition tuples, column
//! statistics.
use vstd::prelude::*;
use std::collections::HashMap;
use crate::text::{to_lowercase, lowercase_of, str_eq, ends_with, has_suffix, owned};

verus! {

broadcast use vstd::string::group_string_axioms;

/// A file format.
#[derive(Debug, Clone, Copy, PartialEq, Eq, Hash, Structural)]
pub enum FileFormat {
    Avro,
    Parquet,
    Orc,
    Puffin,
}

/// The format a lower-case name stands for.
pub open spec fn format_named(lower: Seq<char>) -> Option<FileFormat> {
    if lower == "avro"@ {
        Some(FileFormat::Avro)
    } else if lower == "parquet"@ {
        Some(FileFormat::Parquet)
    } else if lower == "orc"@ {
        Some(FileFormat::Orc)
    } else if lower == "puffin"@ {
        Some(FileFormat::Puffin)
    } else {
        None
    }
}

/// The format a path's extension names.
pub open spec fn format_of_path(path: Seq<char>) -> Option<FileFormat> {
    if has_suffix(path, ".avro"@) {
        Some(FileFormat::Avro)
    } else if has_suffix(path, ".parquet"@) {
        Some(FileFormat::Parquet)
    } else if has_suffix(path, ".orc"@) {
        Some(FileFormat::Orc)
    } else if has_suffix(path, ".puffin"@) {
        Some(FileFormat::Puffin)
    } else {
        None
    }
}

/// The lower-case name of a format.
pub open spec fn format_name(f: FileFormat) -> Seq<char> {
    match f {
        FileFormat::Avro => "avro"@,
        FileFormat::Parquet => "parquet"@,
        FileFormat::Orc => "orc"@,
        FileFormat::Puffin => "puffin"@,
    }
}

impl FileFormat {
    /// The format with the given name, in any case.
    pub fn from_str(s: &str) -> (r: Option<FileFormat>)
        ensures
            r == format_named(lowercase_of(s@)),
    {
        let lower = to_lowercase(s);
        FileFormat::from_lower_name(lower.as_str())
    }

    /// The format with the given lower-case name.
    pub fn from_lower_name(l: &str) -> (r: Option<FileFormat>)
        ensures
            r == format_named(l@),
    {
        if str_eq(l, "avro") {
            Some(FileFormat::Avro)
        } else if str_eq(l, "parquet") {
            Some(FileFormat::Parquet)
        } else if str_eq(l, "orc") {
            Some(FileFormat::Orc)
        } else if str_eq(l, "puffin") {
            Some(FileFormat::Puffin)
        } else {
            None
        }
    }

    /// The format a path's extension names.
    pub fn from_extension(path: &str) -> (r: Option<FileFormat>)
        ensures
            r == format_of_path(path@),
    {
        if ends_with(path, ".avro") {
            Some(FileFormat::Avro)
        } else if ends_with(path, ".parquet") {
            Some(FileFormat::Parquet)
        } else if ends_with(path, ".orc") {
            Some(FileFormat::Orc)
        } else if ends_with(path, ".puffin") {
            Some(FileFormat::Puffin)
        } else {
            None
        }
    }

    /// The lower-case name.
    pub fn to_display_string(&self) -> (r: String)
        ensures
            r@ == format_name(*self),
    {
        match self {
            FileFormat::Avro => owned("avro"),
            FileFormat::Parquet => owned("parquet"),
            FileFormat::Orc => owned("orc"),
            FileFormat::Puffin => owned("puffin"),
        }
    }
}

/// What a file holds.
#[derive(Debug, Clone, Copy, PartialEq, Eq, Hash, Structural)]
pub enum FileContent {
    /// Table rows
    Data,
    /// Position deletes
    PositionDeletes,
    /// Equality deletes
    EqualityDeletes,
}

/// The numeric id of a content kind, as stored in manifests.
pub open spec fn content_id(c: FileContent) -> i32 {
    match c {
        FileContent::Data => 0,
        FileContent::PositionDeletes => 1,
        FileContent::EqualityDeletes => 2,
    }
}

/// The content kind with a numeric id.
pub open spec fn content_with_id(id: i32) -> Option<FileContent> {
    if id == 0 {
        Some(FileContent::Data)
    } else if id == 1 {
        Some(FileContent::PositionDeletes)
    } else if id == 2 {
        Some(FileContent::EqualityDeletes)
    } else {
        None
    }
}

impl FileContent {
    /// The content kind with the given numeric id.
    pub fn from_id(id: i32) -> (r: Option<FileContent>)
        ensures
            r == content_with_id(id),
    {
        match id {
            0 => Some(FileContent::Data),
            1 => Some(FileContent::PositionDeletes),
            2 => Some(FileContent::EqualityDeletes),
            _ => None,
        }
    }

    /// The numeric id.
    pub fn id(&self) -> (r: i32)
        ensures
            r == content_id(*self),
    {
        match self {
            FileContent::Data => 0,
            FileContent::PositionDeletes => 1,
            FileContent::EqualityDeletes => 2,
        }
    }
}

impl Default for FileContent {
    fn default() -> (r: FileContent)
        ensures
            r == FileContent::Data,
    {
        FileContent::Data
    }
}

/// Reading the id of a content kind gives the kind back, and an id that names a
/// kind is that kind's id.
pub proof fn lemma_content_id_roundtrip(c: FileContent, id: i32)
    ensures
        content_with_id(content_id(c)) == Some(c),
        content_with_id(id) == Some(c) ==> content_id(c) == id,
{
}

/// What a partition value holds.
pub enum PartitionValueView {
    Null,
    Boolean(bool),
    Int(i32),
    Long(i64),
    Float(u32),
    Double(u64),
    String(Seq<char>),
    Binary(Seq<u8>),
    Date(i32),
    Time(i64),
    Timestamp(i64),
    Uuid(Seq<u8>),
}

/// One value of a partition tuple; floating-point values by their bit patterns, a
/// UUID by its 16 bytes.
#[derive(Debug, Hash)]
pub enum PartitionValue {
    Null,
    Boolean(bool),
    Int(i32),
    Long(i64),
    Float(u32),
    Double(u64),
    String(String),
    Binary(Vec<u8>),
    /// Days since the epoch
    Date(i32),
    /// Microseconds since midnight
    Time(i64),
    /// Microseconds since the epoch
    Timestamp(i64),
    Uuid([u8; 16]),
}

impl View for PartitionValue {
    type V = PartitionValueView;

    open spec fn view(&self) -> PartitionValueView {
        match self {
            PartitionValue::Null => PartitionValueView::Null,
            PartitionValue::Boolean(v) => PartitionValueView::Boolean(*v),
            PartitionValue::Int(v) => PartitionValueView::Int(*v),
            PartitionValue::Long(v) => PartitionValueView::Long(*v),
            PartitionValue::Float(v) => PartitionValueView::Float(*v),
            PartitionValue::Double(v) => PartitionValueView::Double(*v),
            PartitionValue::String(v) => PartitionValueView::String(v@),
            PartitionValue::Binary(v) => PartitionValueView::Binary(v@),
            PartitionValue::Date(v) => PartitionValueView::Date(*v),
            PartitionValue::Time(v) => PartitionValueView::Time(*v),
            PartitionValue::Timestamp(v) => PartitionValueView::Timestamp(*v),
            PartitionValue::Uuid(v) => PartitionValueView::Uuid(v@),
        }
    }
}

/// A copy of a byte vector.
pub fn copy_bytes(v: &Vec<u8>) -> (r: Vec<u8>)
    ensures
        r@ == v@,
{
    let mut r: Vec<u8> = Vec::new();
    let mut i: usize = 0;
    while i < v.len()
        invariant
            i <= v.len(),
            r@ == v@.take(i as int),
        decreases v.len() - i,
    {
        r.push(v[i]);
        i = i + 1;
        assert(v@.take(i as int) =~= v@.take(i - 1).push(v@[i - 1]));
    }
    assert(v@.take(v.len() as int) =~= v@);
    r
}

impl PartitionValue {
    /// Whether the value is null.
    pub fn is_null(&self) -> (r: bool)
        ensures
            r == (self@ is Null),
    {
        match self {
            PartitionValue::Null => true,
            _ => false,
        }
    }

    /// A copy of this value.
    pub fn duplicate(&self) -> (r: PartitionValue)
        ensures
            r@ == self@,
    {
        match self {
            PartitionValue::Null => PartitionValue::Null,
            PartitionValue::Boolean(v) => PartitionValue::Boolean(*v),
            PartitionValue::Int(v) => PartitionValue::Int(*v),
            PartitionValue::Long(v) => PartitionValue::Long(*v),
            PartitionValue::Float(v) => PartitionValue::Float(*v),
            PartitionValue::Double(v) => PartitionValue::Double(*v),
            PartitionValue::String(v) => PartitionValue::String(crate::text::copy_string(v)),
            PartitionValue::Binary(v) => PartitionValue::Binary(copy_bytes(v)),
            PartitionValue::Date(v) => PartitionValue::Date(*v),
            PartitionValue::Time(v) => PartitionValue::Time(*v),
            PartitionValue::Timestamp(v) => PartitionValue::Timestamp(*v),
            PartitionValue::Uuid(v) => PartitionValue::Uuid(*v),
        }
    }
}

/// The views of a sequence of partition values.
pub open spec fn partition_views(vs: Seq<PartitionValue>) -> Seq<PartitionValueView> {
    Seq::new(vs.len(), |i: int| vs[i]@)
}

/// A partition tuple: the partition field values, in spec order.
#[derive(Debug, Hash)]
pub struct PartitionData {
    values: Vec<PartitionValue>,
}

impl View for PartitionData {
    type V = Seq<PartitionValueView>;

    closed spec fn view(&self) -> Seq<PartitionValueView> {
        partition_views(self.values@)
    }
}

impl PartitionData {
    /// The empty tuple (unpartitioned tables).
    pub fn empty() -> (r: PartitionData)
        ensures
            r@ == Seq::<PartitionValueView>::empty(),
    {
        let r = PartitionData { values: Vec::new() };
        assert(r@ =~= Seq::<PartitionValueView>::empty());
        r
    }

    /// The tuple of the given values.
    pub fn new(values: Vec<PartitionValue>) -> (r: PartitionData)
        ensures
            r@ == partition_views(values@),
    {
        PartitionData { values }
    }

    /// The value at `index`.
    pub fn get(&self, index: usize) -> (r: Option<&PartitionValue>)
        ensures
            match r {
                Some(v) => index < self@.len() && v@ == self@[index as int],
                None => index >= self@.len(),
            },
    {
        if index < self.values.len() {
            Some(&self.values[index])
        } else {
            None
        }
    }

    /// The number of values.
    pub fn len(&self) -> (r: usize)
        ensures
            r == self@.len(),
    {
        self.values.len()
    }

    /// Whether the tuple is empty (unpartitioned).
    pub fn is_empty(&self) -> (r: bool)
        ensures
            r == (self@.len() == 0),
    {
        self.values.len() == 0
    }

    /// The values.
    pub fn values(&self) -> (r: &[PartitionValue])
        ensures
            partition_views(r@) == self@,
    {
        self.values.as_slice()
    }

    /// A copy of this tuple.
    pub fn duplicate(&self) -> (r: PartitionData)
        ensures
            r@ == self@,
    {
        let mut values: Vec<PartitionValue> = Vec::new();
        let mut i: usize = 0;
        while i < self.values.len()
            invariant
                i <= self.values.len(),
                values.len() == i,
                forall|j: int| 0 <= j < i ==> values@[j]@ == self.values@[j]@,
            decreases self.values.len() - i,
        {
            values.push(self.values[i].duplicate());
            i = i + 1;
        }
        let r = PartitionData { values };
        assert(r@ =~= self@);
        r
    }
}

/// The bounds of a column, in their serialized form.
#[derive(Debug)]
pub struct ColumnBounds {
    /// Lower bound
    pub lower: Option<Vec<u8>>,
    /// Upper bound
    pub upper: Option<Vec<u8>>,
}

/// Statistics of one column.
#[derive(Debug)]
pub struct ColumnStats {
    /// Column ID
    pub column_id: i32,
    /// Size in bytes
    pub size_in_bytes: Option<i64>,
    /// Number of values, nulls included
    pub value_count: Option<i64>,
    /// Number of nulls
    pub null_value_count: Option<i64>,
    /// Number of NaN values
    pub nan_value_count: Option<i64>,
    /// Bounds
    pub bounds: ColumnBounds,
}

impl Default for ColumnBounds {
    fn default() -> (r: ColumnBounds)
        ensures
            r.lower is None,
            r.upper is None,
    {
        ColumnBounds { lower: None, upper: None }
    }
}

impl Default for ColumnStats {
    fn default() -> (r: ColumnStats)
        ensures
            r.column_id == 0,
            r.size_in_bytes is None,
            r.value_count is None,
            r.null_value_count is None,
            r.nan_value_count is None,
            r.bounds.lower is None,
            r.bounds.upper is None,
    {
        ColumnStats {
            column_id: 0,
            size_in_bytes: None,
            value_count: None,
            null_value_count: None,
            nan_value_count: None,
            bounds: ColumnBounds { lower: None, upper: None },
        }
    }
}

} // verus!
