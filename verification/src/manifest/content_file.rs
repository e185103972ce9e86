//! Content files: the data files and delete files that manifests list.
use vstd::prelude::*;
use std::collections::HashMap;
use crate::types::{FileContent, FileFormat, PartitionData, PartitionValueView, copy_bytes};
use crate::text::copy_string;
use super::small::{FieldIds, Offsets, id_items, offset_items, ids_from_vec, ids_as_slice, ids_clone,
    offsets_from_vec, offsets_as_slice, offsets_clone};

verus! {

broadcast use vstd::string::group_string_axioms;

/// The bytes of each value of a map of serialized bounds.
pub open spec fn bound_bytes(m: Map<i32, Vec<u8>>) -> Map<i32, Seq<u8>> {
    m.map_values(|v: Vec<u8>| v@)
}

/// What a content file records.
pub struct ContentFileView {
    pub content: FileContent,
    pub file_path: Seq<char>,
    pub file_format: FileFormat,
    pub spec_id: i32,
    pub partition: Seq<PartitionValueView>,
    pub record_count: i64,
    pub file_size_in_bytes: i64,
    pub column_sizes: Option<Map<i32, i64>>,
    pub value_counts: Option<Map<i32, i64>>,
    pub null_value_counts: Option<Map<i32, i64>>,
    pub nan_value_counts: Option<Map<i32, i64>>,
    pub lower_bounds: Option<Map<i32, Seq<u8>>>,
    pub upper_bounds: Option<Map<i32, Seq<u8>>>,
    pub key_metadata: Option<Seq<u8>>,
    pub split_offsets: Option<Seq<i64>>,
    pub sort_order_id: Option<i32>,
    pub first_row_id: Option<i64>,
    pub data_sequence_number: Option<i64>,
    pub file_sequence_number: Option<i64>,
    pub equality_field_ids: Option<Seq<i32>>,
    pub referenced_data_file: Option<Seq<char>>,
    pub content_offset: Option<i64>,
    pub content_size_in_bytes: Option<i64>,
}

/// The metadata of a content file.
#[derive(Debug)]
pub struct ContentFileData {
    /// File content type
    pub content: FileContent,
    /// File path (URI)
    pub file_path: String,
    /// File format
    pub file_format: FileFormat,
    /// Partition spec ID
    pub spec_id: i32,
    /// Partition tuple
    pub partition: PartitionData,
    /// Number of records
    pub record_count: i64,
    /// File size in bytes
    pub file_size_in_bytes: i64,
    /// Column sizes
    pub column_sizes: Option<HashMap<i32, i64>>,
    /// Value counts
    pub value_counts: Option<HashMap<i32, i64>>,
    /// Null value counts
    pub null_value_counts: Option<HashMap<i32, i64>>,
    /// NaN value counts
    pub nan_value_counts: Option<HashMap<i32, i64>>,
    /// Lower bounds (column id to serialized value)
    pub lower_bounds: Option<HashMap<i32, Vec<u8>>>,
    /// Upper bounds (column id to serialized value)
    pub upper_bounds: Option<HashMap<i32, Vec<u8>>>,
    /// Encryption key metadata
    pub key_metadata: Option<Vec<u8>>,
    /// Split offsets
    pub split_offsets: Option<Offsets>,
    /// Sort order ID
    pub sort_order_id: Option<i32>,
    /// First row ID (row lineage)
    pub first_row_id: Option<i64>,
    /// Data sequence number
    pub data_sequence_number: Option<i64>,
    /// File sequence number
    pub file_sequence_number: Option<i64>,
    /// Equality field IDs (equality deletes)
    pub equality_field_ids: Option<FieldIds>,
    /// Referenced data file (position deletes, deletion vectors)
    pub referenced_data_file: Option<String>,
    /// Content offset within the file (deletion vectors)
    pub content_offset: Option<i64>,
    /// Content size in bytes (deletion vectors)
    pub content_size_in_bytes: Option<i64>,
}

impl View for ContentFileData {
    type V = ContentFileView;

    open spec fn view(&self) -> ContentFileView {
        ContentFileView {
            content: self.content,
            file_path: self.file_path@,
            file_format: self.file_format,
            spec_id: self.spec_id,
            partition: self.partition@,
            record_count: self.record_count,
            file_size_in_bytes: self.file_size_in_bytes,
            column_sizes: match self.column_sizes { Some(m) => Some(m@), None => None },
            value_counts: match self.value_counts { Some(m) => Some(m@), None => None },
            null_value_counts: match self.null_value_counts { Some(m) => Some(m@), None => None },
            nan_value_counts: match self.nan_value_counts { Some(m) => Some(m@), None => None },
            lower_bounds: match self.lower_bounds { Some(m) => Some(bound_bytes(m@)), None => None },
            upper_bounds: match self.upper_bounds { Some(m) => Some(bound_bytes(m@)), None => None },
            key_metadata: match self.key_metadata { Some(k) => Some(k@), None => None },
            split_offsets: match self.split_offsets { Some(o) => Some(offset_items(o)), None => None },
            sort_order_id: self.sort_order_id,
            first_row_id: self.first_row_id,
            data_sequence_number: self.data_sequence_number,
            file_sequence_number: self.file_sequence_number,
            equality_field_ids: match self.equality_field_ids { Some(i) => Some(id_items(i)), None => None },
            referenced_data_file: match self.referenced_data_file { Some(p) => Some(p@), None => None },
            content_offset: self.content_offset,
            content_size_in_bytes: self.content_size_in_bytes,
        }
    }
}

/// A content file of the given kind with only the required fields set.
pub open spec fn bare_file(
    content: FileContent,
    file_path: Seq<char>,
    file_format: FileFormat,
    spec_id: i32,
    partition: Seq<PartitionValueView>,
    record_count: i64,
    file_size_in_bytes: i64,
) -> ContentFileView {
    ContentFileView {
        content,
        file_path,
        file_format,
        spec_id,
        partition,
        record_count,
        file_size_in_bytes,
        column_sizes: None,
        value_counts: None,
        null_value_counts: None,
        nan_value_counts: None,
        lower_bounds: None,
        upper_bounds: None,
        key_metadata: None,
        split_offsets: None,
        sort_order_id: None,
        first_row_id: None,
        data_sequence_number: None,
        file_sequence_number: None,
        equality_field_ids: None,
        referenced_data_file: None,
        content_offset: None,
        content_size_in_bytes: None,
    }
}

/// The file without its column statistics.
pub open spec fn without_stats(f: ContentFileView) -> ContentFileView {
    ContentFileView {
        column_sizes: None,
        value_counts: None,
        null_value_counts: None,
        nan_value_counts: None,
        lower_bounds: None,
        upper_bounds: None,
        ..f
    }
}

fn copy_counts(m: &Option<HashMap<i32, i64>>) -> (r: Option<HashMap<i32, i64>>)
    ensures
        match (r, *m) {
            (Some(a), Some(b)) => a@ == b@,
            (None, None) => true,
            _ => false,
        },
{
    match m {
        Some(x) => Some(x.clone()),
        None => None,
    }
}

fn copy_bounds(m: &Option<HashMap<i32, Vec<u8>>>) -> (r: Option<HashMap<i32, Vec<u8>>>)
    ensures
        match (r, *m) {
            (Some(a), Some(b)) => bound_bytes(a@) == bound_bytes(b@),
            (None, None) => true,
            _ => false,
        },
{
    match m {
        Some(x) => Some(x.clone()),
        None => None,
    }
}

impl ContentFileData {
    /// A data file with an empty path, no partition and no optional fields.
    pub fn new_default() -> (r: ContentFileData)
        ensures
            r@ == bare_file(FileContent::Data, Seq::empty(), FileFormat::Parquet, 0, Seq::empty(), 0, 0),
    {
        let r = ContentFileData {
            content: FileContent::Data,
            file_path: String::new(),
            file_format: FileFormat::Parquet,
            spec_id: 0,
            partition: PartitionData::empty(),
            record_count: 0,
            file_size_in_bytes: 0,
            column_sizes: None,
            value_counts: None,
            null_value_counts: None,
            nan_value_counts: None,
            lower_bounds: None,
            upper_bounds: None,
            key_metadata: None,
            split_offsets: None,
            sort_order_id: None,
            first_row_id: None,
            data_sequence_number: None,
            file_sequence_number: None,
            equality_field_ids: None,
            referenced_data_file: None,
            content_offset: None,
            content_size_in_bytes: None,
        };
        assert(r@.file_path =~= Seq::<char>::empty());
        r
    }

    /// A data file with the required fields.
    pub fn new_data_file(
        file_path: String,
        file_format: FileFormat,
        spec_id: i32,
        partition: PartitionData,
        record_count: i64,
        file_size_in_bytes: i64,
    ) -> (r: ContentFileData)
        ensures
            r@ == bare_file(FileContent::Data, file_path@, file_format, spec_id, partition@, record_count, file_size_in_bytes),
    {
        let mut d = Self::new_default();
        d.file_path = file_path;
        d.file_format = file_format;
        d.spec_id = spec_id;
        d.partition = partition;
        d.record_count = record_count;
        d.file_size_in_bytes = file_size_in_bytes;
        d
    }

    /// A position delete file with the required fields.
    pub fn new_position_delete_file(
        file_path: String,
        file_format: FileFormat,
        spec_id: i32,
        partition: PartitionData,
        record_count: i64,
        file_size_in_bytes: i64,
        referenced_data_file: Option<String>,
    ) -> (r: ContentFileData)
        ensures
            r@ == (ContentFileView {
                referenced_data_file: match referenced_data_file { Some(p) => Some(p@), None => None },
                ..bare_file(FileContent::PositionDeletes, file_path@, file_format, spec_id, partition@, record_count, file_size_in_bytes)
            }),
    {
        let mut d = Self::new_data_file(file_path, file_format, spec_id, partition, record_count, file_size_in_bytes);
        d.content = FileContent::PositionDeletes;
        d.referenced_data_file = referenced_data_file;
        d
    }

    /// An equality delete file with the required fields and its equality field ids.
    pub fn new_equality_delete_file(
        file_path: String,
        file_format: FileFormat,
        spec_id: i32,
        partition: PartitionData,
        record_count: i64,
        file_size_in_bytes: i64,
        equality_field_ids: Vec<i32>,
    ) -> (r: ContentFileData)
        ensures
            r@ == (ContentFileView {
                equality_field_ids: Some(equality_field_ids@),
                ..bare_file(FileContent::EqualityDeletes, file_path@, file_format, spec_id, partition@, record_count, file_size_in_bytes)
            }),
    {
        let mut d = Self::new_data_file(file_path, file_format, spec_id, partition, record_count, file_size_in_bytes);
        d.content = FileContent::EqualityDeletes;
        d.equality_field_ids = Some(ids_from_vec(equality_field_ids));
        d
    }

    /// Sets the equality field ids.
    pub fn set_equality_field_ids(&mut self, ids: Vec<i32>)
        ensures
            final(self)@ == (ContentFileView { equality_field_ids: Some(ids@), ..old(self)@ }),
    {
        self.equality_field_ids = Some(ids_from_vec(ids));
    }

    /// Sets the split offsets.
    pub fn set_split_offsets(&mut self, offsets: Vec<i64>)
        ensures
            final(self)@ == (ContentFileView { split_offsets: Some(offsets@), ..old(self)@ }),
    {
        self.split_offsets = Some(offsets_from_vec(offsets));
    }

    /// A copy of this file with all its fields.
    pub fn duplicate(&self) -> (r: ContentFileData)
        ensures
            r@ == self@,
    {
        let mut r = self.copy_without_stats();
        r.column_sizes = copy_counts(&self.column_sizes);
        r.value_counts = copy_counts(&self.value_counts);
        r.null_value_counts = copy_counts(&self.null_value_counts);
        r.nan_value_counts = copy_counts(&self.nan_value_counts);
        r.lower_bounds = copy_bounds(&self.lower_bounds);
        r.upper_bounds = copy_bounds(&self.upper_bounds);
        r
    }

    /// A copy of this file without its column statistics.
    pub fn copy_without_stats(&self) -> (r: ContentFileData)
        ensures
            r@ == without_stats(self@),
    {
        ContentFileData {
            content: self.content,
            file_path: copy_string(&self.file_path),
            file_format: self.file_format,
            spec_id: self.spec_id,
            partition: self.partition.duplicate(),
            record_count: self.record_count,
            file_size_in_bytes: self.file_size_in_bytes,
            column_sizes: None,
            value_counts: None,
            null_value_counts: None,
            nan_value_counts: None,
            lower_bounds: None,
            upper_bounds: None,
            key_metadata: match &self.key_metadata {
                Some(k) => Some(copy_bytes(k)),
                None => None,
            },
            split_offsets: match &self.split_offsets {
                Some(o) => Some(offsets_clone(o)),
                None => None,
            },
            sort_order_id: self.sort_order_id,
            first_row_id: self.first_row_id,
            data_sequence_number: self.data_sequence_number,
            file_sequence_number: self.file_sequence_number,
            equality_field_ids: match &self.equality_field_ids {
                Some(i) => Some(ids_clone(i)),
                None => None,
            },
            referenced_data_file: match &self.referenced_data_file {
                Some(p) => Some(copy_string(p)),
                None => None,
            },
            content_offset: self.content_offset,
            content_size_in_bytes: self.content_size_in_bytes,
        }
    }
}

/// The metadata every content file answers for.
pub trait ContentFile: Sized {
    /// What the file records.
    spec fn record(&self) -> ContentFileView;

    /// What the file holds.
    spec fn kind(&self) -> FileContent;

    /// File content type.
    fn content(&self) -> (r: FileContent)
        ensures
            r == self.kind(),
    ;

    /// File path.
    fn file_path(&self) -> (r: &str)
        ensures
            r@ == self.record().file_path,
    ;

    /// File format.
    fn file_format(&self) -> (r: FileFormat)
        ensures
            r == self.record().file_format,
    ;

    /// Partition spec ID.
    fn spec_id(&self) -> (r: i32)
        ensures
            r == self.record().spec_id,
    ;

    /// Partition tuple.
    fn partition(&self) -> (r: &PartitionData)
        ensures
            r@ == self.record().partition,
    ;

    /// Number of records.
    fn record_count(&self) -> (r: i64)
        ensures
            r == self.record().record_count,
    ;

    /// File size in bytes.
    fn file_size_in_bytes(&self) -> (r: i64)
        ensures
            r == self.record().file_size_in_bytes,
    ;

    /// Column sizes by column id.
    fn column_sizes(&self) -> (r: Option<&HashMap<i32, i64>>)
        ensures
            match r {
                Some(m) => self.record().column_sizes == Some(m@),
                None => self.record().column_sizes is None,
            },
    ;

    /// Value counts by column id.
    fn value_counts(&self) -> (r: Option<&HashMap<i32, i64>>)
        ensures
            match r {
                Some(m) => self.record().value_counts == Some(m@),
                None => self.record().value_counts is None,
            },
    ;

    /// Null value counts by column id.
    fn null_value_counts(&self) -> (r: Option<&HashMap<i32, i64>>)
        ensures
            match r {
                Some(m) => self.record().null_value_counts == Some(m@),
                None => self.record().null_value_counts is None,
            },
    ;

    /// NaN value counts by column id.
    fn nan_value_counts(&self) -> (r: Option<&HashMap<i32, i64>>)
        ensures
            match r {
                Some(m) => self.record().nan_value_counts == Some(m@),
                None => self.record().nan_value_counts is None,
            },
    ;

    /// Lower bounds by column id.
    fn lower_bounds(&self) -> (r: Option<&HashMap<i32, Vec<u8>>>)
        ensures
            match r {
                Some(m) => self.record().lower_bounds == Some(bound_bytes(m@)),
                None => self.record().lower_bounds is None,
            },
    ;

    /// Upper bounds by column id.
    fn upper_bounds(&self) -> (r: Option<&HashMap<i32, Vec<u8>>>)
        ensures
            match r {
                Some(m) => self.record().upper_bounds == Some(bound_bytes(m@)),
                None => self.record().upper_bounds is None,
            },
    ;

    /// Encryption key metadata.
    fn key_metadata(&self) -> (r: Option<&[u8]>)
        ensures
            match r {
                Some(k) => self.record().key_metadata == Some(k@),
                None => self.record().key_metadata is None,
            },
    ;

    /// Split offsets.
    fn split_offsets(&self) -> (r: Option<&[i64]>)
        ensures
            match r {
                Some(o) => self.record().split_offsets == Some(o@),
                None => self.record().split_offsets is None,
            },
    ;

    /// Sort order ID.
    fn sort_order_id(&self) -> (r: Option<i32>)
        ensures
            r == self.record().sort_order_id,
    ;

    /// First row ID (row lineage).
    fn first_row_id(&self) -> (r: Option<i64>)
        ensures
            r == self.record().first_row_id,
    ;

    /// Data sequence number.
    fn data_sequence_number(&self) -> (r: Option<i64>)
        ensures
            r == self.record().data_sequence_number,
    ;

    /// File sequence number.
    fn file_sequence_number(&self) -> (r: Option<i64>)
        ensures
            r == self.record().file_sequence_number,
    ;

    /// A copy without column statistics.
    fn copy_without_stats(&self) -> (r: Self)
        ensures
            r.record() == without_stats(self.record()),
            r.kind() == self.kind(),
    ;
}

/// A file of table rows.
#[derive(Debug)]
pub struct DataFile {
    data: ContentFileData,
}

/// A file of deleted rows: position deletes, equality deletes or a deletion vector.
#[derive(Debug)]
pub struct DeleteFile {
    data: ContentFileData,
}

impl View for DataFile {
    type V = ContentFileView;

    closed spec fn view(&self) -> ContentFileView {
        self.data@
    }
}

impl View for DeleteFile {
    type V = ContentFileView;

    closed spec fn view(&self) -> ContentFileView {
        self.data@
    }
}

impl DataFile {
    /// A data file with the required fields.
    pub fn new(
        file_path: String,
        file_format: FileFormat,
        spec_id: i32,
        partition: PartitionData,
        record_count: i64,
        file_size_in_bytes: i64,
    ) -> (r: DataFile)
        ensures
            r@ == bare_file(FileContent::Data, file_path@, file_format, spec_id, partition@, record_count, file_size_in_bytes),
    {
        DataFile {
            data: ContentFileData::new_data_file(file_path, file_format, spec_id, partition, record_count, file_size_in_bytes),
        }
    }

    /// The data file with the given metadata.
    pub fn from_data(data: ContentFileData) -> (r: DataFile)
        ensures
            r@ == data@,
    {
        DataFile { data }
    }

    /// The metadata.
    pub fn data(&self) -> (r: &ContentFileData)
        ensures
            r@ == self@,
    {
        &self.data
    }

    /// Sets the first row ID (row lineage).
    pub fn set_first_row_id(&mut self, first_row_id: Option<i64>)
        ensures
            final(self)@ == (ContentFileView { first_row_id, ..old(self)@ }),
    {
        self.data.first_row_id = first_row_id;
    }

    /// A copy of this file.
    pub fn duplicate(&self) -> (r: DataFile)
        ensures
            r@ == self@,
    {
        DataFile { data: self.data.duplicate() }
    }
}

impl DeleteFile {
    /// A position delete file with the required fields.
    pub fn new_position_deletes(
        file_path: String,
        file_format: FileFormat,
        spec_id: i32,
        partition: PartitionData,
        record_count: i64,
        file_size_in_bytes: i64,
        referenced_data_file: Option<String>,
    ) -> (r: DeleteFile)
        ensures
            r@ == (ContentFileView {
                referenced_data_file: match referenced_data_file { Some(p) => Some(p@), None => None },
                ..bare_file(FileContent::PositionDeletes, file_path@, file_format, spec_id, partition@, record_count, file_size_in_bytes)
            }),
    {
        DeleteFile {
            data: ContentFileData::new_position_delete_file(
                file_path,
                file_format,
                spec_id,
                partition,
                record_count,
                file_size_in_bytes,
                referenced_data_file,
            ),
        }
    }

    /// An equality delete file with the required fields.
    pub fn new_equality_deletes(
        file_path: String,
        file_format: FileFormat,
        spec_id: i32,
        partition: PartitionData,
        record_count: i64,
        file_size_in_bytes: i64,
        equality_field_ids: Vec<i32>,
    ) -> (r: DeleteFile)
        ensures
            r@ == (ContentFileView {
                equality_field_ids: Some(equality_field_ids@),
                ..bare_file(FileContent::EqualityDeletes, file_path@, file_format, spec_id, partition@, record_count, file_size_in_bytes)
            }),
    {
        DeleteFile {
            data: ContentFileData::new_equality_delete_file(
                file_path,
                file_format,
                spec_id,
                partition,
                record_count,
                file_size_in_bytes,
                equality_field_ids,
            ),
        }
    }

    /// The delete file with the given metadata.
    pub fn from_data(data: ContentFileData) -> (r: DeleteFile)
        ensures
            r@ == data@,
    {
        DeleteFile { data }
    }

    /// The metadata.
    pub fn data(&self) -> (r: &ContentFileData)
        ensures
            r@ == self@,
    {
        &self.data
    }

    /// The equality field ids (equality deletes).
    pub fn equality_field_ids(&self) -> (r: Option<&[i32]>)
        ensures
            match r {
                Some(ids) => self@.equality_field_ids == Some(ids@),
                None => self@.equality_field_ids is None,
            },
    {
        match &self.data.equality_field_ids {
            Some(ids) => Some(ids_as_slice(ids)),
            None => None,
        }
    }

    /// The referenced data file (position deletes, deletion vectors).
    pub fn referenced_data_file(&self) -> (r: Option<&str>)
        ensures
            match r {
                Some(p) => self@.referenced_data_file == Some(p@),
                None => self@.referenced_data_file is None,
            },
    {
        match &self.data.referenced_data_file {
            Some(p) => Some(p.as_str()),
            None => None,
        }
    }

    /// The content offset (deletion vectors).
    pub fn content_offset(&self) -> (r: Option<i64>)
        ensures
            r == self@.content_offset,
    {
        self.data.content_offset
    }

    /// The content size in bytes (deletion vectors).
    pub fn content_size_in_bytes(&self) -> (r: Option<i64>)
        ensures
            r == self@.content_size_in_bytes,
    {
        self.data.content_size_in_bytes
    }

    /// Whether this is a deletion vector: position deletes in a Puffin file that name
    /// the data file they apply to.
    pub fn is_deletion_vector(&self) -> (r: bool)
        ensures
            r == (self@.content == FileContent::PositionDeletes && self@.file_format == FileFormat::Puffin
                && self@.referenced_data_file is Some),
    {
        self.data.content == FileContent::PositionDeletes && self.data.file_format == FileFormat::Puffin
            && self.data.referenced_data_file.is_some()
    }

    /// A copy of this file.
    pub fn duplicate(&self) -> (r: DeleteFile)
        ensures
            r@ == self@,
    {
        DeleteFile { data: self.data.duplicate() }
    }
}

/// What a data file records is its view, and it always holds data.
pub broadcast proof fn lemma_data_file_record(f: DataFile)
    ensures
        #[trigger] f.record() == f@,
        f.kind() == FileContent::Data,
{
}

/// What a delete file records is its view, and it holds what its view says.
pub broadcast proof fn lemma_delete_file_record(f: DeleteFile)
    ensures
        #[trigger] f.record() == f@,
        f.kind() == f@.content,
{
}

impl ContentFile for DataFile {
    closed spec fn record(&self) -> ContentFileView {
        self.data@
    }

    closed spec fn kind(&self) -> FileContent {
        FileContent::Data
    }

    fn content(&self) -> (r: FileContent) {
        FileContent::Data
    }

    fn file_path(&self) -> (r: &str) {
        self.data.file_path.as_str()
    }

    fn file_format(&self) -> (r: FileFormat) {
        self.data.file_format
    }

    fn spec_id(&self) -> (r: i32) {
        self.data.spec_id
    }

    fn partition(&self) -> (r: &PartitionData) {
        &self.data.partition
    }

    fn record_count(&self) -> (r: i64) {
        self.data.record_count
    }

    fn file_size_in_bytes(&self) -> (r: i64) {
        self.data.file_size_in_bytes
    }

    fn column_sizes(&self) -> (r: Option<&HashMap<i32, i64>>) {
        self.data.column_sizes.as_ref()
    }

    fn value_counts(&self) -> (r: Option<&HashMap<i32, i64>>) {
        self.data.value_counts.as_ref()
    }

    fn null_value_counts(&self) -> (r: Option<&HashMap<i32, i64>>) {
        self.data.null_value_counts.as_ref()
    }

    fn nan_value_counts(&self) -> (r: Option<&HashMap<i32, i64>>) {
        self.data.nan_value_counts.as_ref()
    }

    fn lower_bounds(&self) -> (r: Option<&HashMap<i32, Vec<u8>>>) {
        self.data.lower_bounds.as_ref()
    }

    fn upper_bounds(&self) -> (r: Option<&HashMap<i32, Vec<u8>>>) {
        self.data.upper_bounds.as_ref()
    }

    fn key_metadata(&self) -> (r: Option<&[u8]>) {
        match &self.data.key_metadata {
            Some(k) => Some(k.as_slice()),
            None => None,
        }
    }

    fn split_offsets(&self) -> (r: Option<&[i64]>) {
        match &self.data.split_offsets {
            Some(o) => Some(offsets_as_slice(o)),
            None => None,
        }
    }

    fn sort_order_id(&self) -> (r: Option<i32>) {
        self.data.sort_order_id
    }

    fn first_row_id(&self) -> (r: Option<i64>) {
        self.data.first_row_id
    }

    fn data_sequence_number(&self) -> (r: Option<i64>) {
        self.data.data_sequence_number
    }

    fn file_sequence_number(&self) -> (r: Option<i64>) {
        self.data.file_sequence_number
    }

    fn copy_without_stats(&self) -> (r: Self) {
        DataFile { data: self.data.copy_without_stats() }
    }
}

impl ContentFile for DeleteFile {
    closed spec fn record(&self) -> ContentFileView {
        self.data@
    }

    closed spec fn kind(&self) -> FileContent {
        self.data.content
    }

    fn content(&self) -> (r: FileContent) {
        self.data.content
    }

    fn file_path(&self) -> (r: &str) {
        self.data.file_path.as_str()
    }

    fn file_format(&self) -> (r: FileFormat) {
        self.data.file_format
    }

    fn spec_id(&self) -> (r: i32) {
        self.data.spec_id
    }

    fn partition(&self) -> (r: &PartitionData) {
        &self.data.partition
    }

    fn record_count(&self) -> (r: i64) {
        self.data.record_count
    }

    fn file_size_in_bytes(&self) -> (r: i64) {
        self.data.file_size_in_bytes
    }

    fn column_sizes(&self) -> (r: Option<&HashMap<i32, i64>>) {
        self.data.column_sizes.as_ref()
    }

    fn value_counts(&self) -> (r: Option<&HashMap<i32, i64>>) {
        self.data.value_counts.as_ref()
    }

    fn null_value_counts(&self) -> (r: Option<&HashMap<i32, i64>>) {
        self.data.null_value_counts.as_ref()
    }

    fn nan_value_counts(&self) -> (r: Option<&HashMap<i32, i64>>) {
        self.data.nan_value_counts.as_ref()
    }

    fn lower_bounds(&self) -> (r: Option<&HashMap<i32, Vec<u8>>>) {
        self.data.lower_bounds.as_ref()
    }

    fn upper_bounds(&self) -> (r: Option<&HashMap<i32, Vec<u8>>>) {
        self.data.upper_bounds.as_ref()
    }

    fn key_metadata(&self) -> (r: Option<&[u8]>) {
        match &self.data.key_metadata {
            Some(k) => Some(k.as_slice()),
            None => None,
        }
    }

    fn split_offsets(&self) -> (r: Option<&[i64]>) {
        match &self.data.split_offsets {
            Some(o) => Some(offsets_as_slice(o)),
            None => None,
        }
    }

    fn sort_order_id(&self) -> (r: Option<i32>) {
        self.data.sort_order_id
    }

    fn first_row_id(&self) -> (r: Option<i64>) {
        self.data.first_row_id
    }

    fn data_sequence_number(&self) -> (r: Option<i64>) {
        self.data.data_sequence_number
    }

    fn file_sequence_number(&self) -> (r: Option<i64>) {
        self.data.file_sequence_number
    }

    fn copy_without_stats(&self) -> (r: Self) {
        DeleteFile { data: self.data.copy_without_stats() }
    }
}

} // verus!
