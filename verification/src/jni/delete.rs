//! The delete file index as the Java bindings use it: delete files and data files
//! described by plain records, the index built from them, and the delete files found
//! described again.
use vstd::prelude::*;
use crate::text::{owned, copy_string, str_eq, to_lowercase, lowercase_of};
use crate::types::{FileContent, FileFormat, PartitionData, PartitionValueView};
use crate::manifest::content_file::{ContentFile, ContentFileData, ContentFileView, DataFile, DeleteFile, bare_file,
    lemma_delete_file_record};
use crate::manifest::small::{ids_from_vec, id_items};
use crate::delete::index::{DeleteFileIndex, DeleteFileIndexBuilder, index_of};
use crate::delete::position::delete_views;

verus! {

broadcast use lemma_delete_file_record, vstd::string::group_string_axioms;

/// A delete file as the bindings describe it.
#[derive(Debug)]
pub struct DeleteFileData {
    pub file_path: String,
    pub file_format: String,
    pub spec_id: i32,
    pub record_count: i64,
    pub file_size_in_bytes: i64,
    /// 1 for position deletes, 2 for equality deletes
    pub content: i32,
    pub data_sequence_number: Option<i64>,
    pub referenced_data_file: Option<String>,
    pub equality_field_ids: Option<Vec<i32>>,
}

/// A data file as the bindings describe it for a lookup; its partition is given
/// apart.
#[derive(Debug)]
pub struct DataFileData {
    pub file_path: String,
    pub spec_id: i32,
    pub data_sequence_number: i64,
    pub partition_json: String,
}

/// The format a record names: Parquet, Avro or ORC in any case, else Parquet.
pub open spec fn named_format(name: Seq<char>) -> FileFormat {
    let lower = lowercase_of(name);
    if lower == "avro"@ {
        FileFormat::Avro
    } else if lower == "orc"@ {
        FileFormat::Orc
    } else {
        FileFormat::Parquet
    }
}

/// The delete file a record describes: position deletes unless the content is 2.
pub open spec fn delete_file_of(d: DeleteFileData) -> ContentFileView {
    ContentFileView {
        data_sequence_number: d.data_sequence_number,
        referenced_data_file: match d.referenced_data_file {
            Some(p) => Some(p@),
            None => None,
        },
        equality_field_ids: match d.equality_field_ids {
            Some(ids) => Some(ids@),
            None => None,
        },
        ..bare_file(
            if d.content == 2 {
                FileContent::EqualityDeletes
            } else {
                FileContent::PositionDeletes
            },
            d.file_path@,
            named_format(d.file_format@),
            d.spec_id,
            Seq::empty(),
            d.record_count,
            d.file_size_in_bytes,
        )
    }
}

/// The delete files the records describe.
pub open spec fn delete_files_of(ds: Seq<DeleteFileData>) -> Seq<ContentFileView> {
    Seq::new(ds.len(), |i: int| delete_file_of(ds[i]))
}

/// The delete file a record describes.
pub fn delete_file_from_data(d: DeleteFileData) -> (r: DeleteFile)
    ensures
        r@ == delete_file_of(d),
{
    let ghost dd = d;
    proof {
        reveal_strlit("parquet");
        reveal_strlit("avro");
        reveal_strlit("orc");
    }
    let mut data = ContentFileData::new_default();
    let lower = to_lowercase(d.file_format.as_str());
    assert(lower@ == lowercase_of(dd.file_format@));
    let format = if str_eq(lower.as_str(), "parquet") {
        FileFormat::Parquet
    } else if str_eq(lower.as_str(), "avro") {
        FileFormat::Avro
    } else if str_eq(lower.as_str(), "orc") {
        FileFormat::Orc
    } else {
        FileFormat::Parquet
    };
    assert(format == named_format(dd.file_format@));
    data.file_format = format;
    data.file_path = d.file_path;
    data.spec_id = d.spec_id;
    data.record_count = d.record_count;
    data.file_size_in_bytes = d.file_size_in_bytes;
    data.content = if d.content == 2 {
        FileContent::EqualityDeletes
    } else {
        FileContent::PositionDeletes
    };
    data.data_sequence_number = d.data_sequence_number;
    data.referenced_data_file = d.referenced_data_file;
    data.equality_field_ids = match d.equality_field_ids {
        Some(ids) => Some(ids_from_vec(ids)),
        None => None,
    };
    data.partition = PartitionData::empty();
    let r = DeleteFile::from_data(data);
    assert(r@.partition =~= delete_file_of(dd).partition);
    assert(r@.file_format == delete_file_of(dd).file_format);
    assert(r@.equality_field_ids == delete_file_of(dd).equality_field_ids);
    assert(r@ == delete_file_of(dd));
    r
}

/// The index of the delete files the records describe; a minimum sequence number is
/// applied only when it is positive.
pub fn build_index(records: Vec<DeleteFileData>, min_seq_number: i64) -> (r: DeleteFileIndex)
    ensures
        r@ == index_of(delete_files_of(records@), if min_seq_number > 0 { min_seq_number } else { 0 }, None),
{
    let ghost rs = records@;
    let mut files: Vec<DeleteFile> = Vec::new();
    for d in it: records.into_iter()
        invariant
            it.seq() == rs,
            delete_views(files@) == delete_files_of(rs).take(it.index() as int),
    {
        let ghost k = it.index();
        let f = delete_file_from_data(d);
        let ghost before = files@;
        files.push(f);
        proof {
            assert(delete_views(files@) =~= delete_views(before).push(f@));
            assert(delete_files_of(rs).take(k + 1) =~= delete_files_of(rs).take(k).push(delete_file_of(rs[k])));
        }
    }
    proof {
        assert(delete_files_of(rs).take(rs.len() as int) =~= delete_files_of(rs));
    }
    let mut builder = DeleteFileIndexBuilder::new();
    builder = builder.add_delete_files(files);
    assert(builder.files() =~= delete_files_of(rs));
    if min_seq_number > 0 {
        builder = builder.min_sequence_number(min_seq_number);
    }
    builder.build()
}

/// The data file a lookup record describes, with the given partition: Parquet, data
/// content, no counts, the record's sequence number.
pub fn data_file_from_data(d: &DataFileData, partition: PartitionData) -> (r: DataFile)
    ensures
        r@ == (ContentFileView {
            data_sequence_number: Some(d.data_sequence_number),
            ..bare_file(FileContent::Data, d.file_path@, FileFormat::Parquet, d.spec_id, partition@, 0, 0)
        }),
{
    let ghost p = partition@;
    let mut data = ContentFileData::new_default();
    data.file_path = copy_string(&d.file_path);
    data.file_format = FileFormat::Parquet;
    data.spec_id = d.spec_id;
    data.content = FileContent::Data;
    data.data_sequence_number = Some(d.data_sequence_number);
    data.partition = partition;
    data.record_count = 0;
    data.file_size_in_bytes = 0;
    DataFile::from_data(data)
}

/// The name `Debug` gives a format.
pub open spec fn format_debug_name(f: FileFormat) -> Seq<char> {
    match f {
        FileFormat::Avro => "Avro"@,
        FileFormat::Parquet => "Parquet"@,
        FileFormat::Orc => "Orc"@,
        FileFormat::Puffin => "Puffin"@,
    }
}

/// The name `Debug` gives a format.
pub fn format_debug_string(f: FileFormat) -> (r: String)
    ensures
        r@ == format_debug_name(f),
{
    match f {
        FileFormat::Avro => owned("Avro"),
        FileFormat::Parquet => owned("Parquet"),
        FileFormat::Orc => owned("Orc"),
        FileFormat::Puffin => owned("Puffin"),
    }
}

/// The record describing a delete file.
pub open spec fn describes(d: DeleteFileData, f: ContentFileView) -> bool {
    &&& d.file_path@ == f.file_path
    &&& d.file_format@ == format_debug_name(f.file_format)
    &&& d.spec_id == f.spec_id
    &&& d.record_count == f.record_count
    &&& d.file_size_in_bytes == f.file_size_in_bytes
    &&& d.content == crate::types::content_id(f.content)
    &&& d.data_sequence_number == f.data_sequence_number
    &&& match (d.referenced_data_file, f.referenced_data_file) {
        (Some(a), Some(b)) => a@ == b,
        (None, None) => true,
        _ => false,
    }
    &&& match (d.equality_field_ids, f.equality_field_ids) {
        (Some(a), Some(b)) => a@ == b,
        (None, None) => true,
        _ => false,
    }
}

fn copy_ids(ids: &[i32]) -> (r: Vec<i32>)
    ensures
        r@ == ids@,
{
    let mut out: Vec<i32> = Vec::new();
    let mut i: usize = 0;
    while i < ids.len()
        invariant
            i <= ids.len(),
            out@ == ids@.take(i as int),
        decreases ids.len() - i,
    {
        out.push(ids[i]);
        i = i + 1;
        assert(out@ =~= ids@.take(i as int));
    }
    assert(ids@.take(ids.len() as int) =~= ids@);
    out
}

/// The record describing a delete file.
pub fn delete_file_data_of(f: &DeleteFile) -> (r: DeleteFileData)
    ensures
        describes(r, f@),
{
    let format = format_debug_string(f.file_format());
    DeleteFileData {
        file_path: owned(f.file_path()),
        file_format: format,
        spec_id: f.spec_id(),
        record_count: f.record_count(),
        file_size_in_bytes: f.file_size_in_bytes(),
        content: f.content().id(),
        data_sequence_number: f.data_sequence_number(),
        referenced_data_file: match f.referenced_data_file() {
            Some(p) => Some(owned(p)),
            None => None,
        },
        equality_field_ids: match f.equality_field_ids() {
            Some(ids) => Some(copy_ids(ids)),
            None => None,
        },
    }
}

/// The records describing delete files, in order.
pub fn delete_files_data(files: &Vec<DeleteFile>) -> (r: Vec<DeleteFileData>)
    ensures
        r@.len() == files@.len(),
        forall|i: int| 0 <= i < files@.len() ==> describes(#[trigger] r@[i], files@[i]@),
{
    let mut out: Vec<DeleteFileData> = Vec::new();
    let mut i: usize = 0;
    while i < files.len()
        invariant
            i <= files.len(),
            out@.len() == i,
            forall|k: int| 0 <= k < i ==> describes(#[trigger] out@[k], files@[k]@),
        decreases files.len() - i,
    {
        out.push(delete_file_data_of(&files[i]));
        i = i + 1;
    }
    out
}

} // verus!
