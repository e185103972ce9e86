use std::collections::HashMap;

use iceberg_rust_native::delete::equality::{can_contain_eq_deletes_for_file, ranges_overlap, DataFileStats, EqualityDeleteFile, EqualityDeletes};
use iceberg_rust_native::delete::index::DeleteFileIndex;
use iceberg_rust_native::delete::position::{find_start_index, PositionDeletes};
use iceberg_rust_native::manifest::content_file::{ContentFile, ContentFileData, DataFile, DeleteFile};
use iceberg_rust_native::types::{FileContent, FileFormat, PartitionData, PartitionValue};

fn base(path: &str, content: FileContent, spec_id: i32, partition: PartitionData, seq: i64) -> ContentFileData {
    let mut data = ContentFileData::new_default();
    data.content = content;
    data.file_path = path.to_string();
    data.file_format = FileFormat::Parquet;
    data.spec_id = spec_id;
    data.partition = partition;
    data.data_sequence_number = Some(seq);
    data.record_count = 100;
    data
}

fn pos_delete(path: &str, spec_id: i32, partition: PartitionData, seq: i64) -> DeleteFile {
    DeleteFile::from_data(base(path, FileContent::PositionDeletes, spec_id, partition, seq))
}

fn eq_delete(path: &str, spec_id: i32, partition: PartitionData, seq: i64, fields: Vec<i32>) -> DeleteFile {
    let mut data = base(path, FileContent::EqualityDeletes, spec_id, partition, seq);
    if !fields.is_empty() {
        data.set_equality_field_ids(fields);
    }
    DeleteFile::from_data(data)
}

fn dv(path: &str, ref_path: &str, seq: i64) -> DeleteFile {
    let mut data = base(path, FileContent::PositionDeletes, 0, PartitionData::empty(), seq);
    data.record_count = 10;
    data.referenced_data_file = Some(ref_path.to_string());
    DeleteFile::from_data(data)
}

fn data_file(path: &str, spec_id: i32, partition: PartitionData, seq: i64) -> DataFile {
    DataFile::from_data(base(path, FileContent::Data, spec_id, partition, seq))
}

#[test]
fn test_position_deletes_empty() {
    let deletes = PositionDeletes::new();
    assert!(deletes.is_empty());
    assert_eq!(deletes.len(), 0);
    assert!(deletes.filter(100).is_empty());
}

#[test]
fn test_position_deletes_add_and_filter() {
    let mut deletes = PositionDeletes::new();
    deletes.add(pos_delete("delete1.parquet", 0, PartitionData::empty(), 10));
    deletes.add(pos_delete("delete2.parquet", 0, PartitionData::empty(), 20));
    deletes.add(pos_delete("delete3.parquet", 0, PartitionData::empty(), 30));
    assert_eq!(deletes.len(), 3);
    assert_eq!(deletes.filter(5).len(), 3);
    assert_eq!(deletes.filter(15).len(), 2);
    assert_eq!(deletes.filter(25).len(), 1);
    assert_eq!(deletes.filter(35).len(), 0);
}

#[test]
fn test_position_deletes_duplicate_seqs() {
    let mut deletes = PositionDeletes::new();
    deletes.add(pos_delete("delete1.parquet", 0, PartitionData::empty(), 10));
    deletes.add(pos_delete("delete2.parquet", 0, PartitionData::empty(), 10));
    deletes.add(pos_delete("delete3.parquet", 0, PartitionData::empty(), 20));
    assert_eq!(deletes.filter(5).len(), 3);
    assert_eq!(deletes.filter(10).len(), 3);
    assert_eq!(deletes.filter(15).len(), 1);
}

#[test]
fn position_deletes_come_out_in_sequence_order() {
    let mut deletes = PositionDeletes::new();
    deletes.add(pos_delete("late.parquet", 0, PartitionData::empty(), 30));
    deletes.add(pos_delete("early.parquet", 0, PartitionData::empty(), 10));
    let out = deletes.filter(0);
    assert_eq!(out[0].file_path(), "early.parquet");
    assert_eq!(out[1].file_path(), "late.parquet");
    assert_eq!(deletes.referenced_delete_files().len(), 2);
}

#[test]
fn test_find_start_index() {
    let seqs = vec![5, 10, 10, 15, 20, 25];
    assert_eq!(find_start_index(&seqs, 1), 0);
    assert_eq!(find_start_index(&seqs, 5), 0);
    assert_eq!(find_start_index(&seqs, 7), 1);
    assert_eq!(find_start_index(&seqs, 10), 1);
    assert_eq!(find_start_index(&seqs, 30), 6);
    assert_eq!(find_start_index(&[], 3), 0);
}

#[test]
fn test_equality_deletes_empty() {
    let deletes = EqualityDeletes::new();
    assert!(deletes.is_empty());
    assert_eq!(deletes.len(), 0);
    assert!(deletes.filter_all(100).is_empty());
}

#[test]
fn test_equality_deletes_add_and_filter() {
    let mut deletes = EqualityDeletes::new();
    deletes.add(eq_delete("delete1.parquet", 0, PartitionData::empty(), 10, vec![1]));
    deletes.add(eq_delete("delete2.parquet", 0, PartitionData::empty(), 20, vec![1]));
    deletes.add(eq_delete("delete3.parquet", 0, PartitionData::empty(), 30, vec![1]));
    assert_eq!(deletes.len(), 3);
    assert_eq!(deletes.filter_all(5).len(), 3);
    assert_eq!(deletes.filter_all(15).len(), 2);
    assert_eq!(deletes.filter_all(25).len(), 1);
    assert_eq!(deletes.filter_all(35).len(), 0);
}

#[test]
fn equality_delete_boundary_sequence() {
    let mut deletes = EqualityDeletes::new();
    deletes.add(eq_delete("d.parquet", 0, PartitionData::empty(), 10, vec![1]));
    assert_eq!(deletes.filter_all(9).len(), 1);
    assert_eq!(deletes.filter_all(10).len(), 0);
}

#[test]
fn test_equality_delete_file_wrapper() {
    let wrapper = EqualityDeleteFile::new(eq_delete("delete.parquet", 0, PartitionData::empty(), 10, vec![1, 2, 3]));
    assert_eq!(wrapper.apply_sequence_number(), 9);
    assert_eq!(wrapper.equality_field_ids(), &[1, 2, 3]);
    assert!(!wrapper.has_bounds());
}

#[test]
fn test_ranges_overlap() {
    assert!(ranges_overlap(&[1], &[5], &[3], &[7]));
    assert!(ranges_overlap(&[3], &[7], &[1], &[5]));
    assert!(ranges_overlap(&[1], &[5], &[5], &[10]));
    assert!(!ranges_overlap(&[1], &[5], &[6], &[10]));
    assert!(!ranges_overlap(&[6], &[10], &[1], &[5]));
    assert!(ranges_overlap(&[1], &[5], &[1], &[5]));
    assert!(ranges_overlap(&[1], &[10], &[3], &[7]));
    assert!(ranges_overlap(&[3], &[7], &[1], &[10]));
}

#[test]
fn ranges_overlap_compares_lexicographically() {
    assert!(!ranges_overlap(&[1, 2], &[1, 9], &[2], &[3]));
    assert!(ranges_overlap(&[1], &[1, 0], &[1, 0], &[2]));
}

fn bounded_eq_delete(lower: u8, upper: u8) -> EqualityDeleteFile {
    let mut data = base("eqb.parquet", FileContent::EqualityDeletes, 0, PartitionData::empty(), 10);
    data.set_equality_field_ids(vec![1]);
    data.lower_bounds = Some(HashMap::from_iter([(1, vec![lower])]));
    data.upper_bounds = Some(HashMap::from_iter([(1, vec![upper])]));
    data.null_value_counts = Some(HashMap::from_iter([(1, 0)]));
    EqualityDeleteFile::new(DeleteFile::from_data(data))
}

#[test]
fn equality_delete_pruned_by_bounds() {
    let delete = bounded_eq_delete(5, 7);
    assert!(delete.has_bounds());
    assert_eq!(delete.lower_bound(1), Some(&[5u8][..]));
    let below = DataFileStats::new()
        .with_null_value_counts(HashMap::from_iter([(1, 0)]))
        .with_lower_bounds(HashMap::from_iter([(1, vec![1])]))
        .with_upper_bounds(HashMap::from_iter([(1, vec![3])]));
    assert!(!can_contain_eq_deletes_for_file(&below, &delete));
    let overlapping = DataFileStats::new()
        .with_null_value_counts(HashMap::from_iter([(1, 0)]))
        .with_lower_bounds(HashMap::from_iter([(1, vec![6])]))
        .with_upper_bounds(HashMap::from_iter([(1, vec![9])]));
    assert!(can_contain_eq_deletes_for_file(&overlapping, &delete));
    assert!(can_contain_eq_deletes_for_file(&DataFileStats::new(), &delete));

    let mut deletes = EqualityDeletes::new();
    deletes.add(bounded_eq_delete(5, 7).file().duplicate());
    assert_eq!(deletes.filter(1, &below).len(), 0);
    assert_eq!(deletes.filter(1, &overlapping).len(), 1);
}

#[test]
fn test_empty_index() {
    let index = DeleteFileIndex::builder().build();
    assert!(index.is_empty());
    assert!(!index.has_equality_deletes());
    assert!(!index.has_position_deletes());
    assert_eq!(index.file_count(), 0);
}

#[test]
fn test_position_deletes_by_partition() {
    let index = DeleteFileIndex::builder()
        .add_delete_file(pos_delete("del1.parquet", 0, PartitionData::empty(), 10))
        .add_delete_file(pos_delete("del2.parquet", 0, PartitionData::empty(), 20))
        .build();
    assert!(!index.is_empty());
    assert!(index.has_position_deletes());
    assert!(!index.has_equality_deletes());
    assert_eq!(index.file_count(), 2);
    let data = data_file("data.parquet", 0, PartitionData::empty(), 5);
    assert_eq!(index.for_data_file(5, &data).len(), 2);
    assert_eq!(index.for_data_file(15, &data).len(), 1);
    assert_eq!(index.for_data_file(25, &data).len(), 0);
}

#[test]
fn test_equality_deletes_global() {
    let index = DeleteFileIndex::builder()
        .add_delete_file(eq_delete("eq_del.parquet", 0, PartitionData::empty(), 10, vec![1]))
        .build();
    assert!(!index.is_empty());
    assert!(index.has_equality_deletes());
    assert!(!index.has_position_deletes());
    let data = data_file("data.parquet", 0, PartitionData::empty(), 5);
    assert_eq!(index.for_data_file(5, &data).len(), 1);
    assert_eq!(index.for_data_file(10, &data).len(), 0);
}

#[test]
fn test_dv_takes_precedence() {
    let index = DeleteFileIndex::builder()
        .add_delete_file(pos_delete("pos_del.parquet", 0, PartitionData::empty(), 10))
        .add_delete_file(dv("dv.bin", "data.parquet", 15))
        .build();
    let data = data_file("data.parquet", 0, PartitionData::empty(), 5);
    let deletes = index.for_data_file(5, &data);
    assert_eq!(deletes.len(), 1);
    assert!(deletes[0].referenced_data_file().is_some());
}

#[test]
fn test_min_sequence_number_filter() {
    let index = DeleteFileIndex::builder()
        .add_delete_file(pos_delete("del1.parquet", 0, PartitionData::empty(), 10))
        .add_delete_file(pos_delete("del2.parquet", 0, PartitionData::empty(), 20))
        .min_sequence_number(15)
        .build();
    assert_eq!(index.file_count(), 1);
    let data = data_file("data.parquet", 0, PartitionData::empty(), 5);
    assert_eq!(index.for_data_file(5, &data).len(), 1);
}

#[test]
fn test_partition_isolation() {
    let p1 = PartitionData::new(vec![PartitionValue::Int(1)]);
    let p2 = PartitionData::new(vec![PartitionValue::Int(2)]);
    let index = DeleteFileIndex::builder()
        .add_delete_file(pos_delete("del1.parquet", 0, p1.duplicate(), 10))
        .add_delete_file(pos_delete("del2.parquet", 0, p2.duplicate(), 10))
        .build();
    let deletes = index.for_data_file(5, &data_file("data1.parquet", 0, p1.duplicate(), 5));
    assert_eq!(deletes.len(), 1);
    assert_eq!(deletes[0].file_path(), "del1.parquet");
    let deletes = index.for_data_file(5, &data_file("data2.parquet", 0, p2.duplicate(), 5));
    assert_eq!(deletes.len(), 1);
    assert_eq!(deletes[0].file_path(), "del2.parquet");
}

#[test]
fn test_all_delete_files() {
    let index = DeleteFileIndex::builder()
        .add_delete_file(pos_delete("pos1.parquet", 0, PartitionData::empty(), 10))
        .add_delete_file(eq_delete("eq1.parquet", 0, PartitionData::empty(), 20, vec![1]))
        .add_delete_file(dv("dv.bin", "data.parquet", 30))
        .build();
    assert_eq!(index.all_delete_files().len(), 3);
    assert_eq!(index.file_count(), 3);
}

#[test]
fn index_by_entry_uses_file_sequence() {
    let index = DeleteFileIndex::builder()
        .add_delete_file(pos_delete("del1.parquet", 0, PartitionData::empty(), 10))
        .build();
    let data = data_file("data.parquet", 0, PartitionData::empty(), 5);
    assert_eq!(index.for_entry(5, &data).len(), 1);
    assert_eq!(index.for_entry(11, &data).len(), 0);
}

#[test]
fn index_counts_and_kinds_follow_kept_files() {
    let index = DeleteFileIndex::builder()
        .add_delete_file(eq_delete("eq_low.parquet", 0, PartitionData::empty(), 10, vec![1]))
        .add_delete_file(pos_delete("pos_high.parquet", 0, PartitionData::empty(), 20))
        .add_delete_file(pos_delete("pos_at_min.parquet", 0, PartitionData::empty(), 15))
        .min_sequence_number(15)
        .build();
    assert_eq!(index.file_count(), 1);
    assert!(!index.is_empty());
    assert!(index.has_position_deletes());
    assert!(!index.has_equality_deletes());
    let none_kept = DeleteFileIndex::builder()
        .add_delete_file(eq_delete("eq_low.parquet", 0, PartitionData::empty(), 10, vec![1]))
        .min_sequence_number(10)
        .build();
    assert_eq!(none_kept.file_count(), 0);
    assert!(none_kept.is_empty());
    assert!(!none_kept.has_equality_deletes());
}
