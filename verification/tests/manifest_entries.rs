use std::collections::HashMap;

use iceberg_rust_native::error::Error;
use iceberg_rust_native::expr::datum::Datum;
use iceberg_rust_native::manifest::avro::{parse_manifest_entry, AvroValue};
use iceberg_rust_native::manifest::content_file::{ContentFile, ContentFileData, DataFile, DeleteFile};
use iceberg_rust_native::manifest::entry::{ManifestEntry, ManifestEntryBuilder, Status, TypedManifestEntry};
use iceberg_rust_native::manifest::filter::{FileMetrics, InclusiveMetricsEvaluator, PartitionEvaluator, PartitionSet};
use iceberg_rust_native::manifest::group::{gather, tally_reads, ManifestFile, ManifestGroup, ParallelReadResult};
use iceberg_rust_native::manifest::reader::{ManifestContent, ManifestMetadata, ManifestReaderBuilder};
use iceberg_rust_native::types::{FileContent, FileFormat, PartitionData, PartitionValue};

fn data_file(path: &str, records: i64) -> DataFile {
    DataFile::new(path.to_string(), FileFormat::Parquet, 0, PartitionData::empty(), records, 1024)
}

#[test]
fn test_file_format_from_str() {
    assert_eq!(FileFormat::from_str("parquet"), Some(FileFormat::Parquet));
    assert_eq!(FileFormat::from_str("PARQUET"), Some(FileFormat::Parquet));
    assert_eq!(FileFormat::from_str("avro"), Some(FileFormat::Avro));
    assert_eq!(FileFormat::from_str("orc"), Some(FileFormat::Orc));
    assert_eq!(FileFormat::from_str("unknown"), None);
}

#[test]
fn file_format_from_extension_and_name() {
    assert_eq!(FileFormat::from_extension("s3://b/x.parquet"), Some(FileFormat::Parquet));
    assert_eq!(FileFormat::from_extension("d.puffin"), Some(FileFormat::Puffin));
    assert_eq!(FileFormat::from_extension("noext"), None);
    assert_eq!(FileFormat::Parquet.to_display_string(), "parquet");
}

#[test]
fn test_file_content_from_id() {
    assert_eq!(FileContent::from_id(0), Some(FileContent::Data));
    assert_eq!(FileContent::from_id(1), Some(FileContent::PositionDeletes));
    assert_eq!(FileContent::from_id(2), Some(FileContent::EqualityDeletes));
    assert_eq!(FileContent::from_id(3), None);
    assert_eq!(FileContent::EqualityDeletes.id(), 2);
}

#[test]
fn test_partition_data() {
    let partition = PartitionData::new(vec![PartitionValue::String("2024-01-15".to_string()), PartitionValue::Int(42)]);
    assert_eq!(partition.len(), 2);
    assert!(!partition.is_empty());
    match partition.get(0) {
        Some(PartitionValue::String(s)) => assert_eq!(s, "2024-01-15"),
        _ => panic!("Expected string partition value"),
    }
    assert!(partition.get(2).is_none());
}

#[test]
fn test_data_file_creation() {
    let file = DataFile::new("s3://bucket/data/file.parquet".to_string(), FileFormat::Parquet, 0, PartitionData::empty(), 1000, 1024 * 1024);
    assert_eq!(file.content(), FileContent::Data);
    assert_eq!(file.file_path(), "s3://bucket/data/file.parquet");
    assert_eq!(file.file_format(), FileFormat::Parquet);
    assert_eq!(file.record_count(), 1000);
    assert_eq!(file.file_size_in_bytes(), 1024 * 1024);
    assert!(file.first_row_id().is_none());
}

#[test]
fn test_delete_file_creation() {
    let file = DeleteFile::new_position_deletes(
        "s3://bucket/data/deletes.puffin".to_string(),
        FileFormat::Puffin,
        0,
        PartitionData::empty(),
        10,
        1024,
        Some("s3://bucket/data/file.parquet".to_string()),
    );
    assert_eq!(file.content(), FileContent::PositionDeletes);
    assert!(file.is_deletion_vector());
    assert_eq!(file.referenced_data_file(), Some("s3://bucket/data/file.parquet"));
}

#[test]
fn equality_delete_file_is_no_deletion_vector() {
    let file = DeleteFile::new_equality_deletes("e.parquet".to_string(), FileFormat::Parquet, 0, PartitionData::empty(), 3, 100, vec![1, 2]);
    assert_eq!(file.content(), FileContent::EqualityDeletes);
    assert!(!file.is_deletion_vector());
    assert_eq!(file.equality_field_ids(), Some(&[1, 2][..]));
}

#[test]
fn test_copy_without_stats() {
    let mut data = ContentFileData::new_data_file("s3://bucket/data/file.parquet".to_string(), FileFormat::Parquet, 0, PartitionData::empty(), 1000, 1024 * 1024);
    data.column_sizes = Some(HashMap::from_iter([(1, 100), (2, 200)]));
    data.value_counts = Some(HashMap::from_iter([(1, 1000), (2, 1000)]));
    let file = DataFile::from_data(data);
    assert!(file.column_sizes().is_some());
    let copy = file.copy_without_stats();
    assert!(copy.column_sizes().is_none());
    assert!(copy.value_counts().is_none());
    assert_eq!(copy.file_path(), file.file_path());
    assert_eq!(copy.record_count(), file.record_count());
}

#[test]
fn test_status_from_id() {
    assert_eq!(Status::from_id(0), Some(Status::Existing));
    assert_eq!(Status::from_id(1), Some(Status::Added));
    assert_eq!(Status::from_id(2), Some(Status::Deleted));
    assert_eq!(Status::from_id(3), None);
}

#[test]
fn test_status_is_live() {
    assert!(Status::Existing.is_live());
    assert!(Status::Added.is_live());
    assert!(!Status::Deleted.is_live());
}

#[test]
fn status_id_round_trip() {
    for s in [Status::Existing, Status::Added, Status::Deleted] {
        assert_eq!(Status::from_id(s.id()), Some(s));
    }
    assert_eq!(Status::Deleted.to_display_string(), "DELETED");
}

#[test]
fn test_manifest_entry() {
    let entry = ManifestEntry::new(Status::Added, Some(123), Some(1), Some(1), data_file("s3://bucket/file.parquet", 1000));
    assert_eq!(entry.status(), Status::Added);
    assert_eq!(entry.snapshot_id(), Some(123));
    assert!(entry.is_live());
    assert_eq!(entry.file().file_path(), "s3://bucket/file.parquet");
}

#[test]
fn test_entry_builder() {
    let entry = ManifestEntryBuilder::new()
        .status(Status::Added)
        .snapshot_id(123)
        .data_sequence_number(1)
        .file(data_file("s3://bucket/file.parquet", 1000))
        .build()
        .unwrap();
    assert_eq!(entry.status(), Status::Added);
    assert_eq!(entry.snapshot_id(), Some(123));
    assert_eq!(entry.data_sequence_number(), Some(1));
}

#[test]
fn entry_builder_without_file_fails() {
    let built = ManifestEntryBuilder::<DataFile>::new().status(Status::Added).build();
    assert!(built.is_none());
}

#[test]
fn test_manifest_content() {
    assert_eq!(ManifestContent::Data, ManifestContent::Data);
    assert_ne!(ManifestContent::Data, ManifestContent::Deletes);
}

#[test]
fn test_status_parsing() {
    assert_eq!(Status::from_id(0), Some(Status::Existing));
    assert_eq!(Status::from_id(1), Some(Status::Added));
    assert_eq!(Status::from_id(2), Some(Status::Deleted));
}

#[test]
fn test_builder_defaults() {
    let builder = ManifestReaderBuilder::new();
    assert!(builder.first_row_id.is_none());
    assert!(!builder.include_deleted);
    assert!(builder.keep_stats);
    assert!(builder.case_sensitive);
}

#[test]
fn test_partition_evaluator_always_true() {
    let evaluator = PartitionEvaluator::always_true();
    assert!(evaluator.eval(&PartitionData::empty()));
}

#[test]
fn test_inclusive_metrics_evaluator_empty() {
    let evaluator = InclusiveMetricsEvaluator::new();
    assert!(evaluator.eval(&FileMetrics::new(100)));
}

#[test]
fn test_inclusive_metrics_not_null() {
    let evaluator = InclusiveMetricsEvaluator::new().not_null(1);
    let metrics = FileMetrics::new(100).with_null_counts(HashMap::from_iter([(1, 50)]));
    assert!(evaluator.eval(&metrics));
    let metrics = FileMetrics::new(100).with_null_counts(HashMap::from_iter([(1, 100)]));
    assert!(!evaluator.eval(&metrics));
}

#[test]
fn test_inclusive_metrics_is_null() {
    let evaluator = InclusiveMetricsEvaluator::new().is_null(1);
    let metrics = FileMetrics::new(100).with_null_counts(HashMap::from_iter([(1, 50)]));
    assert!(evaluator.eval(&metrics));
    let metrics = FileMetrics::new(100).with_null_counts(HashMap::from_iter([(1, 0)]));
    assert!(!evaluator.eval(&metrics));
}

#[test]
fn inclusive_metrics_bounds() {
    let evaluator = InclusiveMetricsEvaluator::new().less_than(1, Datum::int32(10));
    let low = FileMetrics::new(10).with_lower_bounds(HashMap::from_iter([(1, 5i32.to_le_bytes().to_vec())]));
    assert!(evaluator.eval(&low));
    let high = FileMetrics::new(10).with_lower_bounds(HashMap::from_iter([(1, 20i32.to_le_bytes().to_vec())]));
    assert!(!evaluator.eval(&high));
    let unknown = FileMetrics::new(10);
    assert!(evaluator.eval(&unknown));
}

#[test]
fn test_partition_set() {
    let mut set = PartitionSet::new();
    let p1 = PartitionData::new(vec![PartitionValue::Int(2024)]);
    let p2 = PartitionData::new(vec![PartitionValue::Int(2023)]);
    set.add(0, p1.duplicate());
    assert!(set.contains(0, &p1));
    assert!(!set.contains(0, &p2));
    assert!(!set.contains(1, &p1));
    assert!(!set.is_empty());
    assert!(PartitionSet::new().is_empty());
}

#[test]
fn test_manifest_file_creation() {
    let mf = ManifestFile::data("test.avro".to_string()).with_first_row_id(100).with_counts(10, 20, 5).with_spec_id(1);
    assert_eq!(mf.content, ManifestContent::Data);
    assert_eq!(mf.first_row_id, Some(100));
    assert_eq!(mf.added_files_count, Some(10));
    assert_eq!(mf.existing_files_count, Some(20));
    assert_eq!(mf.deleted_files_count, Some(5));
    assert_eq!(mf.partition_spec_id, 1);
}

#[test]
fn test_manifest_group_builder() {
    let group = ManifestGroup::builder()
        .add_manifest(ManifestFile::data("m1.avro".to_string()))
        .add_manifest(ManifestFile::data("m2.avro".to_string()))
        .parallelism(4)
        .keep_stats(false)
        .build();
    assert_eq!(group.manifest_count(), 2);
    assert_eq!(group.parallelism, Some(4));
    assert!(!group.keep_stats);
}

#[test]
fn test_manifest_sequence_filter() {
    let mf = ManifestFile::data("test.avro".to_string()).with_sequence_numbers(100, 50);
    assert!(mf.might_contain_matching_files(Some(30)));
    assert!(mf.might_contain_matching_files(Some(50)));
    assert!(!mf.might_contain_matching_files(Some(60)));
    assert!(mf.might_contain_matching_files(None));
}

#[test]
fn manifests_to_read_selects_content_and_sequence() {
    let group = ManifestGroup::builder()
        .add_manifest(ManifestFile::data("m1.avro".to_string()).with_sequence_numbers(10, 10))
        .add_manifest(ManifestFile::deletes("d1.avro".to_string()).with_sequence_numbers(10, 10))
        .add_manifest(ManifestFile::data("m2.avro".to_string()).with_sequence_numbers(3, 3))
        .min_sequence_number(5)
        .build();
    assert_eq!(group.manifests_to_read(ManifestContent::Data), vec![0]);
    assert_eq!(group.manifests_to_read(ManifestContent::Deletes), vec![1]);
}

#[test]
fn test_empty_result() {
    let result: ParallelReadResult<ManifestEntry<DataFile>> = ParallelReadResult::empty();
    assert!(result.is_empty());
    assert_eq!(result.len(), 0);
}

#[test]
fn gather_concatenates_or_reports_first_failure() {
    let ok: Vec<Result<Vec<i32>, Error>> = vec![Ok(vec![1, 2]), Ok(vec![]), Ok(vec![3])];
    let r = gather(ok).unwrap();
    assert_eq!(r.entries, vec![1, 2, 3]);
    assert_eq!(r.stats.total_manifests, 3);
    assert_eq!(r.stats.total_entries, 3);
    let bad: Vec<Result<Vec<i32>, Error>> = vec![Ok(vec![1]), Err(Error::other("first")), Err(Error::other("second"))];
    match gather(bad) {
        Err(e) => assert_eq!(e.to_display_string(), "first"),
        Ok(_) => panic!("expected failure"),
    }
}

fn entry_value(status: i32, path: &str, records: i64) -> AvroValue {
    let file = AvroValue::Record(vec![
        ("content".to_string(), AvroValue::Int(0)),
        ("file_path".to_string(), AvroValue::String(path.to_string())),
        ("file_format".to_string(), AvroValue::String("PARQUET".to_string())),
        ("partition".to_string(), AvroValue::Record(vec![])),
        ("record_count".to_string(), AvroValue::Long(records)),
        ("file_size_in_bytes".to_string(), AvroValue::Long(2048)),
        ("column_sizes".to_string(), AvroValue::Union(1, Box::new(AvroValue::Array(vec![AvroValue::Record(vec![
            ("key".to_string(), AvroValue::Int(1)),
            ("value".to_string(), AvroValue::Long(77)),
        ])])))),
    ]);
    AvroValue::Record(vec![
        ("status".to_string(), AvroValue::Int(status)),
        ("snapshot_id".to_string(), AvroValue::Union(1, Box::new(AvroValue::Long(9)))),
        ("data_file".to_string(), file),
    ])
}

#[test]
fn parse_manifest_entry_reads_fields() {
    let raw = parse_manifest_entry(&entry_value(1, "a.parquet", 5)).unwrap();
    let entry = raw.into_data_entry();
    assert_eq!(entry.status(), Status::Added);
    assert_eq!(entry.snapshot_id(), Some(9));
    assert_eq!(entry.file().file_path(), "a.parquet");
    assert_eq!(entry.file().record_count(), 5);
    assert_eq!(entry.file().column_sizes().unwrap().get(&1), Some(&77));
    assert!(matches!(parse_manifest_entry(&AvroValue::Int(3)), Err(Error::InvalidData { .. })));
}

#[test]
fn typed_entry_follows_content() {
    let raw = parse_manifest_entry(&entry_value(0, "a.parquet", 5)).unwrap();
    match raw.into_typed_entry() {
        TypedManifestEntry::Data(e) => assert_eq!(e.file().file_path(), "a.parquet"),
        TypedManifestEntry::Delete(_) => panic!("expected a data entry"),
    }
}

#[test]
fn reading_skips_deleted_and_assigns_row_ids() {
    let mut state = ManifestReaderBuilder::new().first_row_id(100).start(ManifestMetadata::default());
    assert!(state.check_data_manifest().is_ok());
    assert!(state.check_delete_manifest().is_err());
    let first = state.read_data_value(&entry_value(1, "a.parquet", 10)).unwrap().unwrap();
    let first = state.finish_data_entry(first);
    assert_eq!(first.file().first_row_id(), Some(100));
    assert_eq!(state.current_row_id(), 110);
    assert!(state.read_data_value(&entry_value(2, "gone.parquet", 10)).unwrap().is_none());
    let second = state.read_data_value(&entry_value(0, "b.parquet", 4)).unwrap().unwrap();
    let second = state.finish_data_entry(second);
    assert_eq!(second.file().first_row_id(), Some(110));
    assert_eq!(state.current_row_id(), 114);
    let stats = state.stats();
    assert_eq!(stats.total_entries, 3);
    assert_eq!(stats.returned_entries, 3);
}

#[test]
fn reading_drops_statistics_when_asked() {
    let mut state = ManifestReaderBuilder::new().keep_stats(false).start(ManifestMetadata::default());
    let e = state.read_data_value(&entry_value(1, "a.parquet", 10)).unwrap().unwrap();
    let e = state.finish_data_entry(e);
    assert!(e.file().column_sizes().is_none());
    assert!(e.file().first_row_id().is_none());
}

#[test]
fn reading_filters_by_partition_set_and_metrics() {
    let mut set = PartitionSet::new();
    set.add(0, PartitionData::new(vec![PartitionValue::Int(1)]));
    let mut state = ManifestReaderBuilder::new().filter_partition_set(set).start(ManifestMetadata::default());
    assert!(state.read_data_value(&entry_value(1, "a.parquet", 10)).unwrap().is_none());
    assert_eq!(state.stats().skipped_by_partition_set, 1);
    assert_eq!(state.stats().returned_entries, 0);

    let evaluator = InclusiveMetricsEvaluator::new().is_null(3);
    let mut state = ManifestReaderBuilder::new().metrics_evaluator(evaluator).start(ManifestMetadata::default());
    assert!(state.read_data_value(&entry_value(1, "a.parquet", 10)).unwrap().is_some());
}

#[test]
fn manifest_metadata_from_header() {
    let header = vec![
        ("content".to_string(), b"deletes".to_vec()),
        ("partition-spec-id".to_string(), b"3".to_vec()),
        ("format-version".to_string(), b"2".to_vec()),
        ("schema".to_string(), b"{}".to_vec()),
    ];
    let m = ManifestMetadata::from_header(&header);
    assert_eq!(m.content, ManifestContent::Deletes);
    assert_eq!(m.partition_spec_id, Some(3));
    assert_eq!(m.format_version, Some(2));
    assert_eq!(m.schema, Some("{}".to_string()));
    assert!(m.partition_spec.is_none());
    let state = ManifestReaderBuilder::new().start(m);
    assert!(state.is_delete_manifest());
    match state.check_data_manifest() {
        Err(Error::InvalidData { message }) => assert_eq!(message, "Cannot read data entries from a delete manifest"),
        _ => panic!("expected an error"),
    }
    let empty = ManifestMetadata::from_header(&vec![("partition-spec-id".to_string(), b"x".to_vec())]);
    assert_eq!(empty.content, ManifestContent::Data);
    assert_eq!(empty.partition_spec_id, None);
}

#[test]
fn inclusive_metrics_string_bounds() {
    let evaluator = InclusiveMetricsEvaluator::new().equal(1, Datum::string("m"));
    let spans = FileMetrics::new(10)
        .with_lower_bounds(HashMap::from_iter([(1, b"a".to_vec())]))
        .with_upper_bounds(HashMap::from_iter([(1, b"z".to_vec())]));
    assert!(evaluator.eval(&spans));
    let above = FileMetrics::new(10)
        .with_lower_bounds(HashMap::from_iter([(1, b"n".to_vec())]))
        .with_upper_bounds(HashMap::from_iter([(1, b"z".to_vec())]));
    assert!(!evaluator.eval(&above));
    let evaluator = InclusiveMetricsEvaluator::new().greater_than(1, Datum::long(100));
    let small = FileMetrics::new(10).with_upper_bounds(HashMap::from_iter([(1, 50i64.to_le_bytes().to_vec())]));
    assert!(!evaluator.eval(&small));
}

#[test]
fn parse_split_offsets_and_equality_ids() {
    let file = AvroValue::Record(vec![
        ("content".to_string(), AvroValue::Int(2)),
        ("file_path".to_string(), AvroValue::String("eq.parquet".to_string())),
        ("split_offsets".to_string(), AvroValue::Union(1, Box::new(AvroValue::Array(vec![AvroValue::Long(4), AvroValue::Long(90)])))),
        ("equality_ids".to_string(), AvroValue::Array(vec![AvroValue::Int(3), AvroValue::Int(5)])),
    ]);
    let value = AvroValue::Record(vec![("status".to_string(), AvroValue::Int(1)), ("data_file".to_string(), file)]);
    let entry = parse_manifest_entry(&value).unwrap().into_delete_entry();
    assert_eq!(entry.file().split_offsets(), Some(&[4i64, 90][..]));
    assert_eq!(entry.file().equality_field_ids(), Some(&[3, 5][..]));
    assert_eq!(entry.file().content(), FileContent::EqualityDeletes);
}

#[test]
fn file_format_from_lower_name() {
    assert_eq!(FileFormat::from_lower_name("orc"), Some(FileFormat::Orc));
    assert_eq!(FileFormat::from_lower_name("puffin"), Some(FileFormat::Puffin));
    assert_eq!(FileFormat::from_lower_name("ORC"), None);
    assert_eq!(FileFormat::from_lower_name("csv"), None);
}

#[test]
fn tally_reads_counts_processed_skipped_and_entries() {
    let stats = tally_reads(&vec![Some(3), None, Some(4), Some(0)]);
    assert_eq!(stats.total_manifests, 4);
    assert_eq!(stats.processed_manifests, 3);
    assert_eq!(stats.skipped_manifests, 1);
    assert_eq!(stats.total_entries, 7);
    let wrapped = tally_reads(&vec![Some(u64::MAX), Some(2)]);
    assert_eq!(wrapped.total_entries, 1);
}
