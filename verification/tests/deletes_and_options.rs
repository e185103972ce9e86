use iceberg_rust_native::deletion_vector::{batch_has_deletes, dv_keep_mask, BlobMetadata, DeletionVector, DeletionVectorFilter, DeletionVectorReader, PuffinFileMetadata};
use iceberg_rust_native::iceberg_error::IcebergError;
use iceberg_rust_native::merge::MergeOptions;
use iceberg_rust_native::paths::{local_path, normalize_path, part_file_name, part_file_path, SplitState};
use iceberg_rust_native::position_delete::{add_delete_rows, deletes_for_path, has_deletes_in, merge_file_deletes, position_keep_mask, BatchAction, PositionDeleteFilter, PositionDeletes};
use iceberg_rust_native::writer::{CompressionType, WriteOptions};

#[test]
fn test_deletion_vector_operations() {
    let mut dv = DeletionVector::new("test/data.parquet");
    dv.add_deleted(1);
    dv.add_deleted(5);
    dv.add_deleted(10);
    dv.add_deleted(100);
    assert!(dv.is_deleted(1));
    assert!(dv.is_deleted(5));
    assert!(dv.is_deleted(10));
    assert!(dv.is_deleted(100));
    assert!(!dv.is_deleted(2));
    assert!(!dv.is_deleted(50));
    assert_eq!(dv.len(), 4);
}

#[test]
fn deletion_vector_adding_twice_counts_once() {
    let mut dv = DeletionVector::new("f");
    assert!(dv.is_empty());
    dv.add_deleted(7);
    dv.add_deleted(7);
    assert_eq!(dv.len(), 1);
    assert!(!dv.is_empty());
}

#[test]
fn test_deletion_vector_serialize_deserialize() {
    let mut dv = DeletionVector::new("test/data.parquet");
    dv.add_deleted(1);
    dv.add_deleted(100);
    dv.add_deleted(10000);
    let serialized = dv.serialize().unwrap();
    let deserialized = DeletionVector::deserialize(&serialized, "test/data.parquet").unwrap();
    assert!(deserialized.is_deleted(1));
    assert!(deserialized.is_deleted(100));
    assert!(deserialized.is_deleted(10000));
    assert!(!deserialized.is_deleted(2));
    assert_eq!(deserialized.len(), 3);
    assert_eq!(deserialized.referenced_data_file, "test/data.parquet");
}

#[test]
fn serialized_frame_layout() {
    let mut dv = DeletionVector::new("x");
    dv.add_deleted(3);
    let bytes = dv.serialize().unwrap();
    let content_len = u32::from_be_bytes([bytes[0], bytes[1], bytes[2], bytes[3]]) as usize;
    assert_eq!(content_len + 8, bytes.len());
    assert_eq!(&bytes[4..8], &[0xD1, 0xD3, 0x39, 0x64]);
    let crc = u32::from_be_bytes([bytes[bytes.len() - 4], bytes[bytes.len() - 3], bytes[bytes.len() - 2], bytes[bytes.len() - 1]]);
    assert_eq!(crc, crc32fast::hash(&bytes[4..bytes.len() - 4]));
}

#[test]
fn deserialize_rejects_bad_blobs() {
    match DeletionVector::deserialize(&[0u8; 5], "x") {
        Err(IcebergError::InvalidDeletionVector(m)) => assert!(m.starts_with("Data too short")),
        _ => panic!("expected an error"),
    }
    let mut dv = DeletionVector::new("x");
    dv.add_deleted(3);
    let mut bytes = dv.serialize().unwrap();
    bytes[5] ^= 0xff;
    match DeletionVector::deserialize(&bytes, "x") {
        Err(IcebergError::InvalidDeletionVector(m)) => assert!(m.contains("magic")),
        _ => panic!("expected an error"),
    }
    let mut bytes = dv.serialize().unwrap();
    let last = bytes.len() - 1;
    bytes[last] ^= 0xff;
    match DeletionVector::deserialize(&bytes, "x") {
        Err(IcebergError::InvalidDeletionVector(m)) => assert!(m.to_lowercase().contains("checksum") || m.contains("CRC")),
        _ => panic!("expected an error"),
    }
}

#[test]
fn deserialize_rejects_a_length_field_below_the_magic() {
    let bytes = vec![0u8, 0, 0, 2, 0xD1, 0xD3, 0x39, 0x64, 0, 0, 0, 0];
    match DeletionVector::deserialize(&bytes, "x") {
        Err(IcebergError::InvalidDeletionVector(m)) => {
            assert_eq!(m, "Content length too short for deletion vector")
        }
        _ => panic!("expected an error"),
    }
}

fn bitwise_crc32(bytes: &[u8]) -> u32 {
    let mut c: u32 = 0xFFFF_FFFF;
    for b in bytes {
        c ^= *b as u32;
        for _ in 0..8 {
            c = if c & 1 == 1 { (c >> 1) ^ 0xEDB8_8320 } else { c >> 1 };
        }
    }
    c ^ 0xFFFF_FFFF
}

#[test]
fn serialized_blob_carries_the_crc32_of_magic_and_bitmap() {
    assert_eq!(bitwise_crc32(b"123456789"), 0xCBF4_3926);
    let mut dv = DeletionVector::new("x");
    dv.add_deleted(5);
    dv.add_deleted(70000);
    let bytes = dv.serialize().unwrap();
    let n = bytes.len();
    let stored = u32::from_be_bytes([bytes[n - 4], bytes[n - 3], bytes[n - 2], bytes[n - 1]]);
    assert_eq!(stored, bitwise_crc32(&bytes[4..n - 4]));
}

#[test]
fn keep_mask_and_batch_deletes() {
    let mut dv = DeletionVector::new("x");
    dv.add_deleted(11);
    dv.add_deleted(13);
    assert_eq!(dv_keep_mask(&dv, 10, 5), vec![true, false, true, false, true]);
    assert!(batch_has_deletes(&dv, 10, 2));
    assert!(!batch_has_deletes(&dv, 14, 100));
    assert!(!batch_has_deletes(&dv, 0, 11));
}

fn puffin_with_footer(payload: &[u8], flags: u8) -> Vec<u8> {
    let mut data = b"PFA1".to_vec();
    data.extend_from_slice(b"PFA1");
    data.extend_from_slice(payload);
    data.extend_from_slice(&[flags, 0, 0, 0]);
    data.extend_from_slice(&(payload.len() as i32).to_le_bytes());
    data.extend_from_slice(b"PFA1");
    data
}

#[test]
fn puffin_footer_payload() {
    let data = puffin_with_footer(b"{\"blobs\":[]}", 0);
    assert_eq!(DeletionVectorReader::footer_json(&data).unwrap(), b"{\"blobs\":[]}".to_vec());
    let compressed = lz4_flex::compress_prepend_size(b"{\"blobs\":[]}");
    let data = puffin_with_footer(&compressed, 1);
    assert_eq!(DeletionVectorReader::footer_json(&data).unwrap(), b"{\"blobs\":[]}".to_vec());
    match DeletionVectorReader::footer_json(b"XXXX1234") {
        Err(IcebergError::InvalidFormat(m)) => assert_eq!(m, "Not a valid Puffin file"),
        _ => panic!("expected an error"),
    }
    let mut bad = puffin_with_footer(b"{}", 0);
    let n = bad.len();
    bad[n - 1] = b'X';
    match DeletionVectorReader::footer_json(&bad) {
        Err(IcebergError::InvalidFormat(m)) => assert_eq!(m, "Invalid Puffin footer magic"),
        _ => panic!("expected an error"),
    }
}

#[test]
fn vectors_from_puffin_blobs() {
    let mut dv = DeletionVector::new("ignored");
    dv.add_deleted(2);
    dv.add_deleted(9);
    let blob = dv.serialize().unwrap();
    let mut data = b"PFA1".to_vec();
    data.extend_from_slice(&blob);
    let metadata = PuffinFileMetadata {
        blobs: vec![BlobMetadata {
            blob_type: "deletion-vector-v1".to_string(),
            fields: vec![],
            snapshot_id: 1,
            sequence_number: 1,
            offset: 4,
            length: blob.len() as i64,
            compression_codec: None,
            properties: vec![("referenced-data-file".to_string(), "s3://b/data/a.parquet".to_string())],
        }],
        properties: vec![],
    };
    let vectors = DeletionVectorReader::vectors_from_blobs(&data, &metadata).unwrap();
    assert_eq!(vectors.len(), 1);
    assert_eq!(vectors[0].0, "s3://b/data/a.parquet");
    assert!(vectors[0].1.is_deleted(9));
    let found = DeletionVectorReader::find_deletion_vector(&vectors, "other.parquet", "s3://b/data/a.parquet").unwrap();
    assert_eq!(found.len(), 2);
    let by_suffix = DeletionVectorReader::find_for_data_file(vectors, "data/a.parquet").unwrap();
    assert!(by_suffix.is_deleted(2));
}

#[test]
fn test_position_deletes() {
    let mut deletes = PositionDeletes::new();
    deletes.add_deleted(1);
    deletes.add_deleted(5);
    deletes.add_deleted(10);
    assert!(deletes.is_deleted(1));
    assert!(deletes.is_deleted(5));
    assert!(deletes.is_deleted(10));
    assert!(!deletes.is_deleted(2));
    assert!(!deletes.is_deleted(100));
    assert_eq!(deletes.len(), 3);
}

#[test]
fn position_delete_rows_group_by_file() {
    let mut all: Vec<(String, PositionDeletes)> = Vec::new();
    let rows = vec![
        (Some("a.parquet".to_string()), Some(1)),
        (Some("b.parquet".to_string()), Some(2)),
        (None, Some(3)),
        (Some("a.parquet".to_string()), Some(4)),
        (Some("a.parquet".to_string()), None),
    ];
    add_delete_rows(&mut all, &rows);
    assert_eq!(all.len(), 2);
    let a = deletes_for_path(&all, "file:///x/a.parquet", "a.parquet");
    assert_eq!(a.len(), 2);
    assert!(a.is_deleted(4));
    let mut more: Vec<(String, PositionDeletes)> = Vec::new();
    add_delete_rows(&mut more, &vec![(Some("b.parquet".to_string()), Some(7))]);
    merge_file_deletes(&mut all, &more);
    let b = deletes_for_path(&all, "b.parquet", "zzz");
    assert_eq!(b.len(), 2);
    assert!(deletes_for_path(&all, "none", "none").is_empty());
}

#[test]
fn position_masks() {
    let mut d = PositionDeletes::new();
    d.add_deleted(101);
    assert_eq!(position_keep_mask(&d, 100, 3), vec![true, false, true]);
    assert!(has_deletes_in(&d, 100, 2));
    assert!(!has_deletes_in(&d, 102, 50));
    let mut other = PositionDeletes::new();
    other.add_deleted(5);
    d.extend(&other);
    assert_eq!(d.len(), 2);
}

#[test]
fn test_merge_options_default() {
    let options = MergeOptions::default();
    assert_eq!(options.target_file_size, 128 * 1024 * 1024);
    assert_eq!(options.max_memory, 1024 * 1024 * 1024);
    assert!(options.partitions >= 1);
}

#[test]
fn test_merge_options_builder() {
    let options = MergeOptions::new()
        .with_target_file_size(256 * 1024 * 1024)
        .with_max_memory(2 * 1024 * 1024 * 1024)
        .with_sort_columns(vec!["id".to_string(), "ts".to_string()]);
    assert_eq!(options.target_file_size, 256 * 1024 * 1024);
    assert_eq!(options.max_memory, 2 * 1024 * 1024 * 1024);
    assert_eq!(options.sort_columns, Some(vec!["id".to_string(), "ts".to_string()]));
}

#[test]
fn merge_options_make_write_options() {
    let w = MergeOptions::new().with_compression(CompressionType::Snappy).with_row_group_size(77).with_bloom_filter(true).create_write_options();
    assert_eq!(w.compression, CompressionType::Snappy);
    assert_eq!(w.row_group_size, 77);
    assert!(w.bloom_filter_enabled);
    assert_eq!(f64::from_bits(w.bloom_filter_fpp), 0.05);
    assert!(w.enable_dictionary);
}

#[test]
fn test_write_options_default() {
    let options = WriteOptions::default();
    assert_eq!(options.compression, CompressionType::Zstd);
    assert!(options.enable_dictionary);
    assert!(options.enable_statistics);
    assert_eq!(options.rows_per_file(), 1_000_000);
    assert_eq!(options.statistics_level(), "page");
}

#[test]
fn test_write_options_builder() {
    let options = WriteOptions::new().with_compression(CompressionType::Snappy).with_row_group_size(50000).with_dictionary(false);
    assert_eq!(options.compression, CompressionType::Snappy);
    assert_eq!(options.row_group_size, 50000);
    assert!(!options.enable_dictionary);
    let capped = WriteOptions::new().with_max_rows_per_file(10).with_statistics(false);
    assert_eq!(capped.rows_per_file(), 10);
    assert_eq!(capped.statistics_level(), "none");
}

#[test]
fn v2_test_normalize_path() {
    assert_eq!(normalize_path("s3://bucket/path/file.parquet", Ok("/cwd".to_string())).unwrap(), "s3://bucket/path/file.parquet");
}

#[test]
fn v3_test_normalize_path() {
    assert_eq!(normalize_path("s3://bucket/path/file.parquet", Err(IcebergError::Io("no cwd".to_string()))).unwrap(), "s3://bucket/path/file.parquet");
}

#[test]
fn v1_test_normalize_path() {
    let local = normalize_path("test.parquet", Ok("/work".to_string())).unwrap();
    assert!(local.starts_with("file://"));
    assert_eq!(local, "file:///work/test.parquet");
}

#[test]
fn normalize_path_cases() {
    assert_eq!(normalize_path("/abs/f.parquet", Err(IcebergError::Io("x".to_string()))).unwrap(), "file:///abs/f.parquet");
    match normalize_path("rel.parquet", Err(IcebergError::Io("no cwd".to_string()))) {
        Err(IcebergError::Io(m)) => assert_eq!(m, "no cwd"),
        _ => panic!("expected the lookup error"),
    }
    assert_eq!(local_path("file:///tmp/x.parquet"), "/tmp/x.parquet");
    assert_eq!(local_path("/tmp/x.parquet"), "/tmp/x.parquet");
}

#[test]
fn part_names() {
    assert_eq!(part_file_name("out", 3), "out-00003.parquet");
    assert_eq!(part_file_name("out", 123456), "out-123456.parquet");
    assert_eq!(part_file_path("/dir", "p", 0), "/dir/p-00000.parquet");
}

#[test]
fn split_state_closes_parts_at_target() {
    let mut s = SplitState::new();
    assert_eq!(s.add_batch(40, 100), None);
    assert_eq!(s.add_batch(40, 100), None);
    assert_eq!(s.add_batch(40, 100), Some(0));
    assert_eq!(s.finish(), None);
    assert_eq!(s.add_batch(10, 100), None);
    assert_eq!(s.finish(), Some(1));
}

#[test]
fn position_filter_decides_per_batch() {
    let mut d = PositionDeletes::new();
    d.add_deleted(3);
    d.add_deleted(4);
    d.add_deleted(5);
    let mut f = PositionDeleteFilter::new(d);
    assert!(matches!(f.next_batch(3), BatchAction::Keep));
    assert!(matches!(f.next_batch(3), BatchAction::Drop));
    assert_eq!(f.current_position(), 6);
    let mut d = PositionDeletes::new();
    d.add_deleted(1);
    let mut f = PositionDeleteFilter::new(d);
    match f.next_batch(3) {
        BatchAction::Filter(m) => assert_eq!(m, vec![true, false, true]),
        _ => panic!("expected a filter"),
    }
    assert!(matches!(f.next_batch(0), BatchAction::Keep));
}

#[test]
fn vector_filter_decides_per_batch() {
    let mut dv = DeletionVector::new("f");
    dv.add_deleted(2);
    let mut f = DeletionVectorFilter::new(dv);
    assert!(matches!(f.next_batch(2), BatchAction::Keep));
    assert!(matches!(f.next_batch(1), BatchAction::Drop));
    assert_eq!(f.current_position(), 3);
    let mut dv = DeletionVector::new("f");
    dv.add_deleted(0);
    let mut f = DeletionVectorFilter::new(dv);
    match f.next_batch(2) {
        BatchAction::Filter(m) => assert_eq!(m, vec![false, true]),
        _ => panic!("expected a filter"),
    }
}

#[test]
fn find_vector_by_file_name() {
    let mut dv = DeletionVector::new("s3://bucket/warehouse/data/part-1.parquet");
    dv.add_deleted(4);
    let vectors = vec![("s3://bucket/warehouse/data/part-1.parquet".to_string(), dv)];
    let found = DeletionVectorReader::find_deletion_vector(&vectors, "/local/copy/part-1.parquet", "file:///local/copy/part-1.parquet").unwrap();
    assert!(found.is_deleted(4));
    assert!(DeletionVectorReader::find_deletion_vector(&vectors, "/local/other.parquet", "file:///local/other.parquet").is_none());
}
