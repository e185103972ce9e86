use iceberg_rust_native::error::Error;
use iceberg_rust_native::jni::delete::{build_index, data_file_from_data, delete_file_data_of, delete_file_from_data, delete_files_data, DataFileData, DeleteFileData};
use iceberg_rust_native::jni::error::JniError;
use iceberg_rust_native::jni::util::NativeHandle;
use iceberg_rust_native::manifest::content_file::ContentFile;
use iceberg_rust_native::types::{FileContent, FileFormat, PartitionData};

fn record(path: &str, format: &str, content: i32, seq: i64, referenced: Option<&str>) -> DeleteFileData {
    DeleteFileData {
        file_path: path.to_string(),
        file_format: format.to_string(),
        spec_id: 0,
        record_count: 10,
        file_size_in_bytes: 100,
        content,
        data_sequence_number: Some(seq),
        referenced_data_file: referenced.map(|s| s.to_string()),
        equality_field_ids: if content == 2 { Some(vec![1]) } else { None },
    }
}

#[test]
fn delete_records_become_files() {
    let f = delete_file_from_data(record("d.orc", "ORC", 1, 4, None));
    assert_eq!(f.content(), FileContent::PositionDeletes);
    assert_eq!(f.file_format(), FileFormat::Orc);
    let e = delete_file_from_data(record("e.x", "weird", 2, 4, None));
    assert_eq!(e.content(), FileContent::EqualityDeletes);
    assert_eq!(e.file_format(), FileFormat::Parquet);
    assert_eq!(e.equality_field_ids(), Some(&[1][..]));
    let back = delete_file_data_of(&e);
    assert_eq!(back.content, 2);
    assert_eq!(back.file_path, "e.x");
    assert_eq!(back.data_sequence_number, Some(4));
}

#[test]
fn build_index_from_records() {
    let index = build_index(
        vec![
            record("p1.parquet", "parquet", 1, 10, None),
            record("p2.parquet", "parquet", 1, 20, None),
            record("dv.puffin", "parquet", 1, 30, Some("data.parquet")),
            record("eq.parquet", "parquet", 2, 40, None),
        ],
        15,
    );
    assert_eq!(index.file_count(), 3);
    assert!(index.has_equality_deletes());
    let data = data_file_from_data(
        &DataFileData { file_path: "data.parquet".to_string(), spec_id: 0, data_sequence_number: 5, partition_json: "[]".to_string() },
        PartitionData::empty(),
    );
    assert_eq!(data.file_path(), "data.parquet");
    let found = index.for_data_file(5, &data);
    let paths: Vec<String> = delete_files_data(&found).into_iter().map(|d| d.file_path).collect();
    assert!(paths.contains(&"dv.puffin".to_string()));
    assert!(paths.contains(&"eq.parquet".to_string()));
    assert!(!paths.contains(&"p2.parquet".to_string()));
    let unfiltered = build_index(vec![record("p1.parquet", "parquet", 1, 10, None)], 0);
    assert_eq!(unfiltered.file_count(), 1);
}

#[test]
fn jni_error_texts() {
    assert_eq!(JniError::NullPointer("x".to_string()).to_display_string(), "Null pointer: x");
    assert_eq!(JniError::InvalidHandle.to_display_string(), "Invalid native handle");
    assert_eq!(JniError::JavaException.to_display_string(), "Java exception occurred");
    match JniError::from_error(&Error::missing_field("status")) {
        JniError::Internal(m) => assert_eq!(m, "Missing required field: status"),
        _ => panic!("expected an internal error"),
    }
}

#[test]
fn native_handles() {
    assert!(NativeHandle::new(5).is_valid());
    assert!(!NativeHandle::new(0).is_valid());
    assert_eq!(NativeHandle::new(42).raw(), 42);
}

#[test]
fn error_texts_with_context() {
    let e = Error::invalid_data("bad").with_context("reading manifest");
    assert_eq!(e.to_display_string(), "reading manifest: Invalid data: bad");
    assert_eq!(Error::other("plain").to_display_string(), "plain");
}
