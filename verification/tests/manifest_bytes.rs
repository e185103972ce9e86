use apache_avro::types::Value;
use apache_avro::{Schema, Writer};

use iceberg_rust_native::error::Error;
use iceberg_rust_native::manifest::content_file::ContentFile;
use iceberg_rust_native::manifest::entry::Status;
use iceberg_rust_native::manifest::reader::{
    decode_manifest, read_data_entries_from_bytes, read_delete_entries_from_bytes, ManifestContent, ManifestReaderBuilder,
};
use iceberg_rust_native::types::FileContent;

const ENTRY_SCHEMA: &str = r#"{
  "type": "record", "name": "manifest_entry",
  "fields": [
    {"name": "status", "type": "int"},
    {"name": "snapshot_id", "type": ["null", "long"]},
    {"name": "data_file", "type": {
      "type": "record", "name": "r2",
      "fields": [
        {"name": "content", "type": "int"},
        {"name": "file_path", "type": "string"},
        {"name": "file_format", "type": "string"},
        {"name": "record_count", "type": "long"},
        {"name": "file_size_in_bytes", "type": "long"}
      ]
    }}
  ]
}"#;

fn entry(status: i32, content: i32, path: &str, records: i64) -> Value {
    Value::Record(vec![
        ("status".to_string(), Value::Int(status)),
        ("snapshot_id".to_string(), Value::Union(1, Box::new(Value::Long(7)))),
        (
            "data_file".to_string(),
            Value::Record(vec![
                ("content".to_string(), Value::Int(content)),
                ("file_path".to_string(), Value::String(path.to_string())),
                ("file_format".to_string(), Value::String("PARQUET".to_string())),
                ("record_count".to_string(), Value::Long(records)),
                ("file_size_in_bytes".to_string(), Value::Long(1024)),
            ]),
        ),
    ])
}

fn manifest_bytes(content: &str, entries: Vec<Value>) -> Vec<u8> {
    let schema = Schema::parse_str(ENTRY_SCHEMA).unwrap();
    let mut writer = Writer::new(&schema, Vec::new()).unwrap();
    writer.add_user_metadata("content".to_string(), content).unwrap();
    writer.add_user_metadata("format-version".to_string(), "2").unwrap();
    for e in entries {
        writer.append(e).unwrap();
    }
    writer.into_inner().unwrap()
}

#[test]
fn decode_manifest_reads_header_and_values() {
    let bytes = manifest_bytes("data", vec![entry(1, 0, "a.parquet", 10), entry(0, 0, "b.parquet", 5)]);
    let decoded = decode_manifest(&bytes).unwrap();
    assert_eq!(decoded.metadata.content, ManifestContent::Data);
    assert_eq!(decoded.metadata.format_version, Some(2));
    assert_eq!(decoded.values.len(), 2);
    assert!(decoded.failure.is_none());
}

#[test]
fn data_entries_from_bytes_skip_deleted_entries() {
    let bytes = manifest_bytes(
        "data",
        vec![entry(1, 0, "a.parquet", 10), entry(2, 0, "gone.parquet", 3), entry(0, 0, "b.parquet", 5)],
    );
    let entries = read_data_entries_from_bytes(ManifestReaderBuilder::new(), &bytes).unwrap().unwrap();
    assert_eq!(entries.len(), 2);
    assert_eq!(entries[0].status(), Status::Added);
    assert_eq!(entries[0].snapshot_id(), Some(7));
    assert_eq!(entries[0].file().file_path(), "a.parquet");
    assert_eq!(entries[0].file().record_count(), 10);
    assert_eq!(entries[1].status(), Status::Existing);
    assert_eq!(entries[1].file().file_path(), "b.parquet");
}

#[test]
fn data_entries_from_bytes_hand_out_row_ids() {
    let bytes = manifest_bytes("data", vec![entry(1, 0, "a.parquet", 10), entry(1, 0, "b.parquet", 5)]);
    let builder = ManifestReaderBuilder::new().first_row_id(100);
    let entries = read_data_entries_from_bytes(builder, &bytes).unwrap().unwrap();
    assert_eq!(entries[0].file().first_row_id(), Some(100));
    assert_eq!(entries[1].file().first_row_id(), Some(110));
}

#[test]
fn data_entries_from_bytes_overflowing_row_ids() {
    let bytes = manifest_bytes("data", vec![entry(1, 0, "a.parquet", 10)]);
    let builder = ManifestReaderBuilder::new().first_row_id(i64::MAX - 5);
    assert!(read_data_entries_from_bytes(builder, &bytes).is_none());
}

#[test]
fn data_entries_from_delete_manifest_fail() {
    let bytes = manifest_bytes("deletes", vec![entry(1, 1, "d.parquet", 1)]);
    match read_data_entries_from_bytes(ManifestReaderBuilder::new(), &bytes) {
        Some(Err(Error::InvalidData { message })) => {
            assert_eq!(message, "Cannot read data entries from a delete manifest")
        }
        other => panic!("unexpected {:?}", other.map(|r| r.is_ok())),
    }
}

#[test]
fn delete_entries_from_bytes() {
    let bytes = manifest_bytes("deletes", vec![entry(1, 1, "d.parquet", 1), entry(1, 2, "e.parquet", 2)]);
    let entries = read_delete_entries_from_bytes(ManifestReaderBuilder::new(), &bytes).unwrap();
    assert_eq!(entries.len(), 2);
    assert_eq!(entries[0].file().content(), FileContent::PositionDeletes);
    assert_eq!(entries[1].file().content(), FileContent::EqualityDeletes);
    assert_eq!(entries[1].file().file_path(), "e.parquet");
}

#[test]
fn bytes_that_are_not_avro_fail() {
    let bytes = b"not an avro file".to_vec();
    assert!(matches!(decode_manifest(&bytes), Err(Error::Avro(_))));
    assert!(matches!(read_delete_entries_from_bytes(ManifestReaderBuilder::new(), &bytes), Err(Error::Avro(_))));
}
