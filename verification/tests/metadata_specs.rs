use std::collections::HashSet;

use iceberg_rust_native::metadata::murmur::murmur3_x86_32;
use iceberg_rust_native::metadata::schema::{ListType, MapType, NestedField, Schema, StructType, Type};
use iceberg_rust_native::metadata::snapshot::{Operation as SnapshotOperation, Snapshot, SnapshotLogEntry, SnapshotRef, SnapshotSummary};
use iceberg_rust_native::metadata::spec::{NullOrder, PartitionField, PartitionSpec, SortDirection, SortField, SortOrder, Transform};
use iceberg_rust_native::metadata::table::{MetadataLogEntry, TableMetadata, TableMetadataParser};

fn prim(name: &str) -> Type {
    Type::Primitive(name.to_string())
}

fn req(id: i32, name: &str, t: Type) -> NestedField {
    NestedField::required(id, name.to_string(), t)
}

fn opt(id: i32, name: &str, t: Type) -> NestedField {
    NestedField::optional(id, name.to_string(), t)
}

fn location_schema() -> Schema {
    let location = Type::Struct(StructType {
        type_str: "struct".to_string(),
        fields: vec![req(3, "lat", prim("double")), req(4, "lon", prim("double"))],
    });
    Schema::new(0, vec![req(1, "id", prim("long")), req(2, "location", location)])
}

#[test]
fn test_parse_partition_spec() {
    let spec = PartitionSpec::new(0, vec![
        PartitionField::new(4, 1000, "date", "day"),
        PartitionField::new(1, 1001, "id_bucket", "bucket[16]"),
    ]);
    assert_eq!(spec.spec_id, 0);
    assert_eq!(spec.fields.len(), 2);
    assert!(!spec.is_unpartitioned());
    assert_eq!(spec.fields[0].parsed_transform(), Some(Transform::Day));
    assert_eq!(spec.fields[1].parsed_transform(), Some(Transform::Bucket(16)));
    assert_eq!(spec.field(1001).unwrap().name, "id_bucket");
    assert_eq!(spec.field_by_name("date").unwrap().field_id, 1000);
    assert!(spec.field(7).is_none());
    assert_eq!(spec.fields_by_source_id(4).len(), 1);
}

#[test]
fn partition_spec_of_void_fields_is_unpartitioned() {
    let spec = PartitionSpec::new(3, vec![PartitionField::new(1, 1000, "x", "void")]);
    assert!(spec.is_unpartitioned());
    assert!(spec.fields[0].is_void());
    assert!(!spec.fields[0].is_identity());
}

#[test]
fn test_unpartitioned_spec() {
    let spec = PartitionSpec::unpartitioned();
    assert!(spec.is_unpartitioned());
}

#[test]
fn test_parse_sort_order() {
    let order = SortOrder::new(1, vec![
        SortField::new(1, SortDirection::Asc, NullOrder::NullsFirst),
        SortField::new(2, SortDirection::Desc, NullOrder::NullsLast),
    ]);
    assert_eq!(order.order_id, 1);
    assert!(!order.is_unsorted());
    assert_eq!(order.fields[0].direction, SortDirection::Asc);
    assert_eq!(order.fields[1].null_order, NullOrder::NullsLast);
    assert_eq!(order.fields[0].transform, "identity");
    let desc = SortField::desc(5).with_transform("day");
    assert_eq!(desc.direction, SortDirection::Desc);
    assert_eq!(desc.null_order, NullOrder::NullsLast);
    assert_eq!(desc.transform, "day");
    assert_eq!(SortField::asc(5).null_order, NullOrder::NullsFirst);
}

#[test]
fn test_unsorted_order() {
    let order = SortOrder::unsorted();
    assert!(order.is_unsorted());
}

#[test]
fn test_transform_parsing() {
    assert_eq!(Transform::from_str("identity"), Some(Transform::Identity));
    assert_eq!(Transform::from_str("year"), Some(Transform::Year));
    assert_eq!(Transform::from_str("month"), Some(Transform::Month));
    assert_eq!(Transform::from_str("day"), Some(Transform::Day));
    assert_eq!(Transform::from_str("hour"), Some(Transform::Hour));
    assert_eq!(Transform::from_str("void"), Some(Transform::Void));
    assert_eq!(Transform::from_str("bucket[16]"), Some(Transform::Bucket(16)));
    assert_eq!(Transform::from_str("truncate[10]"), Some(Transform::Truncate(10)));
    assert_eq!(Transform::from_str("unknown"), None);
}

#[test]
fn transform_text_round_trip() {
    for t in [Transform::Identity, Transform::Year, Transform::Month, Transform::Day, Transform::Hour, Transform::Void, Transform::Bucket(16), Transform::Truncate(1000)] {
        assert_eq!(Transform::from_str(&t.to_string()), Some(t));
    }
    assert_eq!(Transform::Bucket(7).to_string(), "bucket[7]");
    assert_eq!(Transform::from_str("bucket[]"), None);
    assert_eq!(Transform::from_str("bucket[x]"), None);
}

#[test]
fn test_transform_is_temporal() {
    assert!(!Transform::Identity.is_temporal());
    assert!(Transform::Year.is_temporal());
    assert!(Transform::Month.is_temporal());
    assert!(Transform::Day.is_temporal());
    assert!(Transform::Hour.is_temporal());
    assert!(!Transform::Bucket(16).is_temporal());
    assert!(!Transform::Truncate(10).is_temporal());
    assert!(!Transform::Void.is_temporal());
}

#[test]
fn test_transform_preserves_order() {
    assert!(Transform::Identity.preserves_order());
    assert!(Transform::Year.preserves_order());
    assert!(Transform::Month.preserves_order());
    assert!(Transform::Day.preserves_order());
    assert!(Transform::Hour.preserves_order());
    assert!(!Transform::Bucket(16).preserves_order());
    assert!(Transform::Truncate(10).preserves_order());
    assert!(!Transform::Void.preserves_order());
}

#[test]
fn test_transform_satisfies() {
    assert!(Transform::Identity.satisfies(&Transform::Identity));
    assert!(Transform::Year.satisfies(&Transform::Year));
    assert!(Transform::Hour.satisfies(&Transform::Day));
    assert!(Transform::Hour.satisfies(&Transform::Month));
    assert!(Transform::Hour.satisfies(&Transform::Year));
    assert!(Transform::Day.satisfies(&Transform::Month));
    assert!(Transform::Day.satisfies(&Transform::Year));
    assert!(Transform::Month.satisfies(&Transform::Year));
    assert!(!Transform::Year.satisfies(&Transform::Month));
    assert!(!Transform::Year.satisfies(&Transform::Day));
    assert!(!Transform::Month.satisfies(&Transform::Day));
}

#[test]
fn test_transform_apply_to_int() {
    assert_eq!(Transform::Identity.apply_to_int(42), Some(42));
    assert_eq!(Transform::Truncate(10).apply_to_int(42), Some(40));
    assert_eq!(Transform::Truncate(10).apply_to_int(45), Some(40));
    assert_eq!(Transform::Truncate(10).apply_to_int(-5), Some(-10));
    assert_eq!(Transform::Void.apply_to_int(42), None);
}

#[test]
fn transform_bucket_exact_values() {
    assert_eq!(Transform::Bucket(16).apply_to_int(34), Some(3));
    assert_eq!(Transform::Bucket(16).apply_to_int(0), Some(14));
    assert_eq!(Transform::Bucket(16).apply_to_long(34), Some(3));
    assert_eq!(Transform::Day.apply_to_int(3), None);
}

#[test]
fn test_transform_apply_to_string() {
    assert_eq!(Transform::Identity.apply_to_string("hello"), Some("hello".to_string()));
    assert_eq!(Transform::Truncate(3).apply_to_string("hello"), Some("hel".to_string()));
    assert_eq!(Transform::Truncate(10).apply_to_string("hi"), Some("hi".to_string()));
    assert_eq!(Transform::Void.apply_to_string("hello"), None);
}

#[test]
fn test_murmur3_hash() {
    let hash1 = murmur3_x86_32(b"hello", 0);
    let hash2 = murmur3_x86_32(b"hello", 0);
    assert_eq!(hash1, hash2);
    let hash3 = murmur3_x86_32(b"world", 0);
    assert_ne!(hash1, hash3);
}

#[test]
fn murmur3_known_values() {
    assert_eq!(murmur3_x86_32(b"hello", 0), 613153351);
    assert_eq!(murmur3_x86_32(b"world", 0), 4220927227);
    assert_eq!(murmur3_x86_32(b"", 0), 0);
    assert_eq!(murmur3_x86_32(&34i64.to_le_bytes(), 0), 2017239379);
    assert_eq!(murmur3_x86_32(b"iceberg", 0), 1210000089);
}

#[test]
fn test_bucket_transform() {
    let transform = Transform::Bucket(16);
    for i in 0..100 {
        let result = transform.apply_to_int(i).unwrap();
        assert!(result >= 0 && result < 16);
    }
}

#[test]
fn test_all_field_ids() {
    let tags = Type::List(ListType {
        type_str: "list".to_string(),
        element_id: 3,
        element: Box::new(prim("string")),
        element_required: false,
    });
    let schema = Schema::new(0, vec![req(1, "id", prim("long")), opt(2, "tags", tags)]);
    assert!(schema.fields[1].field_type.is_list());
    assert!(schema.fields[0].field_type.is_primitive());
    assert!(schema.fields[0].required);
    assert!(!schema.fields[1].required);
    let all_ids = schema.all_field_ids();
    assert!(all_ids.contains(&1));
    assert!(all_ids.contains(&2));
    assert!(all_ids.contains(&3));
    assert_eq!(all_ids.len(), 3);
}

#[test]
fn test_parse_nested_schema() {
    let schema = location_schema();
    assert!(schema.fields[1].field_type.is_struct());
    assert!(schema.field(1).is_some());
    assert!(schema.field(3).is_some());
    assert!(schema.field(100).is_none());
    assert_eq!(schema.field_by_name("location").unwrap().id, 2);
    assert_eq!(schema.field_by_name_case_insensitive("ID").unwrap().id, 1);
}

#[test]
fn test_highest_field_id() {
    let schema = Schema::new(0, vec![req(1, "a", prim("long")), req(5, "b", prim("string")), req(3, "c", prim("int"))]);
    assert_eq!(schema.highest_field_id(), 5);
    assert_eq!(Schema::new(0, vec![]).highest_field_id(), 0);
}

#[test]
fn test_schema_with_identifier_fields() {
    let schema = Schema::new(0, vec![req(1, "id", prim("long")), opt(2, "data", prim("string"))]).with_identifier_field_ids(vec![1]);
    assert_eq!(schema.identifier_field_ids, vec![1]);
    assert!(schema.is_identifier_field(1));
    assert!(!schema.is_identifier_field(2));
}

#[test]
fn test_select_fields() {
    let schema = Schema::new(0, vec![req(1, "id", prim("long")), opt(2, "data", prim("string")), opt(3, "category", prim("string"))]);
    let selected: HashSet<i32> = [1, 2].into_iter().collect();
    let projected = schema.select(&selected);
    assert_eq!(projected.fields.len(), 2);
    assert_eq!(projected.fields[0].id, 1);
    assert_eq!(projected.fields[1].id, 2);
}

#[test]
fn test_select_by_name() {
    let schema = Schema::new(0, vec![req(1, "ID", prim("long")), opt(2, "Data", prim("string")), opt(3, "Category", prim("string"))]);
    assert_eq!(schema.select_by_name(&["id"], true).fields.len(), 0);
    assert_eq!(schema.select_by_name(&["ID", "Data"], true).fields.len(), 2);
    assert_eq!(schema.select_by_name(&["id", "data"], false).fields.len(), 2);
}

#[test]
fn test_select_nested_fields() {
    let schema = location_schema();
    let selected: HashSet<i32> = [3].into_iter().collect();
    let projected = schema.select(&selected);
    assert_eq!(projected.fields.len(), 1);
    assert_eq!(projected.fields[0].name, "location");
    if let Type::Struct(ref s) = projected.fields[0].field_type {
        assert_eq!(s.fields.len(), 1);
        assert_eq!(s.fields[0].name, "lat");
    } else {
        panic!("Expected struct type");
    }
}

#[test]
fn test_name_to_id_mapping() {
    let schema = location_schema();
    let name_to_id = schema.name_to_id();
    let get = |n: &str| name_to_id.iter().find(|(k, _)| k == n).map(|(_, v)| *v);
    assert_eq!(get("id"), Some(1));
    assert_eq!(get("location"), Some(2));
    assert_eq!(get("location.lat"), Some(3));
    assert_eq!(get("location.lon"), Some(4));
    assert_eq!(get("lat"), None);
    let id_to_name = schema.id_to_name();
    assert_eq!(id_to_name.get(&4).map(|s| s.as_str()), Some("location.lon"));
}

#[test]
fn test_same_schema() {
    let schema1 = Schema::new(0, vec![req(1, "id", prim("long")), opt(2, "data", prim("string"))]);
    let schema2 = Schema::new(1, vec![req(1, "id", prim("long")), opt(2, "data", prim("string"))]);
    assert!(schema1.same_schema(&schema2));
    let schema3 = Schema::new(0, vec![req(1, "id", prim("long"))]);
    assert!(!schema1.same_schema(&schema3));
}

#[test]
fn snapshot_refs() {
    let b = SnapshotRef::branch(7);
    assert!(b.is_branch());
    assert!(!b.is_tag());
    let t = SnapshotRef::tag(8);
    assert!(t.is_tag());
    assert_eq!(t.snapshot_id, 8);
}

fn snapshot(id: i64, parent: Option<i64>) -> Snapshot {
    Snapshot {
        snapshot_id: id,
        parent_snapshot_id: parent,
        sequence_number: None,
        timestamp_ms: 1515100955770,
        manifest_list: Some(format!("s3://bucket/snap-{}.avro", id)),
        manifests: None,
        summary: Some(SnapshotSummary { operation: SnapshotOperation::Append, other: Default::default() }),
        schema_id: Some(1),
        first_row_id: None,
    }
}

fn sample_metadata() -> TableMetadata {
    let schema0 = Schema::new(0, vec![req(1, "id", prim("long"))]);
    let schema1 = Schema::new(1, vec![req(1, "id", prim("long")), opt(2, "data", prim("string")), opt(3, "category", prim("string"))]);
    TableMetadata {
        format_version: 2,
        table_uuid: "9c12d441-03fe-4693-9a96-a0705ddf69c1".to_string(),
        location: "s3://bucket/warehouse/ns/table".to_string(),
        last_sequence_number: 34,
        last_updated_ms: 1602638573590,
        last_column_id: 3,
        current_schema_id: 1,
        schemas: vec![schema0, schema1],
        schema: None,
        default_spec_id: 0,
        partition_specs: vec![PartitionSpec::new(0, vec![])],
        partition_spec: None,
        last_partition_id: 999,
        default_sort_order_id: 0,
        sort_orders: vec![SortOrder::new(0, vec![])],
        properties: vec![("owner".to_string(), "test_user".to_string()), ("write.format.default".to_string(), "parquet".to_string())],
        current_snapshot_id: Some(3055729675574597004),
        snapshots: vec![snapshot(3051729675574597004, None), snapshot(3055729675574597004, Some(3051729675574597004))],
        snapshot_log: vec![SnapshotLogEntry { timestamp_ms: 1515100955770, snapshot_id: 3051729675574597004 }],
        metadata_log: vec![MetadataLogEntry { timestamp_ms: 1515100955770, metadata_file: "v1.metadata.json".to_string() }],
        refs: vec![("main".to_string(), SnapshotRef::branch(3055729675574597004))],
        statistics: vec![],
        partition_statistics: vec![],
        next_row_id: None,
        metadata_location: None,
    }
}

#[test]
fn test_current_schema() {
    let metadata = sample_metadata();
    let schema = metadata.current_schema().unwrap();
    assert_eq!(schema.schema_id, 1);
    assert_eq!(schema.fields.len(), 3);
}

#[test]
fn test_current_snapshot() {
    let metadata = sample_metadata();
    let snapshot = metadata.current_snapshot().unwrap();
    assert_eq!(snapshot.snapshot_id, 3055729675574597004);
    assert_eq!(snapshot.parent_snapshot_id, Some(3051729675574597004));
    assert!(!snapshot.is_initial());
    assert!(metadata.snapshot(3051729675574597004).unwrap().is_initial());
}

#[test]
fn test_properties() {
    let metadata = sample_metadata();
    assert_eq!(metadata.property("owner"), Some("test_user"));
    assert_eq!(metadata.property("write.format.default"), Some("parquet"));
    assert!(metadata.property("nonexistent").is_none());
}

#[test]
fn test_main_branch() {
    let metadata = sample_metadata();
    let main = metadata.main_branch().unwrap();
    assert_eq!(main.snapshot_id, 3055729675574597004);
    assert!(main.is_branch());
    assert!(metadata.snapshot_ref("other").is_none());
}

#[test]
fn metadata_lookups_by_id() {
    let metadata = sample_metadata();
    assert_eq!(metadata.schema(0).unwrap().fields.len(), 1);
    assert!(metadata.schema(5).is_none());
    assert!(metadata.current_spec().unwrap().is_unpartitioned());
    assert!(metadata.current_sort_order().unwrap().is_unsorted());
    assert!(metadata.is_v2());
    assert!(!metadata.is_v1());
    assert!(!metadata.has_row_lineage());
}

#[test]
fn test_v3_metadata_with_row_lineage() {
    let mut metadata = sample_metadata();
    metadata.format_version = 3;
    metadata.next_row_id = Some(1000);
    assert!(metadata.is_v3());
    assert!(metadata.has_row_lineage());
    assert_eq!(metadata.next_row_id, Some(1000));
}

#[test]
fn metadata_location_and_gzip() {
    assert!(TableMetadataParser::is_gzip("v1.metadata.json.gz"));
    assert!(!TableMetadataParser::is_gzip("v1.gz.metadata.json"));
    assert!(!TableMetadataParser::is_gzip("v1.metadata.json"));
    let metadata = TableMetadataParser::with_location(sample_metadata(), Some("s3://x/v3.metadata.json".to_string()));
    assert_eq!(metadata.metadata_location(), Some("s3://x/v3.metadata.json"));
    assert!(sample_metadata().metadata_location().is_none());
}

#[test]
fn test_parse_simple_schema() {
    let schema = Schema::new(0, vec![req(1, "id", prim("long")), opt(2, "data", prim("string"))]);
    assert_eq!(schema.schema_id, 0);
    assert_eq!(schema.fields.len(), 2);
    assert_eq!(schema.fields[0].name, "id");
    assert!(schema.fields[0].required);
    assert_eq!(schema.fields[1].name, "data");
    assert!(!schema.fields[1].required);
    assert_eq!(schema.struct_type, "struct");
}

#[test]
fn test_parse_list_and_map() {
    let tags = Type::List(ListType { type_str: "list".to_string(), element_id: 2, element: Box::new(prim("string")), element_required: false });
    let props = Type::Mapping(MapType {
        type_str: "map".to_string(),
        key_id: 4,
        key: Box::new(prim("string")),
        value_id: 5,
        value: Box::new(prim("string")),
        value_required: false,
    });
    let schema = Schema::new(0, vec![opt(1, "tags", tags), opt(3, "properties", props)]);
    assert_eq!(schema.fields.len(), 2);
    assert!(schema.fields[0].field_type.is_list());
    assert!(schema.fields[1].field_type.is_map());
    assert_eq!(schema.fields[1].field_type.type_str(), "map");
    assert_eq!(schema.highest_field_id(), 5);
    let ids = schema.all_field_ids();
    for id in [1, 2, 3, 4, 5] {
        assert!(ids.contains(&id));
    }
}

#[test]
fn test_parse_snapshot() {
    let mut snap = snapshot(3051729675574597004, Some(1234567890));
    snap.sequence_number = Some(10);
    assert_eq!(snap.snapshot_id, 3051729675574597004);
    assert_eq!(snap.parent_snapshot_id, Some(1234567890));
    assert_eq!(snap.sequence_number, Some(10));
    assert!(snap.manifest_list.is_some());
    assert!(!snap.is_initial());
    assert_eq!(snap.manifest_list_location(), Some("s3://bucket/snap-3051729675574597004.avro"));
    assert_eq!(snap.operation(), Some(&SnapshotOperation::Append));
}

#[test]
fn test_parse_initial_snapshot() {
    let snap = snapshot(1, None);
    assert!(snap.is_initial());
    assert!(snap.parent_snapshot_id.is_none());
}

#[test]
fn test_parse_snapshot_ref_branch() {
    let mut r = SnapshotRef::branch(123456);
    r.max_snapshot_age_ms = Some(86400000);
    r.min_snapshots_to_keep = Some(10);
    assert_eq!(r.snapshot_id, 123456);
    assert!(r.is_branch());
    assert_eq!(r.max_snapshot_age_ms, Some(86400000));
    assert_eq!(r.min_snapshots_to_keep, Some(10));
}

#[test]
fn test_parse_snapshot_ref_tag() {
    let r = SnapshotRef::tag(789);
    assert!(r.is_tag());
    assert!(!r.is_branch());
}

#[test]
fn test_parse_snapshot_log() {
    let log = vec![
        SnapshotLogEntry { timestamp_ms: 1515100955770, snapshot_id: 1 },
        SnapshotLogEntry { timestamp_ms: 1515100956000, snapshot_id: 2 },
    ];
    assert_eq!(log.len(), 2);
    assert_eq!(log[0].snapshot_id, 1);
    assert_eq!(log[1].snapshot_id, 2);
}

#[test]
fn test_parse_v2_metadata() {
    let metadata = sample_metadata();
    assert_eq!(metadata.format_version, 2);
    assert_eq!(metadata.table_uuid, "9c12d441-03fe-4693-9a96-a0705ddf69c1");
    assert_eq!(metadata.location, "s3://bucket/warehouse/ns/table");
    assert_eq!(metadata.last_sequence_number, 34);
    assert_eq!(metadata.last_column_id, 3);
    assert_eq!(metadata.current_schema_id, 1);
    assert_eq!(metadata.schemas.len(), 2);
    assert_eq!(metadata.partition_specs.len(), 1);
    assert_eq!(metadata.sort_orders.len(), 1);
    assert_eq!(metadata.snapshots.len(), 2);
    assert_eq!(metadata.metadata_log.len(), 1);
    assert!(metadata.snapshot_ref("main").is_some());
}

#[test]
fn fields_by_id_and_name() {
    let schema = location_schema();
    let by_id = schema.fields_by_id();
    assert_eq!(by_id.len(), 4);
    assert_eq!(by_id.get(&3).map(|f| f.name.as_str()), Some("lat"));
    assert_eq!(by_id.get(&2).map(|f| f.name.as_str()), Some("location"));
    let by_name = schema.fields_by_name();
    assert_eq!(by_name.len(), 2);
    assert!(by_name.iter().any(|(n, f)| *n == "location" && f.id == 2));
    assert!(!by_name.iter().any(|(n, _)| *n == "lat"));
    let dup = Schema::new(0, vec![req(1, "a", prim("int")), req(2, "a", prim("long"))]);
    let by_name = dup.fields_by_name();
    assert_eq!(by_name.len(), 1);
    assert_eq!(by_name[0].1.id, 2);
}

#[test]
fn month_counts_months_since_1970() {
    assert_eq!(Transform::Month.apply_to_date(0), Some(0));
    assert_eq!(Transform::Month.apply_to_date(31), Some(1));
    assert_eq!(Transform::Month.apply_to_date(59), Some(2));
    assert_eq!(Transform::Month.apply_to_date(-1), Some(-1));
    assert_eq!(Transform::Month.apply_to_date(11016), Some(361));
    assert_eq!(Transform::Month.apply_to_date(11017), Some(362));
    assert_eq!(Transform::Month.apply_to_date(20088), Some(659));
    assert_eq!(Transform::Month.apply_to_date(-24837), Some(-816));
    assert_eq!(Transform::Year.apply_to_date(0), Some(0));
    assert_eq!(Transform::Day.apply_to_date(31), Some(31));
    assert_eq!(Transform::Identity.apply_to_date(31), Some(31));
    assert_eq!(Transform::Hour.apply_to_date(0), None);
}

#[test]
fn year_counts_calendar_years_since_1970() {
    assert_eq!(Transform::Year.apply_to_date(-1), Some(-1));
    assert_eq!(Transform::Year.apply_to_date(364), Some(0));
    assert_eq!(Transform::Year.apply_to_date(365), Some(1));
    assert_eq!(Transform::Year.apply_to_date(-24837), Some(-68));
    assert_eq!(Transform::Year.apply_to_date(20088), Some(54));
    assert_eq!(Transform::Year.apply_to_date(i32::MIN), Some(-5879611));
    assert_eq!(Transform::Month.apply_to_date(i32::MAX), Some(70555326));
}

#[test]
fn timestamp_month_and_year() {
    let day = 86_400_000_000i64;
    assert_eq!(Transform::Month.apply_to_timestamp_micros(31 * day + 5), Some(1));
    assert_eq!(Transform::Year.apply_to_timestamp_micros(365 * day), Some(1));
}
