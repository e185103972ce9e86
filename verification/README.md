# iceberg_rust_native

A verified core of an Apache Iceberg table-format library: expressions and their
binding and evaluation, table metadata (schemas, partition specs and transforms,
sort orders, snapshots), manifest files read from their Avro bytes, manifest
entries and their decoding and filtering, the
delete file index, deletion vectors and position deletes, and the settings of
merging and writing files. The functions under `src/` are proved by Verus against
their contracts; the small wrappers of outside calls state what those calls do.

Layout:

- `src/` — the verified library, one module per area (`expr`, `metadata`,
  `manifest`, `delete`, `deletion_vector`, `position_delete`, `paths`, `merge`,
  `writer`, `jni` for the records the Java bindings exchange).
- `tests/` — tests of the library on concrete values.
- `app/` — the parts around it: reading files, JSON decoding into the library's
  types, Arrow batch filtering, threads, floating-point figures, and the Java
  native entry points (`app/java`).
