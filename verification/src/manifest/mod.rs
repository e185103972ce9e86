//! Manifests: content files, manifest entries and their filtering.
pub mod small;
pub mod content_file;
pub mod entry;
pub mod filter;
pub mod avro;
pub mod reader;
pub mod avro_file;
pub mod group;
