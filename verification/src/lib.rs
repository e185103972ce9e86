//! Verified core of an Apache Iceberg table-format library.
use vstd::prelude::*;

pub mod text;
pub mod expr;
pub mod metadata;
pub mod types;
pub mod manifest;
pub mod delete;
pub mod iceberg_error;
pub mod error;
pub mod paths;
pub mod writer;
pub mod merge;
pub mod position_delete;
pub mod jni;

pub mod deletion_vector;

verus! {
} // verus!
