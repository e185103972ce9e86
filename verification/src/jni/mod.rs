//! What the Java bindings share: native handles and their error type.
pub mod util;
pub mod error;
pub mod delete;
pub mod manifest;
