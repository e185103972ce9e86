//! Table metadata: partition specs, sort orders, snapshots, schemas.
pub mod murmur;
pub mod spec;
pub mod snapshot;
pub mod schema;
pub mod table;
