//! Snapshots and references to them.
use vstd::prelude::*;
use std::collections::HashMap;

verus! {

/// The kind of change a snapshot made.
#[derive(Debug, Clone, Copy, PartialEq, Eq, Structural)]
pub enum Operation {
    Append,
    Replace,
    Overwrite,
    Delete,
}

/// The summary of a snapshot.
#[derive(Debug)]
pub struct SnapshotSummary {
    /// Operation type
    pub operation: Operation,
    /// Additional summary properties
    pub other: HashMap<String, String>,
}

/// A table snapshot.
#[derive(Debug)]
pub struct Snapshot {
    /// Unique snapshot ID
    pub snapshot_id: i64,
    /// ID of the parent snapshot
    pub parent_snapshot_id: Option<i64>,
    /// Sequence number (format version 2 on)
    pub sequence_number: Option<i64>,
    /// Creation time, in milliseconds since the epoch
    pub timestamp_ms: i64,
    /// Location of the manifest list file
    pub manifest_list: Option<String>,
    /// Manifest locations (older tables, in place of a manifest list)
    pub manifests: Option<Vec<String>>,
    /// Snapshot summary
    pub summary: Option<SnapshotSummary>,
    /// Schema ID used for this snapshot
    pub schema_id: Option<i32>,
    /// First row ID of this snapshot (format version 3 on)
    pub first_row_id: Option<i64>,
}

impl Snapshot {
    /// The manifest list location, if there is one.
    pub fn manifest_list_location(&self) -> (r: Option<&str>)
        ensures
            match self.manifest_list {
                Some(l) => r matches Some(s) && s@ == l@,
                None => r is None,
            },
    {
        match &self.manifest_list {
            Some(l) => Some(l.as_str()),
            None => None,
        }
    }

    /// Whether this snapshot has no parent.
    pub fn is_initial(&self) -> (r: bool)
        ensures
            r == (self.parent_snapshot_id is None),
    {
        self.parent_snapshot_id.is_none()
    }

    /// The operation of the summary, if there is a summary.
    pub fn operation(&self) -> (r: Option<&Operation>)
        ensures
            match self.summary {
                Some(s) => r == Some(&s.operation),
                None => r is None,
            },
    {
        match &self.summary {
            Some(s) => Some(&s.operation),
            None => None,
        }
    }
}

/// The kind of a snapshot reference.
#[derive(Debug, Clone, Copy, PartialEq, Eq, Structural)]
pub enum SnapshotRefType {
    Branch,
    Tag,
}

/// A named reference to a snapshot: a branch or a tag.
#[derive(Debug)]
pub struct SnapshotRef {
    /// The snapshot the reference points to
    pub snapshot_id: i64,
    /// Reference type
    pub ref_type: SnapshotRefType,
    /// Maximum age of the reference in milliseconds
    pub max_ref_age_ms: Option<i64>,
    /// Maximum snapshot age in milliseconds (branches)
    pub max_snapshot_age_ms: Option<i64>,
    /// Minimum number of snapshots to keep (branches)
    pub min_snapshots_to_keep: Option<i32>,
}

impl SnapshotRef {
    /// A branch at the given snapshot, with no retention settings.
    pub fn branch(snapshot_id: i64) -> (r: SnapshotRef)
        ensures
            r.snapshot_id == snapshot_id,
            r.ref_type == SnapshotRefType::Branch,
            r.max_ref_age_ms is None,
            r.max_snapshot_age_ms is None,
            r.min_snapshots_to_keep is None,
    {
        SnapshotRef {
            snapshot_id,
            ref_type: SnapshotRefType::Branch,
            max_ref_age_ms: None,
            max_snapshot_age_ms: None,
            min_snapshots_to_keep: None,
        }
    }

    /// A tag at the given snapshot, with no retention settings.
    pub fn tag(snapshot_id: i64) -> (r: SnapshotRef)
        ensures
            r.snapshot_id == snapshot_id,
            r.ref_type == SnapshotRefType::Tag,
            r.max_ref_age_ms is None,
            r.max_snapshot_age_ms is None,
            r.min_snapshots_to_keep is None,
    {
        SnapshotRef {
            snapshot_id,
            ref_type: SnapshotRefType::Tag,
            max_ref_age_ms: None,
            max_snapshot_age_ms: None,
            min_snapshots_to_keep: None,
        }
    }

    /// Whether this is a branch.
    pub fn is_branch(&self) -> (r: bool)
        ensures
            r == (self.ref_type == SnapshotRefType::Branch),
    {
        self.ref_type == SnapshotRefType::Branch
    }

    /// Whether this is a tag.
    pub fn is_tag(&self) -> (r: bool)
        ensures
            r == (self.ref_type == SnapshotRefType::Tag),
    {
        self.ref_type == SnapshotRefType::Tag
    }
}

/// An entry of the snapshot history.
#[derive(Debug, Clone, Copy, PartialEq, Eq, Structural)]
pub struct SnapshotLogEntry {
    /// When the snapshot became current, in milliseconds since the epoch
    pub timestamp_ms: i64,
    /// Snapshot ID
    pub snapshot_id: i64,
}

} // verus!
