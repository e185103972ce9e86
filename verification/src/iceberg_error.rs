//! Errors of the file-reading layer: deletion vectors, Puffin files, position deletes.
use vstd::prelude::*;
use crate::text::owned;

verus! {

/// An error of the file-reading layer; the message of an I/O or JSON failure is kept
/// as text.
#[derive(Debug)]
pub enum IcebergError {
    /// I/O failure
    Io(String),
    /// Parquet failure
    Parquet(String),
    /// Arrow failure
    Arrow(String),
    /// DataFusion failure
    DataFusion(String),
    /// Object store failure
    ObjectStore(String),
    /// Invalid file format
    InvalidFormat(String),
    /// Invalid deletion vector
    InvalidDeletionVector(String),
    /// Position delete error
    PositionDeleteError(String),
    /// Schema mismatch
    SchemaMismatch(String),
    /// File not found
    FileNotFound(String),
    /// Invalid argument
    InvalidArgument(String),
    /// JSON parsing failure
    JsonError(String),
    /// General error
    General(String),
}

impl IcebergError {
    /// A general error.
    pub fn general(msg: &str) -> (r: IcebergError)
        ensures
            r matches IcebergError::General(m) && m@ == msg@,
    {
        IcebergError::General(owned(msg))
    }

    /// An invalid format error.
    pub fn invalid_format(msg: &str) -> (r: IcebergError)
        ensures
            r matches IcebergError::InvalidFormat(m) && m@ == msg@,
    {
        IcebergError::InvalidFormat(owned(msg))
    }

    /// An invalid deletion vector error.
    pub fn invalid_deletion_vector(msg: &str) -> (r: IcebergError)
        ensures
            r matches IcebergError::InvalidDeletionVector(m) && m@ == msg@,
    {
        IcebergError::InvalidDeletionVector(owned(msg))
    }

    /// A position delete error.
    pub fn position_delete_error(msg: &str) -> (r: IcebergError)
        ensures
            r matches IcebergError::PositionDeleteError(m) && m@ == msg@,
    {
        IcebergError::PositionDeleteError(owned(msg))
    }
}

} // verus!
