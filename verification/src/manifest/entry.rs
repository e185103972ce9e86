//! Manifest entries: a content file with its status and sequence numbers.
use vstd::prelude::*;
use crate::types::FileContent;
use crate::text::owned;
use super::content_file::{ContentFile, ContentFileData, ContentFileView, DataFile, DeleteFile};

verus! {

broadcast use super::content_file::lemma_data_file_record, super::content_file::lemma_delete_file_record;

/// Whether an entry's file exists, was added or was deleted.
#[derive(Debug, Clone, Copy, PartialEq, Eq, Hash, Structural)]
pub enum Status {
    /// File exists in the table
    Existing,
    /// File was added in this snapshot
    Added,
    /// File was deleted in this snapshot
    Deleted,
}

/// The numeric id of a status, as stored in manifests.
pub open spec fn status_id(s: Status) -> i32 {
    match s {
        Status::Existing => 0,
        Status::Added => 1,
        Status::Deleted => 2,
    }
}

/// The status with a numeric id.
pub open spec fn status_with_id(id: i32) -> Option<Status> {
    if id == 0 {
        Some(Status::Existing)
    } else if id == 1 {
        Some(Status::Added)
    } else if id == 2 {
        Some(Status::Deleted)
    } else {
        None
    }
}

/// A live entry is one whose file was not deleted.
pub open spec fn status_live(s: Status) -> bool {
    s != Status::Deleted
}

impl Status {
    /// The status with the given numeric id.
    pub fn from_id(id: i32) -> (r: Option<Status>)
        ensures
            r == status_with_id(id),
    {
        match id {
            0 => Some(Status::Existing),
            1 => Some(Status::Added),
            2 => Some(Status::Deleted),
            _ => None,
        }
    }

    /// The numeric id.
    pub fn id(&self) -> (r: i32)
        ensures
            r == status_id(*self),
    {
        match self {
            Status::Existing => 0,
            Status::Added => 1,
            Status::Deleted => 2,
        }
    }

    /// Whether the file was not deleted.
    pub fn is_live(&self) -> (r: bool)
        ensures
            r == status_live(*self),
    {
        match self {
            Status::Existing | Status::Added => true,
            Status::Deleted => false,
        }
    }

    /// The upper-case name.
    pub fn to_display_string(&self) -> (r: String)
        ensures
            r@ == match *self {
                Status::Existing => "EXISTING"@,
                Status::Added => "ADDED"@,
                Status::Deleted => "DELETED"@,
            },
    {
        match self {
            Status::Existing => owned("EXISTING"),
            Status::Added => owned("ADDED"),
            Status::Deleted => owned("DELETED"),
        }
    }
}

impl Default for Status {
    fn default() -> (r: Status)
        ensures
            r == Status::Existing,
    {
        Status::Existing
    }
}

/// Reading a numeric id and writing it back gives the id.
pub proof fn lemma_status_id_roundtrip(id: i32)
    ensures
        status_with_id(id) matches Some(s) ==> status_id(s) == id,
        forall|s: Status| #[trigger] status_with_id(status_id(s)) == Some(s),
{
    assert forall|s: Status| #[trigger] status_with_id(status_id(s)) == Some(s) by {
        match s {
            Status::Existing => {},
            Status::Added => {},
            Status::Deleted => {},
        }
    }
}

/// The status, snapshot and sequence numbers of an entry.
pub struct EntryHeader {
    pub status: Status,
    pub snapshot_id: Option<i64>,
    pub data_sequence_number: Option<i64>,
    pub file_sequence_number: Option<i64>,
}

/// A file entry of a manifest.
#[derive(Debug)]
pub struct ManifestEntry<F: ContentFile> {
    status: Status,
    snapshot_id: Option<i64>,
    data_sequence_number: Option<i64>,
    file_sequence_number: Option<i64>,
    file: F,
}

/// An entry listing a data file.
pub type DataManifestEntry = ManifestEntry<DataFile>;

/// An entry listing a delete file.
pub type DeleteManifestEntry = ManifestEntry<DeleteFile>;

impl<F: ContentFile> View for ManifestEntry<F> {
    type V = EntryHeader;

    closed spec fn view(&self) -> EntryHeader {
        EntryHeader {
            status: self.status,
            snapshot_id: self.snapshot_id,
            data_sequence_number: self.data_sequence_number,
            file_sequence_number: self.file_sequence_number,
        }
    }
}

impl<F: ContentFile> ManifestEntry<F> {
    /// The file of the entry.
    pub closed spec fn entry_file(&self) -> F {
        self.file
    }

    /// An entry with the given fields.
    pub fn new(
        status: Status,
        snapshot_id: Option<i64>,
        data_sequence_number: Option<i64>,
        file_sequence_number: Option<i64>,
        file: F,
    ) -> (r: Self)
        ensures
            r@ == (EntryHeader { status, snapshot_id, data_sequence_number, file_sequence_number }),
            r.entry_file() == file,
    {
        ManifestEntry { status, snapshot_id, data_sequence_number, file_sequence_number, file }
    }

    /// The status.
    pub fn status(&self) -> (r: Status)
        ensures
            r == self@.status,
    {
        self.status
    }

    /// The snapshot in which the file was added.
    pub fn snapshot_id(&self) -> (r: Option<i64>)
        ensures
            r == self@.snapshot_id,
    {
        self.snapshot_id
    }

    /// The data sequence number.
    pub fn data_sequence_number(&self) -> (r: Option<i64>)
        ensures
            r == self@.data_sequence_number,
    {
        self.data_sequence_number
    }

    /// The file sequence number.
    pub fn file_sequence_number(&self) -> (r: Option<i64>)
        ensures
            r == self@.file_sequence_number,
    {
        self.file_sequence_number
    }

    /// The file.
    pub fn file(&self) -> (r: &F)
        ensures
            *r == self.entry_file(),
    {
        &self.file
    }

    /// The file, to change in place.
    pub fn file_mut(&mut self) -> (r: &mut F)
        ensures
            *r == old(self).entry_file(),
            final(self)@ == old(self)@,
            final(self).entry_file() == *final(r),
    {
        &mut self.file
    }

    /// Replaces the file.
    pub fn set_file(&mut self, file: F)
        ensures
            final(self)@ == old(self)@,
            final(self).entry_file() == file,
    {
        self.file = file;
    }

    /// The file, taking the entry apart.
    pub fn into_file(self) -> (r: F)
        ensures
            r == self.entry_file(),
    {
        self.file
    }

    /// Whether the file was not deleted.
    pub fn is_live(&self) -> (r: bool)
        ensures
            r == status_live(self@.status),
    {
        self.status.is_live()
    }

    /// A copy whose file has no column statistics.
    pub fn copy_without_stats(&self) -> (r: Self)
        ensures
            r@ == self@,
            r.entry_file().record() == super::content_file::without_stats(self.entry_file().record()),
            r.entry_file().kind() == self.entry_file().kind(),
    {
        ManifestEntry {
            status: self.status,
            snapshot_id: self.snapshot_id,
            data_sequence_number: self.data_sequence_number,
            file_sequence_number: self.file_sequence_number,
            file: self.file.copy_without_stats(),
        }
    }
}

/// A manifest entry as decoded, before its file is typed.
#[derive(Debug)]
pub struct RawManifestEntry {
    pub status: i32,
    pub snapshot_id: Option<i64>,
    pub data_sequence_number: Option<i64>,
    pub file_sequence_number: Option<i64>,
    pub file: ContentFileData,
}

/// The status an entry with a numeric status gets: an unknown id reads as existing.
pub open spec fn decoded_status(id: i32) -> Status {
    match status_with_id(id) {
        Some(s) => s,
        None => Status::Existing,
    }
}

/// The header of a decoded entry.
pub open spec fn raw_header(raw: RawManifestEntry) -> EntryHeader {
    EntryHeader {
        status: decoded_status(raw.status),
        snapshot_id: raw.snapshot_id,
        data_sequence_number: raw.data_sequence_number,
        file_sequence_number: raw.file_sequence_number,
    }
}

impl Default for RawManifestEntry {
    fn default() -> (r: RawManifestEntry)
        ensures
            r.status == 0,
            r.snapshot_id is None,
            r.data_sequence_number is None,
            r.file_sequence_number is None,
            r.file@ == super::content_file::bare_file(
                FileContent::Data,
                Seq::empty(),
                crate::types::FileFormat::Parquet,
                0,
                Seq::empty(),
                0,
                0,
            ),
    {
        RawManifestEntry {
            status: 0,
            snapshot_id: None,
            data_sequence_number: None,
            file_sequence_number: None,
            file: ContentFileData::new_default(),
        }
    }
}

impl RawManifestEntry {
    /// The entry as a data entry.
    pub fn into_data_entry(self) -> (r: DataManifestEntry)
        ensures
            r@ == raw_header(self),
            r.entry_file()@ == self.file@,
    {
        let status = match Status::from_id(self.status) {
            Some(s) => s,
            None => Status::Existing,
        };
        ManifestEntry {
            status,
            snapshot_id: self.snapshot_id,
            data_sequence_number: self.data_sequence_number,
            file_sequence_number: self.file_sequence_number,
            file: DataFile::from_data(self.file),
        }
    }

    /// The entry as a delete entry.
    pub fn into_delete_entry(self) -> (r: DeleteManifestEntry)
        ensures
            r@ == raw_header(self),
            r.entry_file()@ == self.file@,
    {
        let status = match Status::from_id(self.status) {
            Some(s) => s,
            None => Status::Existing,
        };
        ManifestEntry {
            status,
            snapshot_id: self.snapshot_id,
            data_sequence_number: self.data_sequence_number,
            file_sequence_number: self.file_sequence_number,
            file: DeleteFile::from_data(self.file),
        }
    }

    /// The entry typed by what its file holds.
    pub fn into_typed_entry(self) -> (r: TypedManifestEntry)
        ensures
            match r {
                TypedManifestEntry::Data(e) => self.file.content == FileContent::Data && e@ == raw_header(self)
                    && e.entry_file()@ == self.file@,
                TypedManifestEntry::Delete(e) => self.file.content != FileContent::Data && e@ == raw_header(self)
                    && e.entry_file()@ == self.file@,
            },
    {
        match self.file.content {
            FileContent::Data => TypedManifestEntry::Data(self.into_data_entry()),
            FileContent::PositionDeletes | FileContent::EqualityDeletes => TypedManifestEntry::Delete(
                self.into_delete_entry(),
            ),
        }
    }
}

/// A manifest entry, of a data file or of a delete file.
#[derive(Debug)]
pub enum TypedManifestEntry {
    Data(DataManifestEntry),
    Delete(DeleteManifestEntry),
}

impl TypedManifestEntry {
    /// The header of the entry.
    pub open spec fn header(&self) -> EntryHeader {
        match self {
            TypedManifestEntry::Data(e) => e@,
            TypedManifestEntry::Delete(e) => e@,
        }
    }

    /// What the entry's file records.
    pub open spec fn file_record(&self) -> ContentFileView {
        match self {
            TypedManifestEntry::Data(e) => e.entry_file()@,
            TypedManifestEntry::Delete(e) => e.entry_file()@,
        }
    }

    /// The status.
    pub fn status(&self) -> (r: Status)
        ensures
            r == self.header().status,
    {
        match self {
            TypedManifestEntry::Data(e) => e.status(),
            TypedManifestEntry::Delete(e) => e.status(),
        }
    }

    /// Whether the file was not deleted.
    pub fn is_live(&self) -> (r: bool)
        ensures
            r == status_live(self.header().status),
    {
        match self {
            TypedManifestEntry::Data(e) => e.is_live(),
            TypedManifestEntry::Delete(e) => e.is_live(),
        }
    }

    /// The file path.
    pub fn file_path(&self) -> (r: &str)
        ensures
            r@ == self.file_record().file_path,
    {
        match self {
            TypedManifestEntry::Data(e) => e.file().file_path(),
            TypedManifestEntry::Delete(e) => e.file().file_path(),
        }
    }

    /// The record count.
    pub fn record_count(&self) -> (r: i64)
        ensures
            r == self.file_record().record_count,
    {
        match self {
            TypedManifestEntry::Data(e) => e.file().record_count(),
            TypedManifestEntry::Delete(e) => e.file().record_count(),
        }
    }

    /// Whether this is a data entry.
    pub fn is_data(&self) -> (r: bool)
        ensures
            r == (self is Data),
    {
        match self {
            TypedManifestEntry::Data(_) => true,
            TypedManifestEntry::Delete(_) => false,
        }
    }

    /// Whether this is a delete entry.
    pub fn is_delete(&self) -> (r: bool)
        ensures
            r == (self is Delete),
    {
        match self {
            TypedManifestEntry::Data(_) => false,
            TypedManifestEntry::Delete(_) => true,
        }
    }

    /// The data entry, if this is one.
    pub fn as_data(&self) -> (r: Option<&DataManifestEntry>)
        ensures
            match self {
                TypedManifestEntry::Data(e) => r == Some(e),
                TypedManifestEntry::Delete(_) => r is None,
            },
    {
        match self {
            TypedManifestEntry::Data(e) => Some(e),
            TypedManifestEntry::Delete(_) => None,
        }
    }

    /// The delete entry, if this is one.
    pub fn as_delete(&self) -> (r: Option<&DeleteManifestEntry>)
        ensures
            match self {
                TypedManifestEntry::Delete(e) => r == Some(e),
                TypedManifestEntry::Data(_) => r is None,
            },
    {
        match self {
            TypedManifestEntry::Delete(e) => Some(e),
            TypedManifestEntry::Data(_) => None,
        }
    }
}

/// Builds manifest entries.
pub struct ManifestEntryBuilder<F: ContentFile> {
    pub status: Status,
    pub snapshot_id: Option<i64>,
    pub data_sequence_number: Option<i64>,
    pub file_sequence_number: Option<i64>,
    pub file: Option<F>,
}

impl<F: ContentFile> Default for ManifestEntryBuilder<F> {
    fn default() -> (r: Self)
        ensures
            r.status == Status::Added,
            r.snapshot_id is None,
            r.data_sequence_number is None,
            r.file_sequence_number is None,
            r.file is None,
    {
        Self::new()
    }
}

impl<F: ContentFile> ManifestEntryBuilder<F> {
    /// A builder for an added entry with nothing else set.
    pub fn new() -> (r: Self)
        ensures
            r.status == Status::Added,
            r.snapshot_id is None,
            r.data_sequence_number is None,
            r.file_sequence_number is None,
            r.file is None,
    {
        ManifestEntryBuilder {
            status: Status::Added,
            snapshot_id: None,
            data_sequence_number: None,
            file_sequence_number: None,
            file: None,
        }
    }

    /// Sets the status.
    pub fn status(self, status: Status) -> (r: Self)
        ensures
            r == (ManifestEntryBuilder { status, ..self }),
    {
        ManifestEntryBuilder { status, ..self }
    }

    /// Sets the snapshot ID.
    pub fn snapshot_id(self, id: i64) -> (r: Self)
        ensures
            r == (ManifestEntryBuilder { snapshot_id: Some(id), ..self }),
    {
        ManifestEntryBuilder { snapshot_id: Some(id), ..self }
    }

    /// Sets the data sequence number.
    pub fn data_sequence_number(self, seq: i64) -> (r: Self)
        ensures
            r == (ManifestEntryBuilder { data_sequence_number: Some(seq), ..self }),
    {
        ManifestEntryBuilder { data_sequence_number: Some(seq), ..self }
    }

    /// Sets the file sequence number.
    pub fn file_sequence_number(self, seq: i64) -> (r: Self)
        ensures
            r == (ManifestEntryBuilder { file_sequence_number: Some(seq), ..self }),
    {
        ManifestEntryBuilder { file_sequence_number: Some(seq), ..self }
    }

    /// Sets the file.
    pub fn file(self, file: F) -> (r: Self)
        ensures
            r == (ManifestEntryBuilder { file: Some(file), ..self }),
    {
        ManifestEntryBuilder { file: Some(file), ..self }
    }

    /// The entry, if a file was set.
    pub fn build(self) -> (r: Option<ManifestEntry<F>>)
        ensures
            match self.file {
                None => r is None,
                Some(f) => r matches Some(e) && e@ == (EntryHeader {
                    status: self.status,
                    snapshot_id: self.snapshot_id,
                    data_sequence_number: self.data_sequence_number,
                    file_sequence_number: self.file_sequence_number,
                }) && e.entry_file() == f,
            },
    {
        match self.file {
            Some(file) => Some(ManifestEntry {
                status: self.status,
                snapshot_id: self.snapshot_id,
                data_sequence_number: self.data_sequence_number,
                file_sequence_number: self.file_sequence_number,
                file,
            }),
            None => None,
        }
    }
}

} // verus!
