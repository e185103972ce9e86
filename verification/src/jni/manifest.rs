//! What the Java bindings of manifest reading keep and hand back: the settings of a
//! reader, the manifests of a group, and the plain record of each entry read.
use vstd::prelude::*;
use crate::manifest::content_file::ContentFile;
use crate::manifest::entry::{ManifestEntry, status_id};
use crate::manifest::group::{ManifestFile, ManifestGroup};
use crate::manifest::reader::{ManifestContent, ManifestReaderBuilder};
use crate::merge::cpu_count;
use crate::text::{copy_string, owned};
use crate::types::content_id;
use super::delete::{format_debug_name, format_debug_string};

verus! {

broadcast use vstd::string::group_string_axioms;

/// The settings a Java manifest reader is opened with.
#[derive(Debug)]
pub struct ManifestReaderConfig {
    pub path: String,
    pub first_row_id: i64,
    pub include_deleted: bool,
    pub keep_stats: bool,
}

impl ManifestReaderConfig {
    /// A reader of the manifest at `path` with row IDs from zero, deleted entries
    /// left out and statistics kept.
    pub fn new(path: String) -> (r: ManifestReaderConfig)
        ensures
            r.path == path,
            r.first_row_id == 0,
            !r.include_deleted,
            r.keep_stats,
    {
        ManifestReaderConfig { path, first_row_id: 0, include_deleted: false, keep_stats: true }
    }

    /// A copy of these settings.
    pub fn duplicate(&self) -> (r: ManifestReaderConfig)
        ensures
            r.path@ == self.path@,
            r.first_row_id == self.first_row_id,
            r.include_deleted == self.include_deleted,
            r.keep_stats == self.keep_stats,
    {
        ManifestReaderConfig {
            path: copy_string(&self.path),
            first_row_id: self.first_row_id,
            include_deleted: self.include_deleted,
            keep_stats: self.keep_stats,
        }
    }

    /// The reading these settings ask for: row lineage from the first row ID, and the
    /// other settings as given; no filters.
    pub fn reader_builder(&self) -> (r: ManifestReaderBuilder)
        ensures
            r.first_row_id == Some(self.first_row_id),
            r.include_deleted == self.include_deleted,
            r.keep_stats == self.keep_stats,
            r.case_sensitive,
            r.partition_filter is None,
            r.row_filter is None,
            r.partition_set is None,
            r.metrics_evaluator is None,
    {
        ManifestReaderBuilder::new().first_row_id(self.first_row_id).include_deleted(self.include_deleted).keep_stats(
            self.keep_stats,
        )
    }
}

/// The plain record of a manifest entry handed to Java.
#[derive(Debug)]
pub struct ManifestEntryData {
    pub status: i32,
    pub snapshot_id: Option<i64>,
    pub data_sequence_number: Option<i64>,
    pub file_sequence_number: Option<i64>,
    pub file_path: String,
    pub file_format: String,
    pub spec_id: i32,
    pub record_count: i64,
    pub file_size_in_bytes: i64,
    pub first_row_id: Option<i64>,
    pub content: i32,
}

/// Whether `d` is the record of entry `e`: its header, and the file's path, format,
/// spec, counts, first row ID and content, with status and content by their ids.
pub open spec fn records_entry<F: ContentFile>(d: ManifestEntryData, e: ManifestEntry<F>) -> bool {
    &&& d.status == status_id(e@.status)
    &&& d.snapshot_id == e@.snapshot_id
    &&& d.data_sequence_number == e@.data_sequence_number
    &&& d.file_sequence_number == e@.file_sequence_number
    &&& d.file_path@ == e.entry_file().record().file_path
    &&& d.file_format@ == format_debug_name(e.entry_file().record().file_format)
    &&& d.spec_id == e.entry_file().record().spec_id
    &&& d.record_count == e.entry_file().record().record_count
    &&& d.file_size_in_bytes == e.entry_file().record().file_size_in_bytes
    &&& d.first_row_id == e.entry_file().record().first_row_id
    &&& d.content == content_id(e.entry_file().kind())
}

/// The record of a manifest entry.
pub fn entry_data_of<F: ContentFile>(e: &ManifestEntry<F>) -> (r: ManifestEntryData)
    ensures
        records_entry(r, *e),
{
    let f = e.file();
    ManifestEntryData {
        status: e.status().id(),
        snapshot_id: e.snapshot_id(),
        data_sequence_number: e.data_sequence_number(),
        file_sequence_number: e.file_sequence_number(),
        file_path: owned(f.file_path()),
        file_format: format_debug_string(f.file_format()),
        spec_id: f.spec_id(),
        record_count: f.record_count(),
        file_size_in_bytes: f.file_size_in_bytes(),
        first_row_id: f.first_row_id(),
        content: f.content().id(),
    }
}

/// The records of a list of manifest entries, in order.
pub fn entries_data<F: ContentFile>(entries: &Vec<ManifestEntry<F>>) -> (r: Vec<ManifestEntryData>)
    ensures
        r@.len() == entries@.len(),
        forall|i: int| 0 <= i < entries@.len() ==> records_entry(#[trigger] r@[i], entries@[i]),
{
    let mut out: Vec<ManifestEntryData> = Vec::new();
    let mut i: usize = 0;
    while i < entries.len()
        invariant
            i <= entries.len(),
            out@.len() == i,
            forall|k: int| 0 <= k < i ==> records_entry(#[trigger] out@[k], entries@[k]),
        decreases entries.len() - i,
    {
        out.push(entry_data_of(&entries[i]));
        i = i + 1;
    }
    out
}

/// The manifests and parallelism a Java manifest group is built from.
#[derive(Debug)]
pub struct ManifestGroupConfig {
    pub paths: Vec<String>,
    pub parallelism: usize,
}

impl ManifestGroupConfig {
    /// A group with no manifests that reads on `parallelism` threads, or on as many
    /// threads as there are CPUs when that is not positive.
    pub fn new(parallelism: i32) -> (r: ManifestGroupConfig)
        ensures
            r.paths@.len() == 0,
            parallelism > 0 ==> r.parallelism == parallelism,
            parallelism <= 0 ==> r.parallelism >= 1,
    {
        let threads = if parallelism > 0 {
            parallelism as usize
        } else {
            cpu_count()
        };
        ManifestGroupConfig { paths: Vec::new(), parallelism: threads }
    }

    /// Adds a data manifest by its path.
    pub fn add_manifest(&mut self, path: String)
        ensures
            final(self).paths@ == old(self).paths@.push(path),
            final(self).parallelism == old(self).parallelism,
    {
        self.paths.push(path);
    }

    /// The group of the data manifests at the paths, in order, read on the configured
    /// number of threads.
    pub fn group(&self) -> (r: ManifestGroup)
        ensures
            r.manifests@.len() == self.paths@.len(),
            forall|i: int|
                0 <= i < self.paths@.len() ==> (#[trigger] r.manifests@[i]).path@ == self.paths@[i]@
                    && r.manifests@[i].content == ManifestContent::Data,
            r.parallelism == Some(self.parallelism),
            !r.include_deleted,
            r.keep_stats,
            r.min_sequence_number is None,
    {
        let mut builder = ManifestGroup::builder();
        let mut i: usize = 0;
        while i < self.paths.len()
            invariant
                i <= self.paths.len(),
                builder.manifests@.len() == i,
                forall|k: int|
                    0 <= k < i ==> (#[trigger] builder.manifests@[k]).path@ == self.paths@[k]@
                        && builder.manifests@[k].content == ManifestContent::Data,
                builder.parallelism is None,
                !builder.include_deleted,
                builder.keep_stats,
                builder.min_sequence_number is None,
            decreases self.paths.len() - i,
        {
            builder = builder.add_manifest(ManifestFile::data(copy_string(&self.paths[i])));
            i = i + 1;
        }
        builder.parallelism(self.parallelism).build()
    }
}

} // verus!
