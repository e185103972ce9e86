//! Reading manifests: their metadata, and the decisions taken on each entry as it is
//! read (skipping deleted entries, partition and metrics filtering, row lineage,
//! dropping statistics), with counts of what was skipped.
use vstd::prelude::*;
use crate::error::Error;
use crate::text::{str_eq, parse_i32, parse_i32_value};
use crate::expr::evaluator::{BoundExpressionTree, TreeView, tree_holds};
use crate::types::PartitionValueView;
use super::content_file::{ContentFile, ContentFileView, DataFile, DeleteFile, without_stats, bound_bytes};
use super::entry::{DataManifestEntry, DeleteManifestEntry, ManifestEntry, RawManifestEntry, Status, raw_header};
use super::filter::{
    FileMetrics, FileMetricsView, InclusiveMetricsEvaluator, MetricsFilterView, PartitionEvaluator, PartitionSet,
    metrics_may_match, partition_row, set_holds,
};
use super::avro::{AvroValue, RawEntryView, entry_of, raw_view};
use super::avro_file::{avro_file_of, decode_avro_file, header_map, same_values};

verus! {

broadcast use vstd::std_specs::hash::group_hash_axioms,
    super::content_file::lemma_data_file_record,
    super::content_file::lemma_delete_file_record;

/// What the files of a manifest hold.
#[derive(Debug, Clone, Copy, PartialEq, Eq, Structural)]
pub enum ManifestContent {
    /// Data files
    Data,
    /// Delete files
    Deletes,
}

/// The metadata of a manifest, from its Avro file header.
#[derive(Debug)]
pub struct ManifestMetadata {
    /// Schema JSON
    pub schema: Option<String>,
    /// Partition spec JSON
    pub partition_spec: Option<String>,
    /// Partition spec ID
    pub partition_spec_id: Option<i32>,
    /// Format version
    pub format_version: Option<i32>,
    /// Content type (data or deletes)
    pub content: ManifestContent,
}

impl Default for ManifestMetadata {
    fn default() -> (r: ManifestMetadata)
        ensures
            r.schema is None,
            r.partition_spec is None,
            r.partition_spec_id is None,
            r.format_version is None,
            r.content == ManifestContent::Data,
    {
        ManifestMetadata {
            schema: None,
            partition_spec: None,
            partition_spec_id: None,
            format_version: None,
            content: ManifestContent::Data,
        }
    }
}

/// The text `String::from_utf8` decodes from these bytes, `None` when they are not
/// UTF-8.
pub uninterp spec fn utf8_text(bytes: Seq<u8>) -> Option<Seq<char>>;

/// Calls `String::from_utf8` on a copy of the bytes; the result is named
/// `utf8_text`, a function of the bytes alone (UTF-8 validation and decoding are not
/// restated here).
#[verifier::external_body]
fn decode_utf8(bytes: &[u8]) -> (r: Option<String>)
    ensures
        match r {
            Some(s) => utf8_text(bytes@) == Some(s@),
            None => utf8_text(bytes@) is None,
        },
{
    String::from_utf8(bytes.to_vec()).ok()
}

/// The bytes stored under `key` in a header's metadata (its first entry).
pub open spec fn header_value(meta: Seq<(Seq<char>, Seq<u8>)>, key: Seq<char>) -> Option<Seq<u8>>
    decreases meta.len(),
{
    if meta.len() == 0 {
        None
    } else if meta[0].0 == key {
        Some(meta[0].1)
    } else {
        header_value(meta.drop_first(), key)
    }
}

/// The text stored under `key`, when it is UTF-8.
pub open spec fn header_text(meta: Seq<(Seq<char>, Seq<u8>)>, key: Seq<char>) -> Option<Seq<char>> {
    match header_value(meta, key) {
        Some(b) => utf8_text(b),
        None => None,
    }
}

/// The number stored under `key`, when it is a decimal `int`.
pub open spec fn header_number(meta: Seq<(Seq<char>, Seq<u8>)>, key: Seq<char>) -> Option<i32> {
    match header_text(meta, key) {
        Some(t) => parse_i32_value(t),
        None => None,
    }
}

/// The entries of a header's metadata.
pub open spec fn header_entries(meta: Seq<(String, Vec<u8>)>) -> Seq<(Seq<char>, Seq<u8>)> {
    Seq::new(meta.len(), |i: int| (meta[i].0@, meta[i].1@))
}

fn find_header_value<'a>(meta: &'a Vec<(String, Vec<u8>)>, key: &str) -> (r: Option<&'a Vec<u8>>)
    ensures
        match r {
            Some(b) => header_value(header_entries(meta@), key@) == Some(b@),
            None => header_value(header_entries(meta@), key@) is None,
        },
{
    let ghost es = header_entries(meta@);
    let mut i: usize = 0;
    assert(es.skip(0) =~= es);
    while i < meta.len()
        invariant
            i <= meta.len(),
            es == header_entries(meta@),
            header_value(es, key@) == header_value(es.skip(i as int), key@),
        decreases meta.len() - i,
    {
        assert(es.skip(i as int)[0] == es[i as int]);
        if str_eq(meta[i].0.as_str(), key) {
            return Some(&meta[i].1);
        }
        assert(es.skip(i as int).drop_first() =~= es.skip(i + 1));
        i = i + 1;
    }
    assert(es.skip(i as int) =~= Seq::<(Seq<char>, Seq<u8>)>::empty());
    None
}

fn find_header_text(meta: &Vec<(String, Vec<u8>)>, key: &str) -> (r: Option<String>)
    ensures
        match r {
            Some(s) => header_text(header_entries(meta@), key@) == Some(s@),
            None => header_text(header_entries(meta@), key@) is None,
        },
{
    match find_header_value(meta, key) {
        Some(b) => decode_utf8(b.as_slice()),
        None => None,
    }
}

fn find_header_number(meta: &Vec<(String, Vec<u8>)>, key: &str) -> (r: Option<i32>)
    ensures
        r == header_number(header_entries(meta@), key@),
{
    match find_header_text(meta, key) {
        Some(s) => parse_i32(s.as_str()),
        None => None,
    }
}

impl ManifestMetadata {
    /// The metadata a manifest's header holds: the schema, partition spec, spec id,
    /// format version and content, each read when present and well formed; content
    /// is `deletes` or else data.
    pub fn from_header(meta: &Vec<(String, Vec<u8>)>) -> (r: ManifestMetadata)
        ensures
            ({
                let es = header_entries(meta@);
                &&& match r.schema {
                    Some(s) => header_text(es, "schema"@) == Some(s@),
                    None => header_text(es, "schema"@) is None,
                }
                &&& match r.partition_spec {
                    Some(s) => header_text(es, "partition-spec"@) == Some(s@),
                    None => header_text(es, "partition-spec"@) is None,
                }
                &&& r.partition_spec_id == header_number(es, "partition-spec-id"@)
                &&& r.format_version == header_number(es, "format-version"@)
                &&& r.content == (if header_text(es, "content"@) == Some("deletes"@) {
                    ManifestContent::Deletes
                } else {
                    ManifestContent::Data
                })
            }),
    {
        let schema = find_header_text(meta, "schema");
        let partition_spec = find_header_text(meta, "partition-spec");
        let partition_spec_id = find_header_number(meta, "partition-spec-id");
        let format_version = find_header_number(meta, "format-version");
        let content = match find_header_text(meta, "content") {
            Some(s) => if str_eq(s.as_str(), "deletes") {
                ManifestContent::Deletes
            } else {
                ManifestContent::Data
            },
            None => ManifestContent::Data,
        };
        ManifestMetadata { schema, partition_spec, partition_spec_id, format_version, content }
    }
}

/// Counts of what a reading skipped.
#[derive(Debug, Clone, Copy, PartialEq, Eq, Structural)]
pub struct ManifestReadStats {
    /// Total entries processed
    pub total_entries: u64,
    /// Entries skipped by partition filter
    pub skipped_by_partition: u64,
    /// Entries skipped by metrics filter
    pub skipped_by_metrics: u64,
    /// Entries skipped by partition set filter
    pub skipped_by_partition_set: u64,
    /// Entries returned
    pub returned_entries: u64,
}

impl Default for ManifestReadStats {
    fn default() -> (r: ManifestReadStats)
        ensures
            r == (ManifestReadStats {
                total_entries: 0,
                skipped_by_partition: 0,
                skipped_by_metrics: 0,
                skipped_by_partition_set: 0,
                returned_entries: 0,
            }),
    {
        ManifestReadStats {
            total_entries: 0,
            skipped_by_partition: 0,
            skipped_by_metrics: 0,
            skipped_by_partition_set: 0,
            returned_entries: 0,
        }
    }
}

/// The statistics filters test a file's statistics by: the counts and bounds it
/// records, empty where it records none.
pub open spec fn metrics_of(f: ContentFileView) -> FileMetricsView {
    FileMetricsView {
        record_count: f.record_count,
        null_counts: match f.null_value_counts {
            Some(m) => m,
            None => Map::empty(),
        },
        lower: match f.lower_bounds {
            Some(m) => m,
            None => Map::empty(),
        },
        upper: match f.upper_bounds {
            Some(m) => m,
            None => Map::empty(),
        },
        nan_counts: match f.nan_value_counts {
            Some(m) => m,
            None => Map::empty(),
        },
    }
}

/// The statistics of a file.
pub fn create_file_metrics<F: ContentFile>(file: &F) -> (r: FileMetrics)
    ensures
        r@ == metrics_of(file.record()),
{
    let mut metrics = FileMetrics::new(file.record_count());
    match file.null_value_counts() {
        Some(m) => {
            metrics.null_value_counts = m.clone();
        },
        None => {},
    }
    match file.lower_bounds() {
        Some(m) => {
            metrics.lower_bounds = m.clone();
        },
        None => {},
    }
    match file.upper_bounds() {
        Some(m) => {
            metrics.upper_bounds = m.clone();
        },
        None => {},
    }
    match file.nan_value_counts() {
        Some(m) => {
            metrics.nan_value_counts = m.clone();
        },
        None => {},
    }
    metrics
}

/// Builds the reading of a manifest.
#[derive(Debug)]
pub struct ManifestReaderBuilder {
    /// First row ID for row lineage inheritance
    pub first_row_id: Option<i64>,
    /// Whether to include deleted entries
    pub include_deleted: bool,
    /// Whether to keep statistics
    pub keep_stats: bool,
    /// Partition filter expression
    pub partition_filter: Option<BoundExpressionTree>,
    /// Row filter expression
    pub row_filter: Option<BoundExpressionTree>,
    /// Partition set filter
    pub partition_set: Option<PartitionSet>,
    /// Metrics evaluator
    pub metrics_evaluator: Option<InclusiveMetricsEvaluator>,
    /// Case sensitivity of expression evaluation
    pub case_sensitive: bool,
}

impl Default for ManifestReaderBuilder {
    fn default() -> (r: ManifestReaderBuilder)
        ensures
            r.first_row_id is None,
            !r.include_deleted,
            r.keep_stats,
            r.partition_filter is None,
            r.row_filter is None,
            r.partition_set is None,
            r.metrics_evaluator is None,
            r.case_sensitive,
    {
        ManifestReaderBuilder::new()
    }
}

/// What a reading holds besides its counts.
pub struct ReadSettings {
    pub content: ManifestContent,
    pub first_row_id: Option<i64>,
    pub include_deleted: bool,
    pub keep_stats: bool,
    pub partition_filter: TreeView,
    pub metrics_filters: Seq<MetricsFilterView>,
    pub partition_set: Option<Map<i32, Seq<Seq<PartitionValueView>>>>,
    pub case_sensitive: bool,
}

/// The settings a builder reads a manifest of the given content with: no partition
/// filter accepts every partition, no metrics evaluator every file.
pub open spec fn builder_settings(b: ManifestReaderBuilder, content: ManifestContent) -> ReadSettings {
    ReadSettings {
        content,
        first_row_id: b.first_row_id,
        include_deleted: b.include_deleted,
        keep_stats: b.keep_stats,
        partition_filter: match b.partition_filter {
            Some(e) => e@,
            None => TreeView::True,
        },
        metrics_filters: match b.metrics_evaluator {
            Some(m) => m@,
            None => Seq::empty(),
        },
        partition_set: match b.partition_set {
            Some(s) => Some(s@),
            None => None,
        },
        case_sensitive: b.case_sensitive,
    }
}

impl ManifestReaderBuilder {
    /// Settings that read every live entry and keep statistics.
    pub fn new() -> (r: ManifestReaderBuilder)
        ensures
            r.first_row_id is None,
            !r.include_deleted,
            r.keep_stats,
            r.partition_filter is None,
            r.row_filter is None,
            r.partition_set is None,
            r.metrics_evaluator is None,
            r.case_sensitive,
    {
        ManifestReaderBuilder {
            first_row_id: None,
            include_deleted: false,
            keep_stats: true,
            partition_filter: None,
            row_filter: None,
            partition_set: None,
            metrics_evaluator: None,
            case_sensitive: true,
        }
    }

    /// Sets the first row ID for row lineage.
    pub fn first_row_id(self, id: i64) -> (r: ManifestReaderBuilder)
        ensures
            r == (ManifestReaderBuilder { first_row_id: Some(id), ..self }),
    {
        ManifestReaderBuilder { first_row_id: Some(id), ..self }
    }

    /// Whether deleted entries are returned too.
    pub fn include_deleted(self, enabled: bool) -> (r: ManifestReaderBuilder)
        ensures
            r == (ManifestReaderBuilder { include_deleted: enabled, ..self }),
    {
        ManifestReaderBuilder { include_deleted: enabled, ..self }
    }

    /// Whether returned entries keep their statistics.
    pub fn keep_stats(self, keep: bool) -> (r: ManifestReaderBuilder)
        ensures
            r == (ManifestReaderBuilder { keep_stats: keep, ..self }),
    {
        ManifestReaderBuilder { keep_stats: keep, ..self }
    }

    /// Skips files whose partition the expression does not hold of.
    pub fn filter_partitions(self, expr: BoundExpressionTree) -> (r: ManifestReaderBuilder)
        ensures
            r == (ManifestReaderBuilder { partition_filter: Some(expr), ..self }),
    {
        ManifestReaderBuilder { partition_filter: Some(expr), ..self }
    }

    /// Sets the row filter.
    pub fn filter_rows(self, expr: BoundExpressionTree) -> (r: ManifestReaderBuilder)
        ensures
            r == (ManifestReaderBuilder { row_filter: Some(expr), ..self }),
    {
        ManifestReaderBuilder { row_filter: Some(expr), ..self }
    }

    /// Returns only files whose partition is in the set.
    pub fn filter_partition_set(self, partition_set: PartitionSet) -> (r: ManifestReaderBuilder)
        ensures
            r == (ManifestReaderBuilder { partition_set: Some(partition_set), ..self }),
    {
        ManifestReaderBuilder { partition_set: Some(partition_set), ..self }
    }

    /// Sets the metrics evaluator.
    pub fn metrics_evaluator(self, evaluator: InclusiveMetricsEvaluator) -> (r: ManifestReaderBuilder)
        ensures
            r == (ManifestReaderBuilder { metrics_evaluator: Some(evaluator), ..self }),
    {
        ManifestReaderBuilder { metrics_evaluator: Some(evaluator), ..self }
    }

    /// Sets case sensitivity.
    pub fn case_sensitive(self, case_sensitive: bool) -> (r: ManifestReaderBuilder)
        ensures
            r == (ManifestReaderBuilder { case_sensitive, ..self }),
    {
        ManifestReaderBuilder { case_sensitive, ..self }
    }

    /// The reading of a manifest with the given metadata, with nothing read yet: no
    /// partition filter accepts every partition, no metrics evaluator every file, and
    /// row IDs start at the first row ID (or zero).
    pub fn start(self, metadata: ManifestMetadata) -> (r: ManifestReadState)
        ensures
            r.wf(),
            r.metadata_of() == metadata,
            r.settings() == builder_settings(self, metadata.content),
            r.current_row() == match self.first_row_id {
                Some(i) => i,
                None => 0,
            },
            r.counts() == (ReadCounts { total: 0, by_partition: 0, by_metrics: 0, by_partition_set: 0 }),
    {
        let partition_evaluator = match self.partition_filter {
            Some(e) => PartitionEvaluator::new(e),
            None => PartitionEvaluator::always_true(),
        };
        let metrics_evaluator = match self.metrics_evaluator {
            Some(m) => m,
            None => InclusiveMetricsEvaluator::always_true(),
        };
        let current_row_id = match self.first_row_id {
            Some(i) => i,
            None => 0,
        };
        ManifestReadState {
            metadata,
            first_row_id: self.first_row_id,
            include_deleted: self.include_deleted,
            keep_stats: self.keep_stats,
            current_row_id,
            partition_evaluator,
            metrics_evaluator,
            partition_set: self.partition_set,
            case_sensitive: self.case_sensitive,
            total_entries: 0,
            skipped_by_partition: 0,
            skipped_by_metrics: 0,
            skipped_by_partition_set: 0,
        }
    }
}

/// The reading of a manifest, entry by entry.
#[derive(Debug)]
pub struct ManifestReadState {
    metadata: ManifestMetadata,
    first_row_id: Option<i64>,
    include_deleted: bool,
    keep_stats: bool,
    current_row_id: i64,
    partition_evaluator: PartitionEvaluator,
    metrics_evaluator: InclusiveMetricsEvaluator,
    partition_set: Option<PartitionSet>,
    case_sensitive: bool,
    total_entries: u64,
    skipped_by_partition: u64,
    skipped_by_metrics: u64,
    skipped_by_partition_set: u64,
}

/// Why an entry was skipped, if it was.
pub enum Verdict {
    Kept,
    SkippedByPartition,
    SkippedByPartitionSet,
    SkippedByMetrics,
}

/// Which filter, tried in order (partition expression, partition set, statistics),
/// skips a file.
pub open spec fn verdict(s: ReadSettings, f: ContentFileView) -> Verdict {
    if !tree_holds(s.partition_filter, partition_row(f.partition)) {
        Verdict::SkippedByPartition
    } else if (s.partition_set matches Some(set) && !set_holds(set, f.spec_id, f.partition)) {
        Verdict::SkippedByPartitionSet
    } else if !metrics_may_match(s.metrics_filters, metrics_of(f)) {
        Verdict::SkippedByMetrics
    } else {
        Verdict::Kept
    }
}

/// The counts of a reading: entries read, and skipped by each filter.
pub struct ReadCounts {
    pub total: int,
    pub by_partition: int,
    pub by_metrics: int,
    pub by_partition_set: int,
}

/// The counts after one more entry, skipped as the verdict says.
pub open spec fn count_verdict(c: ReadCounts, v: Verdict) -> ReadCounts {
    match v {
        Verdict::Kept => c,
        Verdict::SkippedByPartition => ReadCounts { by_partition: c.by_partition + 1, ..c },
        Verdict::SkippedByPartitionSet => ReadCounts { by_partition_set: c.by_partition_set + 1, ..c },
        Verdict::SkippedByMetrics => ReadCounts { by_metrics: c.by_metrics + 1, ..c },
    }
}

/// The counts after one more entry read.
pub open spec fn count_entry(c: ReadCounts) -> ReadCounts {
    ReadCounts { total: c.total + 1, ..c }
}

/// Whether an entry with this numeric status is returned: a deleted one only when
/// deleted entries are asked for.
pub open spec fn status_kept(include_deleted: bool, status: i32) -> bool {
    include_deleted || status != 2
}

impl ManifestReadState {
    /// The counts hold together: no more entries skipped than read.
    pub closed spec fn wf(&self) -> bool {
        self.skipped_by_partition + self.skipped_by_metrics + self.skipped_by_partition_set <= self.total_entries
    }

    /// The metadata of the manifest.
    pub closed spec fn metadata_of(&self) -> ManifestMetadata {
        self.metadata
    }

    /// The settings of the reading.
    pub closed spec fn settings(&self) -> ReadSettings {
        ReadSettings {
            content: self.metadata.content,
            first_row_id: self.first_row_id,
            include_deleted: self.include_deleted,
            keep_stats: self.keep_stats,
            partition_filter: self.partition_evaluator@,
            metrics_filters: self.metrics_evaluator@,
            partition_set: match self.partition_set {
                Some(s) => Some(s@),
                None => None,
            },
            case_sensitive: self.case_sensitive,
        }
    }

    /// The next row ID to hand out.
    pub closed spec fn current_row(&self) -> i64 {
        self.current_row_id
    }

    /// The counts so far.
    pub closed spec fn counts(&self) -> ReadCounts {
        ReadCounts {
            total: self.total_entries as int,
            by_partition: self.skipped_by_partition as int,
            by_metrics: self.skipped_by_metrics as int,
            by_partition_set: self.skipped_by_partition_set as int,
        }
    }

    /// The metadata.
    pub fn metadata(&self) -> (r: &ManifestMetadata)
        ensures
            *r == self.metadata_of(),
    {
        &self.metadata
    }

    /// What the manifest's files hold.
    pub fn content(&self) -> (r: ManifestContent)
        ensures
            r == self.settings().content,
    {
        self.metadata.content
    }

    /// Whether the manifest lists data files.
    pub fn is_data_manifest(&self) -> (r: bool)
        ensures
            r == (self.settings().content == ManifestContent::Data),
    {
        self.metadata.content == ManifestContent::Data
    }

    /// Whether the manifest lists delete files.
    pub fn is_delete_manifest(&self) -> (r: bool)
        ensures
            r == (self.settings().content == ManifestContent::Deletes),
    {
        self.metadata.content == ManifestContent::Deletes
    }

    /// The next row ID to hand out.
    pub fn current_row_id(&self) -> (r: i64)
        ensures
            r == self.current_row(),
    {
        self.current_row_id
    }

    /// The counts so far.
    pub fn stats(&self) -> (r: ManifestReadStats)
        requires
            self.wf(),
        ensures
            r.total_entries == self.counts().total,
            r.skipped_by_partition == self.counts().by_partition,
            r.skipped_by_metrics == self.counts().by_metrics,
            r.skipped_by_partition_set == self.counts().by_partition_set,
            r.returned_entries == self.counts().total - self.counts().by_partition - self.counts().by_metrics
                - self.counts().by_partition_set,
    {
        ManifestReadStats {
            total_entries: self.total_entries,
            skipped_by_partition: self.skipped_by_partition,
            skipped_by_metrics: self.skipped_by_metrics,
            skipped_by_partition_set: self.skipped_by_partition_set,
            returned_entries: self.total_entries - self.skipped_by_partition - self.skipped_by_metrics
                - self.skipped_by_partition_set,
        }
    }

    /// Checks that data entries can be read from this manifest.
    pub fn check_data_manifest(&self) -> (r: Result<(), Error>)
        ensures
            r is Ok <==> self.settings().content == ManifestContent::Data,
            r is Err ==> (r matches Err(Error::InvalidData { message }) && message@
                == "Cannot read data entries from a delete manifest"@),
    {
        if self.metadata.content == ManifestContent::Deletes {
            return Err(Error::invalid_data("Cannot read data entries from a delete manifest"));
        }
        Ok(())
    }

    /// Checks that delete entries can be read from this manifest.
    pub fn check_delete_manifest(&self) -> (r: Result<(), Error>)
        ensures
            r is Ok <==> self.settings().content == ManifestContent::Deletes,
            r is Err ==> (r matches Err(Error::InvalidData { message }) && message@
                == "Cannot read delete entries from a data manifest"@),
    {
        if self.metadata.content == ManifestContent::Data {
            return Err(Error::invalid_data("Cannot read delete entries from a data manifest"));
        }
        Ok(())
    }

    /// Decodes the next entry and counts it; an entry of a deleted file comes back
    /// only when deleted entries are asked for.
    pub fn begin_entry(&mut self, value: &AvroValue) -> (r: Result<Option<RawManifestEntry>, Error>)
        requires
            old(self).wf(),
            old(self).counts().total < u64::MAX,
        ensures
            final(self).wf(),
            final(self).settings() == old(self).settings(),
            final(self).metadata_of() == old(self).metadata_of(),
            final(self).current_row() == old(self).current_row(),
            match entry_of(*value) {
                Err(m) => r matches Err(Error::InvalidData { message }) && message@ == m && final(self).counts()
                    == old(self).counts(),
                Ok(e) => final(self).counts() == count_entry(old(self).counts()) && if status_kept(
                    old(self).settings().include_deleted,
                    e.status,
                ) {
                    r matches Ok(Some(raw)) && raw_view(raw) == e
                } else {
                    r matches Ok(None)
                },
            },
    {
        let raw = match super::avro::parse_manifest_entry(value) {
            Ok(raw) => raw,
            Err(e) => {
                return Err(e);
            },
        };
        self.total_entries = self.total_entries + 1;
        if !self.include_deleted && raw.status == 2 {
            return Ok(None);
        }
        Ok(Some(raw))
    }

    /// Tries the filters on a file, counting a skip under the first that fails.
    fn judge<F: ContentFile>(&mut self, file: &F) -> (r: bool)
        requires
            old(self).wf(),
            old(self).total_entries > old(self).skipped_by_partition + old(self).skipped_by_metrics
                + old(self).skipped_by_partition_set,
        ensures
            final(self).wf(),
            final(self).settings() == old(self).settings(),
            final(self).metadata_of() == old(self).metadata_of(),
            final(self).current_row() == old(self).current_row(),
            final(self).counts() == count_verdict(old(self).counts(), verdict(old(self).settings(), file.record())),
            r == (verdict(old(self).settings(), file.record()) is Kept),
    {
        if !self.partition_evaluator.eval(file.partition()) {
            self.skipped_by_partition = self.skipped_by_partition + 1;
            return false;
        }
        match &self.partition_set {
            Some(set) => {
                if !set.contains(file.spec_id(), file.partition()) {
                    self.skipped_by_partition_set = self.skipped_by_partition_set + 1;
                    return false;
                }
            },
            None => {},
        }
        let metrics = create_file_metrics(file);
        if !self.metrics_evaluator.eval(&metrics) {
            self.skipped_by_metrics = self.skipped_by_metrics + 1;
            return false;
        }
        true
    }

    /// Decodes the next data entry and applies the filters: what comes back is the
    /// entry of a kept file, and each skip is counted under the filter that made it.
    pub fn read_data_value(&mut self, value: &AvroValue) -> (r: Result<Option<DataManifestEntry>, Error>)
        requires
            old(self).wf(),
            old(self).counts().total < u64::MAX,
        ensures
            final(self).wf(),
            final(self).settings() == old(self).settings(),
            final(self).metadata_of() == old(self).metadata_of(),
            final(self).current_row() == old(self).current_row(),
            match entry_of(*value) {
                Err(m) => r matches Err(Error::InvalidData { message }) && message@ == m && final(self).counts()
                    == old(self).counts(),
                Ok(e) => if !status_kept(old(self).settings().include_deleted, e.status) {
                    r matches Ok(None) && final(self).counts() == count_entry(old(self).counts())
                } else {
                    let v = verdict(old(self).settings(), e.file);
                    &&& final(self).counts() == count_verdict(count_entry(old(self).counts()), v)
                    &&& if v is Kept {
                        r matches Ok(Some(entry)) && entry@ == raw_header_of(e) && entry.entry_file()@ == e.file
                    } else {
                        r matches Ok(None)
                    }
                },
            },
    {
        let raw = match self.begin_entry(value) {
            Ok(Some(raw)) => raw,
            Ok(None) => {
                return Ok(None);
            },
            Err(e) => {
                return Err(e);
            },
        };
        let entry = raw.into_data_entry();
        if !self.judge(entry.file()) {
            return Ok(None);
        }
        Ok(Some(entry))
    }

    /// Decodes the next delete entry and applies the filters, as for data entries.
    pub fn read_delete_value(&mut self, value: &AvroValue) -> (r: Result<Option<DeleteManifestEntry>, Error>)
        requires
            old(self).wf(),
            old(self).counts().total < u64::MAX,
        ensures
            final(self).wf(),
            final(self).settings() == old(self).settings(),
            final(self).metadata_of() == old(self).metadata_of(),
            final(self).current_row() == old(self).current_row(),
            match entry_of(*value) {
                Err(m) => r matches Err(Error::InvalidData { message }) && message@ == m && final(self).counts()
                    == old(self).counts(),
                Ok(e) => if !status_kept(old(self).settings().include_deleted, e.status) {
                    r matches Ok(None) && final(self).counts() == count_entry(old(self).counts())
                } else {
                    let v = verdict(old(self).settings(), e.file);
                    &&& final(self).counts() == count_verdict(count_entry(old(self).counts()), v)
                    &&& if v is Kept {
                        r matches Ok(Some(entry)) && entry@ == raw_header_of(e) && entry.entry_file()@ == e.file
                    } else {
                        r matches Ok(None)
                    }
                },
            },
    {
        let raw = match self.begin_entry(value) {
            Ok(Some(raw)) => raw,
            Ok(None) => {
                return Ok(None);
            },
            Err(e) => {
                return Err(e);
            },
        };
        let entry = raw.into_delete_entry();
        if !self.judge(entry.file()) {
            return Ok(None);
        }
        Ok(Some(entry))
    }

    /// Finishes a data entry that is returned: with row lineage on, a file without a
    /// first row ID gets the next one and moves it on by its record count; without
    /// kept statistics, they are dropped.
    pub fn finish_data_entry(&mut self, entry: DataManifestEntry) -> (r: DataManifestEntry)
        requires
            lineage_fits(old(self).settings(), old(self).current_row(), entry.entry_file()@),
        ensures
            final(self).wf() == old(self).wf(),
            final(self).settings() == old(self).settings(),
            final(self).metadata_of() == old(self).metadata_of(),
            final(self).counts() == old(self).counts(),
            r@ == entry@,
            ({
                let f = entry.entry_file()@;
                let gets_id = old(self).settings().first_row_id is Some && f.first_row_id is None;
                let f1 = if gets_id {
                    ContentFileView { first_row_id: Some(old(self).current_row()), ..f }
                } else {
                    f
                };
                &&& final(self).current_row() == if gets_id {
                    (old(self).current_row() + f.record_count) as i64
                } else {
                    old(self).current_row()
                }
                &&& r.entry_file()@ == if old(self).settings().keep_stats {
                    f1
                } else {
                    without_stats(f1)
                }
            }),
    {
        let mut entry = entry;
        if self.first_row_id.is_some() && entry.file().first_row_id().is_none() {
            let id = self.current_row_id;
            entry.file_mut().set_first_row_id(Some(id));
            self.current_row_id = self.current_row_id + entry.file().record_count();
        }
        if !self.keep_stats {
            entry = entry.copy_without_stats();
        }
        entry
    }

    /// Finishes a delete entry that is returned: without kept statistics, they are
    /// dropped.
    pub fn finish_delete_entry(&self, entry: DeleteManifestEntry) -> (r: DeleteManifestEntry)
        ensures
            r@ == entry@,
            r.entry_file()@ == if self.settings().keep_stats {
                entry.entry_file()@
            } else {
                without_stats(entry.entry_file()@)
            },
    {
        if !self.keep_stats {
            entry.copy_without_stats()
        } else {
            entry
        }
    }
}

/// The header an entry gets from what was decoded.
pub open spec fn raw_header_of(e: RawEntryView) -> super::entry::EntryHeader {
    super::entry::EntryHeader {
        status: super::entry::decoded_status(e.status),
        snapshot_id: e.snapshot_id,
        data_sequence_number: e.data_sequence_number,
        file_sequence_number: e.file_sequence_number,
    }
}

/// Row lineage can hand a file its first row ID without the next ID leaving `i64`.
pub open spec fn lineage_fits(s: ReadSettings, current: i64, f: ContentFileView) -> bool {
    (s.first_row_id is Some && f.first_row_id is None) ==> i64::MIN <= current + f.record_count <= i64::MAX
}


// ---------------------------------------------------------------------------
// Reading a whole manifest
// ---------------------------------------------------------------------------

/// The bytes stored under `key` in a header's metadata map.
pub open spec fn map_value(h: Map<Seq<char>, Seq<u8>>, key: Seq<char>) -> Option<Seq<u8>> {
    if h.contains_key(key) {
        Some(h[key])
    } else {
        None
    }
}

/// The text stored under `key` in a header's metadata map, when it is UTF-8.
pub open spec fn map_text(h: Map<Seq<char>, Seq<u8>>, key: Seq<char>) -> Option<Seq<char>> {
    match map_value(h, key) {
        Some(b) => utf8_text(b),
        None => None,
    }
}

/// The number stored under `key` in a header's metadata map, when it is a decimal `int`.
pub open spec fn map_number(h: Map<Seq<char>, Seq<u8>>, key: Seq<char>) -> Option<i32> {
    match map_text(h, key) {
        Some(t) => parse_i32_value(t),
        None => None,
    }
}

/// What the files of a manifest with this header hold: deletes when its `content` says
/// `deletes`, data otherwise.
pub open spec fn map_content(h: Map<Seq<char>, Seq<u8>>) -> ManifestContent {
    if map_text(h, "content"@) == Some("deletes"@) {
        ManifestContent::Deletes
    } else {
        ManifestContent::Data
    }
}

/// Whether `m` is the metadata a header's metadata map holds.
pub open spec fn metadata_of_header(h: Map<Seq<char>, Seq<u8>>, m: ManifestMetadata) -> bool {
    &&& match m.schema {
        Some(s) => map_text(h, "schema"@) == Some(s@),
        None => map_text(h, "schema"@) is None,
    }
    &&& match m.partition_spec {
        Some(s) => map_text(h, "partition-spec"@) == Some(s@),
        None => map_text(h, "partition-spec"@) is None,
    }
    &&& m.partition_spec_id == map_number(h, "partition-spec-id"@)
    &&& m.format_version == map_number(h, "format-version"@)
    &&& m.content == map_content(h)
}

/// Looking a key up in a header's metadata finds what its map holds under the key.
proof fn lemma_header_lookup(meta: Seq<(Seq<char>, Seq<u8>)>, key: Seq<char>)
    ensures
        header_value(meta, key) == map_value(header_map(meta), key),
    decreases meta.len(),
{
    if meta.len() > 0 {
        lemma_header_lookup(meta.drop_first(), key);
    }
}

/// A manifest file decoded: its metadata, the entries' values decoded in order up to
/// the first that failed, and that failure's text.
#[derive(Debug)]
pub struct DecodedManifest {
    pub metadata: ManifestMetadata,
    pub values: Vec<AvroValue>,
    pub failure: Option<String>,
}

/// Decodes the bytes of a manifest file: an Avro error when its header does not read;
/// else its metadata, its entries' values and whether all of them decoded.
pub fn decode_manifest(bytes: &[u8]) -> (r: Result<DecodedManifest, Error>)
    ensures
        match avro_file_of(bytes@) {
            None => r matches Err(Error::Avro(_)),
            Some((h, vs, complete)) => r matches Ok(d) && metadata_of_header(h, d.metadata) && same_values(
                d.values@,
                vs,
            ) && (d.failure is None <==> complete),
        },
{
    match decode_avro_file(bytes) {
        Err(m) => Err(Error::Avro(m)),
        Ok((header, values, failure)) => {
            let metadata = ManifestMetadata::from_header(&header);
            proof {
                let es = header_entries(header@);
                lemma_header_lookup(es, "schema"@);
                lemma_header_lookup(es, "partition-spec"@);
                lemma_header_lookup(es, "partition-spec-id"@);
                lemma_header_lookup(es, "format-version"@);
                lemma_header_lookup(es, "content"@);
            }
            Ok(DecodedManifest { metadata, values, failure })
        },
    }
}

/// Where reading the entries so far has come to.
pub enum ReadOutcome {
    /// Reading goes on: the entries returned so far, each by its header and file, the
    /// next row ID and the counts.
    Going { entries: Seq<(super::entry::EntryHeader, ContentFileView)>, row: i64, counts: ReadCounts },
    /// An entry did not decode, with the message.
    Failed(Seq<char>),
    /// Handing the next file its first row ID would take the next row ID out of `i64`.
    Overflow,
}

/// Reading one more entry's value. An entry that does not decode stops the reading;
/// one of a deleted file is counted and left out unless deleted entries are asked
/// for; one the filters skip is counted under the filter that skipped it; one that is
/// kept gets, for data entries under row lineage and without a first row ID, the next
/// row ID, which moves on by its record count, and loses its statistics unless they
/// are kept.
pub open spec fn read_step(s: ReadSettings, o: ReadOutcome, v: AvroValue, data: bool) -> ReadOutcome {
    match o {
        ReadOutcome::Going { entries, row, counts } => match entry_of(v) {
            Err(m) => ReadOutcome::Failed(m),
            Ok(e) => {
                let c1 = count_entry(counts);
                if !status_kept(s.include_deleted, e.status) {
                    ReadOutcome::Going { entries, row, counts: c1 }
                } else {
                    let verdict = verdict(s, e.file);
                    let c2 = count_verdict(c1, verdict);
                    if !(verdict is Kept) {
                        ReadOutcome::Going { entries, row, counts: c2 }
                    } else {
                        let gets_id = data && s.first_row_id is Some && e.file.first_row_id is None;
                        let next = row + e.file.record_count;
                        if gets_id && !(i64::MIN <= next <= i64::MAX) {
                            ReadOutcome::Overflow
                        } else {
                            let f1 = if gets_id {
                                ContentFileView { first_row_id: Some(row), ..e.file }
                            } else {
                                e.file
                            };
                            let f2 = if s.keep_stats {
                                f1
                            } else {
                                without_stats(f1)
                            };
                            ReadOutcome::Going {
                                entries: entries.push((raw_header_of(e), f2)),
                                row: if gets_id {
                                    next as i64
                                } else {
                                    row
                                },
                                counts: c2,
                            }
                        }
                    }
                }
            },
        },
        _ => o,
    }
}

/// Reading the values in order, from the given next row ID and counts.
pub open spec fn read_values(s: ReadSettings, row: i64, counts: ReadCounts, vs: Seq<AvroValue>, data: bool) -> ReadOutcome
    decreases vs.len(),
{
    if vs.len() == 0 {
        ReadOutcome::Going { entries: Seq::empty(), row, counts }
    } else {
        read_step(s, read_values(s, row, counts, vs.drop_last(), data), vs.last(), data)
    }
}

/// Once reading stops, later values change nothing.
proof fn lemma_read_stops(s: ReadSettings, row: i64, counts: ReadCounts, vs: Seq<AvroValue>, n: int, data: bool)
    requires
        0 <= n <= vs.len(),
        !(read_values(s, row, counts, vs.take(n), data) is Going),
    ensures
        read_values(s, row, counts, vs, data) == read_values(s, row, counts, vs.take(n), data),
    decreases vs.len() - n,
{
    if n < vs.len() {
        assert(vs.take(n + 1).drop_last() =~= vs.take(n));
        lemma_read_stops(s, row, counts, vs, n + 1, data);
    } else {
        assert(vs.take(n) =~= vs);
    }
}

/// The headers and files of data entries.
pub open spec fn data_entry_views(es: Seq<DataManifestEntry>) -> Seq<(super::entry::EntryHeader, ContentFileView)> {
    Seq::new(es.len(), |i: int| (es[i]@, es[i].entry_file()@))
}

/// The headers and files of delete entries.
pub open spec fn delete_entry_views(es: Seq<DeleteManifestEntry>) -> Seq<(super::entry::EntryHeader, ContentFileView)> {
    Seq::new(es.len(), |i: int| (es[i]@, es[i].entry_file()@))
}

/// The text of an optional string.
pub open spec fn text_of(o: Option<String>) -> Option<Seq<char>> {
    match o {
        Some(s) => Some(s@),
        None => None,
    }
}

/// Whether `r` is what reading the data entries of a manifest gives: an error for a
/// delete manifest; the first entry that does not decode; `None` where row lineage
/// overflows; then, when a value failed to decode, that Avro error; else the entries.
pub open spec fn data_read_as(
    r: Option<Result<Vec<DataManifestEntry>, Error>>,
    s: ReadSettings,
    row: i64,
    counts: ReadCounts,
    vs: Seq<AvroValue>,
    failure: Option<Seq<char>>,
) -> bool {
    if s.content == ManifestContent::Deletes {
        r matches Some(Err(Error::InvalidData { message })) && message@ == "Cannot read data entries from a delete manifest"@
    } else {
        match read_values(s, row, counts, vs, true) {
            ReadOutcome::Failed(m) => r matches Some(Err(Error::InvalidData { message })) && message@ == m,
            ReadOutcome::Overflow => r is None,
            ReadOutcome::Going { entries, .. } => match failure {
                Some(m) => r matches Some(Err(Error::Avro(t))) && t@ == m,
                None => r matches Some(Ok(es)) && data_entry_views(es@) == entries,
            },
        }
    }
}

/// Whether `r` is what reading the delete entries of a manifest gives, as for data
/// entries but without row lineage, which cannot overflow.
pub open spec fn delete_read_as(
    r: Result<Vec<DeleteManifestEntry>, Error>,
    s: ReadSettings,
    row: i64,
    counts: ReadCounts,
    vs: Seq<AvroValue>,
    failure: Option<Seq<char>>,
) -> bool {
    if s.content == ManifestContent::Data {
        r matches Err(Error::InvalidData { message }) && message@ == "Cannot read delete entries from a data manifest"@
    } else {
        match read_values(s, row, counts, vs, false) {
            ReadOutcome::Failed(m) => r matches Err(Error::InvalidData { message }) && message@ == m,
            ReadOutcome::Overflow => false,
            ReadOutcome::Going { entries, .. } => match failure {
                Some(m) => r matches Err(Error::Avro(t)) && t@ == m,
                None => r matches Ok(es) && delete_entry_views(es@) == entries,
            },
        }
    }
}

/// Reading delete entries never overflows.
proof fn lemma_delete_reading_goes_on(s: ReadSettings, row: i64, counts: ReadCounts, vs: Seq<AvroValue>)
    ensures
        !(read_values(s, row, counts, vs, false) is Overflow),
    decreases vs.len(),
{
    if vs.len() > 0 {
        lemma_delete_reading_goes_on(s, row, counts, vs.drop_last());
    }
}

/// Reads the data entries of the values in order, or `None` where row lineage would
/// take the next row ID out of `i64`.
fn read_data_values(state: ManifestReadState, values: &Vec<AvroValue>, failure: Option<String>) -> (r: Option<
    Result<Vec<DataManifestEntry>, Error>,
>)
    requires
        state.wf(),
        state.counts().total + values.len() <= u64::MAX,
    ensures
        data_read_as(r, state.settings(), state.current_row(), state.counts(), values@, text_of(failure)),
{
    let mut st = state;
    let ghost s = st.settings();
    let ghost row0 = st.current_row();
    let ghost c0 = st.counts();
    if let Err(e) = st.check_data_manifest() {
        proof {
            reveal_strlit("Cannot read data entries from a delete manifest");
        }
        return Some(Err(e));
    }
    let mut out: Vec<DataManifestEntry> = Vec::new();
    let mut i: usize = 0;
    assert(values@.take(0) =~= Seq::<AvroValue>::empty());
    assert(data_entry_views(out@) =~= Seq::empty());
    while i < values.len()
        invariant
            i <= values.len(),
            st.wf(),
            st.settings() == s,
            s == state.settings(),
            row0 == state.current_row(),
            c0 == state.counts(),
            s.content == ManifestContent::Data,
            st.counts().total == c0.total + i,
            c0.total + values.len() <= u64::MAX,
            read_values(s, row0, c0, values@.take(i as int), true) == (ReadOutcome::Going {
                entries: data_entry_views(out@),
                row: st.current_row(),
                counts: st.counts(),
            }),
        decreases values.len() - i,
    {
        assert(values@.take(i + 1).drop_last() =~= values@.take(i as int));
        assert(values@.take(i + 1).last() == values@[i as int]);
        let ghost before = out@;
        match st.read_data_value(&values[i]) {
            Err(e) => {
                proof {
                    assert(entry_of(values@[i as int]) is Err);
                    assert(read_values(s, row0, c0, values@.take(i + 1), true) is Failed);
                    lemma_read_stops(s, row0, c0, values@, i + 1, true);
                }
                return Some(Err(e));
            },
            Ok(None) => {},
            Ok(Some(entry)) => {
                if st.first_row_id.is_some() && entry.file().first_row_id().is_none() {
                    if st.current_row_id().checked_add(entry.file().record_count()).is_none() {
                        proof {
                            assert(entry_of(values@[i as int]) is Ok);
                            assert(read_values(s, row0, c0, values@.take(i + 1), true) is Overflow);
                            lemma_read_stops(s, row0, c0, values@, i + 1, true);
                        }
                        return None;
                    }
                }
                let done = st.finish_data_entry(entry);
                out.push(done);
                assert(data_entry_views(out@) =~= data_entry_views(before).push((done@, done.entry_file()@)));
            },
        }
        i = i + 1;
    }
    assert(values@.take(values.len() as int) =~= values@);
    match failure {
        Some(m) => Some(Err(Error::Avro(m))),
        None => Some(Ok(out)),
    }
}

/// Reads the delete entries of the values in order.
fn read_delete_values(state: ManifestReadState, values: &Vec<AvroValue>, failure: Option<String>) -> (r: Result<
    Vec<DeleteManifestEntry>,
    Error,
>)
    requires
        state.wf(),
        state.counts().total + values.len() <= u64::MAX,
    ensures
        delete_read_as(r, state.settings(), state.current_row(), state.counts(), values@, text_of(failure)),
{
    let mut st = state;
    let ghost s = st.settings();
    let ghost row0 = st.current_row();
    let ghost c0 = st.counts();
    if let Err(e) = st.check_delete_manifest() {
        proof {
            reveal_strlit("Cannot read delete entries from a data manifest");
        }
        return Err(e);
    }
    let mut out: Vec<DeleteManifestEntry> = Vec::new();
    let mut i: usize = 0;
    assert(values@.take(0) =~= Seq::<AvroValue>::empty());
    assert(delete_entry_views(out@) =~= Seq::empty());
    while i < values.len()
        invariant
            i <= values.len(),
            st.wf(),
            st.settings() == s,
            s == state.settings(),
            row0 == state.current_row(),
            c0 == state.counts(),
            s.content == ManifestContent::Deletes,
            st.current_row() == row0,
            st.counts().total == c0.total + i,
            c0.total + values.len() <= u64::MAX,
            read_values(s, row0, c0, values@.take(i as int), false) == (ReadOutcome::Going {
                entries: delete_entry_views(out@),
                row: row0,
                counts: st.counts(),
            }),
        decreases values.len() - i,
    {
        assert(values@.take(i + 1).drop_last() =~= values@.take(i as int));
        assert(values@.take(i + 1).last() == values@[i as int]);
        let ghost before = out@;
        match st.read_delete_value(&values[i]) {
            Err(e) => {
                proof {
                    lemma_read_stops(s, row0, c0, values@, i + 1, false);
                }
                return Err(e);
            },
            Ok(None) => {},
            Ok(Some(entry)) => {
                let done = st.finish_delete_entry(entry);
                out.push(done);
                assert(delete_entry_views(out@) =~= delete_entry_views(before).push((done@, done.entry_file()@)));
            },
        }
        i = i + 1;
    }
    assert(values@.take(values.len() as int) =~= values@);
    match failure {
        Some(m) => Err(Error::Avro(m)),
        None => Ok(out),
    }
}

/// Reads the data entries of a manifest's values, in order, with the settings and
/// from the row ID and counts of the reading; `failure` is the text of the value that
/// failed to decode after these, if one did. The values must not make row lineage
/// take the next row ID out of `i64`.
pub fn read_data_entries_from_values(state: ManifestReadState, values: Vec<AvroValue>, failure: Option<String>) -> (r:
    Result<Vec<DataManifestEntry>, Error>)
    requires
        state.wf(),
        state.counts().total + values.len() <= u64::MAX,
        !(read_values(state.settings(), state.current_row(), state.counts(), values@, true) is Overflow),
    ensures
        data_read_as(Some(r), state.settings(), state.current_row(), state.counts(), values@, text_of(failure)),
{
    match read_data_values(state, &values, failure) {
        Some(r) => r,
        None => Err(Error::invalid_data("")),
    }
}

/// Reads the delete entries of a manifest's values, in order, as for data entries.
pub fn read_delete_entries_from_values(state: ManifestReadState, values: Vec<AvroValue>, failure: Option<String>) -> (r:
    Result<Vec<DeleteManifestEntry>, Error>)
    requires
        state.wf(),
        state.counts().total + values.len() <= u64::MAX,
    ensures
        delete_read_as(r, state.settings(), state.current_row(), state.counts(), values@, text_of(failure)),
{
    read_delete_values(state, &values, failure)
}

/// The counts of a reading that has read nothing.
pub open spec fn no_counts() -> ReadCounts {
    ReadCounts { total: 0, by_partition: 0, by_metrics: 0, by_partition_set: 0 }
}

/// The row ID a builder's reading starts from.
pub open spec fn start_row(b: ManifestReaderBuilder) -> i64 {
    match b.first_row_id {
        Some(i) => i,
        None => 0,
    }
}

/// Reads the data entries of the manifest file in `bytes` with the builder's
/// settings: an Avro error when its header does not read; else what reading its
/// decoded values gives (see `data_read_as`), the values being those `avro_file_of`
/// names but for the order of map entries. `None` exactly where row lineage would take
/// the next row ID out of `i64`.
pub fn read_data_entries_from_bytes(builder: ManifestReaderBuilder, bytes: &[u8]) -> (r: Option<
    Result<Vec<DataManifestEntry>, Error>,
>)
    ensures
        match avro_file_of(bytes@) {
            None => r matches Some(Err(Error::Avro(_))),
            Some((h, vs, complete)) => exists|values: Seq<AvroValue>, failure: Option<Seq<char>>|
                same_values(values, vs) && (failure is None <==> complete) && #[trigger] data_read_as(
                    r,
                    builder_settings(builder, map_content(h)),
                    start_row(builder),
                    no_counts(),
                    values,
                    failure,
                ),
        },
{
    let ghost b = builder;
    let decoded = match decode_manifest(bytes) {
        Ok(d) => d,
        Err(e) => {
            return Some(Err(e));
        },
    };
    let DecodedManifest { metadata, values, failure } = decoded;
    let state = builder.start(metadata);
    let ghost fv = text_of(failure);
    let r = read_data_values(state, &values, failure);
    assert(data_read_as(r, builder_settings(b, map_content((avro_file_of(bytes@)->0).0)), start_row(b), no_counts(), values@, fv));
    r
}

/// Reads the delete entries of the manifest file in `bytes` with the builder's
/// settings, as for data entries.
pub fn read_delete_entries_from_bytes(builder: ManifestReaderBuilder, bytes: &[u8]) -> (r: Result<
    Vec<DeleteManifestEntry>,
    Error,
>)
    ensures
        match avro_file_of(bytes@) {
            None => r matches Err(Error::Avro(_)),
            Some((h, vs, complete)) => exists|values: Seq<AvroValue>, failure: Option<Seq<char>>|
                same_values(values, vs) && (failure is None <==> complete) && #[trigger] delete_read_as(
                    r,
                    builder_settings(builder, map_content(h)),
                    start_row(builder),
                    no_counts(),
                    values,
                    failure,
                ),
        },
{
    let ghost b = builder;
    let decoded = match decode_manifest(bytes) {
        Ok(d) => d,
        Err(e) => {
            return Err(e);
        },
    };
    let DecodedManifest { metadata, values, failure } = decoded;
    let state = builder.start(metadata);
    let ghost fv = text_of(failure);
    let r = read_delete_values(state, &values, failure);
    assert(delete_read_as(r, builder_settings(b, map_content((avro_file_of(bytes@)->0).0)), start_row(b), no_counts(), values@, fv));
    r
}

} // verus!
