//! Groups of manifests read together: which manifests are read, the reading each
//! gets, how work is spread over workers, and how the readings are gathered.
use vstd::prelude::*;
use crate::error::Error;
use crate::text::copy_string;
use crate::expr::evaluator::BoundExpressionTree;
use super::filter::{InclusiveMetricsEvaluator, PartitionSet};
use super::reader::{ManifestContent, ManifestReaderBuilder};

verus! {

/// A manifest file and what its list entry records.
#[derive(Debug)]
pub struct ManifestFile {
    /// Path to the manifest file
    pub path: String,
    /// Content type (data or deletes)
    pub content: ManifestContent,
    /// First row ID for this manifest (for row lineage)
    pub first_row_id: Option<i64>,
    /// Number of added entries in manifest
    pub added_files_count: Option<i64>,
    /// Number of existing entries in manifest
    pub existing_files_count: Option<i64>,
    /// Number of deleted entries in manifest
    pub deleted_files_count: Option<i64>,
    /// Partition spec ID
    pub partition_spec_id: i32,
    /// Sequence number
    pub sequence_number: i64,
    /// Minimum sequence number of data files
    pub min_sequence_number: i64,
}

/// Whether a manifest whose files start at sequence number `min_in_file` may hold
/// files at or above the bound.
pub open spec fn may_match_sequence(min_in_file: i64, bound: Option<i64>) -> bool {
    match bound {
        Some(min_seq) => min_in_file >= min_seq,
        None => true,
    }
}

impl ManifestFile {
    /// A manifest of the given content with nothing else known.
    pub fn new(path: String, content: ManifestContent) -> (r: ManifestFile)
        ensures
            r.path@ == path@,
            r.content == content,
            r.first_row_id is None,
            r.added_files_count is None,
            r.existing_files_count is None,
            r.deleted_files_count is None,
            r.partition_spec_id == 0,
            r.sequence_number == 0,
            r.min_sequence_number == 0,
    {
        ManifestFile {
            path,
            content,
            first_row_id: None,
            added_files_count: None,
            existing_files_count: None,
            deleted_files_count: None,
            partition_spec_id: 0,
            sequence_number: 0,
            min_sequence_number: 0,
        }
    }

    /// A data manifest.
    pub fn data(path: String) -> (r: ManifestFile)
        ensures
            r.path@ == path@,
            r.content == ManifestContent::Data,
            r.first_row_id is None,
            r.added_files_count is None,
            r.existing_files_count is None,
            r.deleted_files_count is None,
            r.partition_spec_id == 0,
            r.sequence_number == 0,
            r.min_sequence_number == 0,
    {
        ManifestFile::new(path, ManifestContent::Data)
    }

    /// A delete manifest.
    pub fn deletes(path: String) -> (r: ManifestFile)
        ensures
            r.path@ == path@,
            r.content == ManifestContent::Deletes,
            r.first_row_id is None,
            r.added_files_count is None,
            r.existing_files_count is None,
            r.deleted_files_count is None,
            r.partition_spec_id == 0,
            r.sequence_number == 0,
            r.min_sequence_number == 0,
    {
        ManifestFile::new(path, ManifestContent::Deletes)
    }

    /// Sets the first row ID.
    pub fn with_first_row_id(self, id: i64) -> (r: ManifestFile)
        ensures
            r == (ManifestFile { first_row_id: Some(id), ..self }),
    {
        ManifestFile { first_row_id: Some(id), ..self }
    }

    /// Sets the file counts.
    pub fn with_counts(self, added: i64, existing: i64, deleted: i64) -> (r: ManifestFile)
        ensures
            r == (ManifestFile {
                added_files_count: Some(added),
                existing_files_count: Some(existing),
                deleted_files_count: Some(deleted),
                ..self
            }),
    {
        ManifestFile {
            added_files_count: Some(added),
            existing_files_count: Some(existing),
            deleted_files_count: Some(deleted),
            ..self
        }
    }

    /// Sets the partition spec ID.
    pub fn with_spec_id(self, spec_id: i32) -> (r: ManifestFile)
        ensures
            r == (ManifestFile { partition_spec_id: spec_id, ..self }),
    {
        ManifestFile { partition_spec_id: spec_id, ..self }
    }

    /// Sets the sequence numbers.
    pub fn with_sequence_numbers(self, seq: i64, min_seq: i64) -> (r: ManifestFile)
        ensures
            r == (ManifestFile { sequence_number: seq, min_sequence_number: min_seq, ..self }),
    {
        ManifestFile { sequence_number: seq, min_sequence_number: min_seq, ..self }
    }

    /// Whether the manifest may hold files at or above a minimum sequence number.
    pub fn might_contain_matching_files(&self, min_sequence_number: Option<i64>) -> (r: bool)
        ensures
            r == may_match_sequence(self.min_sequence_number, min_sequence_number),
    {
        match min_sequence_number {
            Some(min_seq) => self.min_sequence_number >= min_seq,
            None => true,
        }
    }

    /// A copy of this manifest file.
    pub fn duplicate(&self) -> (r: ManifestFile)
        ensures
            r.path@ == self.path@,
            r.content == self.content,
            r.first_row_id == self.first_row_id,
            r.added_files_count == self.added_files_count,
            r.existing_files_count == self.existing_files_count,
            r.deleted_files_count == self.deleted_files_count,
            r.partition_spec_id == self.partition_spec_id,
            r.sequence_number == self.sequence_number,
            r.min_sequence_number == self.min_sequence_number,
    {
        ManifestFile {
            path: copy_string(&self.path),
            content: self.content,
            first_row_id: self.first_row_id,
            added_files_count: self.added_files_count,
            existing_files_count: self.existing_files_count,
            deleted_files_count: self.deleted_files_count,
            partition_spec_id: self.partition_spec_id,
            sequence_number: self.sequence_number,
            min_sequence_number: self.min_sequence_number,
        }
    }
}

/// Builds a group of manifests.
#[derive(Debug)]
pub struct ManifestGroupBuilder {
    pub manifests: Vec<ManifestFile>,
    pub partition_filter: Option<BoundExpressionTree>,
    pub metrics_evaluator: Option<InclusiveMetricsEvaluator>,
    pub partition_set: Option<PartitionSet>,
    pub include_deleted: bool,
    pub keep_stats: bool,
    pub case_sensitive: bool,
    pub parallelism: Option<usize>,
    pub min_sequence_number: Option<i64>,
}

impl Default for ManifestGroupBuilder {
    fn default() -> (r: ManifestGroupBuilder)
        ensures
            r.manifests@.len() == 0,
            r.partition_filter is None,
            r.metrics_evaluator is None,
            r.partition_set is None,
            !r.include_deleted,
            r.keep_stats,
            r.case_sensitive,
            r.parallelism is None,
            r.min_sequence_number is None,
    {
        ManifestGroupBuilder::new()
    }
}

impl ManifestGroupBuilder {
    /// An empty group that reads live entries and keeps statistics.
    pub fn new() -> (r: ManifestGroupBuilder)
        ensures
            r.manifests@.len() == 0,
            r.partition_filter is None,
            r.metrics_evaluator is None,
            r.partition_set is None,
            !r.include_deleted,
            r.keep_stats,
            r.case_sensitive,
            r.parallelism is None,
            r.min_sequence_number is None,
    {
        ManifestGroupBuilder {
            manifests: Vec::new(),
            partition_filter: None,
            metrics_evaluator: None,
            partition_set: None,
            include_deleted: false,
            keep_stats: true,
            case_sensitive: true,
            parallelism: None,
            min_sequence_number: None,
        }
    }

    /// Adds a manifest.
    pub fn add_manifest(self, manifest: ManifestFile) -> (r: ManifestGroupBuilder)
        ensures
            r.manifests@ == self.manifests@.push(manifest),
            r.partition_filter == self.partition_filter,
            r.metrics_evaluator == self.metrics_evaluator,
            r.partition_set == self.partition_set,
            r.include_deleted == self.include_deleted,
            r.keep_stats == self.keep_stats,
            r.case_sensitive == self.case_sensitive,
            r.parallelism == self.parallelism,
            r.min_sequence_number == self.min_sequence_number,
    {
        let mut r = self;
        r.manifests.push(manifest);
        r
    }

    /// Adds manifests, in order.
    pub fn add_manifests(self, manifests: Vec<ManifestFile>) -> (r: ManifestGroupBuilder)
        ensures
            r.manifests@ == self.manifests@ + manifests@,
            r.partition_filter == self.partition_filter,
            r.metrics_evaluator == self.metrics_evaluator,
            r.partition_set == self.partition_set,
            r.include_deleted == self.include_deleted,
            r.keep_stats == self.keep_stats,
            r.case_sensitive == self.case_sensitive,
            r.parallelism == self.parallelism,
            r.min_sequence_number == self.min_sequence_number,
    {
        let mut r = self;
        let mut more = manifests;
        r.manifests.append(&mut more);
        r
    }

    /// Sets the partition filter.
    pub fn filter_partitions(self, expr: BoundExpressionTree) -> (r: ManifestGroupBuilder)
        ensures
            r == (ManifestGroupBuilder { partition_filter: Some(expr), ..self }),
    {
        ManifestGroupBuilder { partition_filter: Some(expr), ..self }
    }

    /// Sets the metrics evaluator.
    pub fn metrics_evaluator(self, evaluator: InclusiveMetricsEvaluator) -> (r: ManifestGroupBuilder)
        ensures
            r == (ManifestGroupBuilder { metrics_evaluator: Some(evaluator), ..self }),
    {
        ManifestGroupBuilder { metrics_evaluator: Some(evaluator), ..self }
    }

    /// Sets the partition set filter.
    pub fn filter_partition_set(self, partition_set: PartitionSet) -> (r: ManifestGroupBuilder)
        ensures
            r == (ManifestGroupBuilder { partition_set: Some(partition_set), ..self }),
    {
        ManifestGroupBuilder { partition_set: Some(partition_set), ..self }
    }

    /// Whether deleted entries are read too.
    pub fn include_deleted(self, enabled: bool) -> (r: ManifestGroupBuilder)
        ensures
            r == (ManifestGroupBuilder { include_deleted: enabled, ..self }),
    {
        ManifestGroupBuilder { include_deleted: enabled, ..self }
    }

    /// Whether statistics are kept.
    pub fn keep_stats(self, keep: bool) -> (r: ManifestGroupBuilder)
        ensures
            r == (ManifestGroupBuilder { keep_stats: keep, ..self }),
    {
        ManifestGroupBuilder { keep_stats: keep, ..self }
    }

    /// Sets case sensitivity.
    pub fn case_sensitive(self, case_sensitive: bool) -> (r: ManifestGroupBuilder)
        ensures
            r == (ManifestGroupBuilder { case_sensitive, ..self }),
    {
        ManifestGroupBuilder { case_sensitive, ..self }
    }

    /// Sets the number of threads.
    pub fn parallelism(self, num_threads: usize) -> (r: ManifestGroupBuilder)
        ensures
            r == (ManifestGroupBuilder { parallelism: Some(num_threads), ..self }),
    {
        ManifestGroupBuilder { parallelism: Some(num_threads), ..self }
    }

    /// Sets the minimum sequence number.
    pub fn min_sequence_number(self, min_seq: i64) -> (r: ManifestGroupBuilder)
        ensures
            r == (ManifestGroupBuilder { min_sequence_number: Some(min_seq), ..self }),
    {
        ManifestGroupBuilder { min_sequence_number: Some(min_seq), ..self }
    }

    /// The group.
    pub fn build(self) -> (r: ManifestGroup)
        ensures
            r.manifests == self.manifests,
            r.partition_filter == self.partition_filter,
            r.metrics_evaluator == self.metrics_evaluator,
            r.partition_set == self.partition_set,
            r.include_deleted == self.include_deleted,
            r.keep_stats == self.keep_stats,
            r.case_sensitive == self.case_sensitive,
            r.parallelism == self.parallelism,
            r.min_sequence_number == self.min_sequence_number,
    {
        ManifestGroup {
            manifests: self.manifests,
            partition_filter: self.partition_filter,
            metrics_evaluator: self.metrics_evaluator,
            partition_set: self.partition_set,
            include_deleted: self.include_deleted,
            keep_stats: self.keep_stats,
            case_sensitive: self.case_sensitive,
            parallelism: self.parallelism,
            min_sequence_number: self.min_sequence_number,
        }
    }
}

/// Manifests read together, with the filters every reading applies.
#[derive(Debug)]
pub struct ManifestGroup {
    pub manifests: Vec<ManifestFile>,
    pub partition_filter: Option<BoundExpressionTree>,
    pub metrics_evaluator: Option<InclusiveMetricsEvaluator>,
    pub partition_set: Option<PartitionSet>,
    pub include_deleted: bool,
    pub keep_stats: bool,
    pub case_sensitive: bool,
    pub parallelism: Option<usize>,
    pub min_sequence_number: Option<i64>,
}

/// The positions of the manifests of a content that may hold files at or above the
/// minimum sequence number, in order.
pub open spec fn selected(ms: Seq<ManifestFile>, content: ManifestContent, bound: Option<i64>) -> Seq<int>
    decreases ms.len(),
{
    if ms.len() == 0 {
        Seq::empty()
    } else {
        let s = selected(ms.drop_last(), content, bound);
        let m = ms.last();
        if m.content == content && may_match_sequence(m.min_sequence_number, bound) {
            s.push(ms.len() - 1)
        } else {
            s
        }
    }
}

impl ManifestGroup {
    /// A builder for an empty group.
    pub fn builder() -> (r: ManifestGroupBuilder)
        ensures
            r.manifests@.len() == 0,
            r.partition_filter is None,
            r.metrics_evaluator is None,
            r.partition_set is None,
            !r.include_deleted,
            r.keep_stats,
            r.case_sensitive,
            r.parallelism is None,
            r.min_sequence_number is None,
    {
        ManifestGroupBuilder::new()
    }

    /// The number of manifests.
    pub fn manifest_count(&self) -> (r: usize)
        ensures
            r == self.manifests@.len(),
    {
        self.manifests.len()
    }

    /// The positions of the manifests of a content that are read.
    pub fn manifests_to_read(&self, content: ManifestContent) -> (r: Vec<usize>)
        ensures
            r@.map_values(|i: usize| i as int) == selected(self.manifests@, content, self.min_sequence_number),
    {
        let mut out: Vec<usize> = Vec::new();
        let mut i: usize = 0;
        while i < self.manifests.len()
            invariant
                i <= self.manifests.len(),
                out@.map_values(|i: usize| i as int) == selected(
                    self.manifests@.take(i as int),
                    content,
                    self.min_sequence_number,
                ),
            decreases self.manifests.len() - i,
        {
            assert(self.manifests@.take(i + 1).drop_last() =~= self.manifests@.take(i as int));
            let m = &self.manifests[i];
            if m.content == content && m.might_contain_matching_files(self.min_sequence_number) {
                let ghost before = out@;
                out.push(i);
                assert(out@.map_values(|i: usize| i as int) =~= before.map_values(|i: usize| i as int).push(
                    i as int,
                ));
            }
            i = i + 1;
        }
        assert(self.manifests@.take(self.manifests.len() as int) =~= self.manifests@);
        out
    }

    /// The reading a manifest gets: the group's settings and filters, and the
    /// manifest's first row ID.
    pub fn reader_builder(&self, manifest: &ManifestFile) -> (r: ManifestReaderBuilder)
        ensures
            r.first_row_id == manifest.first_row_id,
            r.include_deleted == self.include_deleted,
            r.keep_stats == self.keep_stats,
            r.case_sensitive == self.case_sensitive,
            r.row_filter is None,
            match (r.partition_filter, self.partition_filter) {
                (Some(a), Some(b)) => a@ == b@,
                (None, None) => true,
                _ => false,
            },
            match (r.metrics_evaluator, self.metrics_evaluator) {
                (Some(a), Some(b)) => a@ == b@,
                (None, None) => true,
                _ => false,
            },
            match (r.partition_set, self.partition_set) {
                (Some(a), Some(b)) => a@ == b@,
                (None, None) => true,
                _ => false,
            },
    {
        let mut builder = ManifestReaderBuilder::new().include_deleted(self.include_deleted).keep_stats(
            self.keep_stats,
        ).case_sensitive(self.case_sensitive);
        match manifest.first_row_id {
            Some(id) => {
                builder = builder.first_row_id(id);
            },
            None => {},
        }
        match &self.partition_filter {
            Some(f) => {
                builder = builder.filter_partitions(f.duplicate());
            },
            None => {},
        }
        match &self.metrics_evaluator {
            Some(e) => {
                builder = builder.metrics_evaluator(e.duplicate());
            },
            None => {},
        }
        match &self.partition_set {
            Some(s) => {
                builder = builder.filter_partition_set(s.duplicate());
            },
            None => {},
        }
        builder
    }
}

/// The counts of a group reading.
#[derive(Debug, Clone, Copy, PartialEq, Eq, Structural)]
pub struct ParallelReadStats {
    /// Total number of manifests
    pub total_manifests: u64,
    /// Number of manifests successfully processed
    pub processed_manifests: u64,
    /// Number of manifests skipped
    pub skipped_manifests: u64,
    /// Total number of entries read
    pub total_entries: u64,
}

impl Default for ParallelReadStats {
    fn default() -> (r: ParallelReadStats)
        ensures
            r == (ParallelReadStats {
                total_manifests: 0,
                processed_manifests: 0,
                skipped_manifests: 0,
                total_entries: 0,
            }),
    {
        ParallelReadStats { total_manifests: 0, processed_manifests: 0, skipped_manifests: 0, total_entries: 0 }
    }
}

/// The entries of a group reading, with its counts.
#[derive(Debug)]
pub struct ParallelReadResult<T> {
    /// All entries from all manifests
    pub entries: Vec<T>,
    /// Reading statistics
    pub stats: ParallelReadStats,
}

impl<T> ParallelReadResult<T> {
    /// No entries, all counts zero.
    pub fn empty() -> (r: ParallelReadResult<T>)
        ensures
            r.entries@.len() == 0,
            r.stats == (ParallelReadStats {
                total_manifests: 0,
                processed_manifests: 0,
                skipped_manifests: 0,
                total_entries: 0,
            }),
    {
        ParallelReadResult { entries: Vec::new(), stats: ParallelReadStats::default() }
    }

    /// The number of entries.
    pub fn len(&self) -> (r: usize)
        ensures
            r == self.entries@.len(),
    {
        self.entries.len()
    }

    /// Whether there are no entries.
    pub fn is_empty(&self) -> (r: bool)
        ensures
            r == (self.entries@.len() == 0),
    {
        self.entries.len() == 0
    }

    /// The entries.
    pub fn into_entries(self) -> (r: Vec<T>)
        ensures
            r == self.entries,
    {
        self.entries
    }
}

/// The entries of the readings, in order.
pub open spec fn concat_all<T>(parts: Seq<Seq<T>>) -> Seq<T>
    decreases parts.len(),
{
    if parts.len() == 0 {
        Seq::empty()
    } else {
        concat_all(parts.drop_last()) + parts.last()
    }
}

/// The first failed reading, if any.
pub open spec fn first_failure<T>(results: Seq<Result<Vec<T>, Error>>) -> Option<int>
    decreases results.len(),
{
    if results.len() == 0 {
        None
    } else {
        match first_failure(results.drop_last()) {
            Some(i) => Some(i),
            None => if results.last() is Err {
                Some(results.len() - 1)
            } else {
                None
            },
        }
    }
}

/// The entries of readings that all succeeded.
pub open spec fn ok_parts<T>(results: Seq<Result<Vec<T>, Error>>) -> Seq<Seq<T>> {
    Seq::new(
        results.len(),
        |i: int|
            match results[i] {
                Ok(v) => v@,
                Err(_) => Seq::empty(),
            },
    )
}

/// Gathers the readings of a group's manifests, in manifest order: the error of the
/// first that failed, else all entries in order, every manifest processed and none
/// skipped.
pub fn gather<T>(results: Vec<Result<Vec<T>, Error>>) -> (r: Result<ParallelReadResult<T>, Error>)
    ensures
        match first_failure(results@) {
            Some(i) => r matches Err(e) && results@[i] == Err::<Vec<T>, Error>(e),
            None => r matches Ok(res) && res.entries@ == concat_all(ok_parts(results@)) && res.stats == (
            ParallelReadStats {
                total_manifests: results@.len() as u64,
                processed_manifests: results@.len() as u64,
                skipped_manifests: 0,
                total_entries: concat_all(ok_parts(results@)).len() as u64,
            }),
        },
{
    let n = results.len();
    let ghost all = results@;
    let mut entries: Vec<T> = Vec::new();
    let mut it = results.into_iter();
    let mut i: usize = 0;
    proof {
        assert(all.take(0) =~= Seq::<Result<Vec<T>, Error>>::empty());
        assert(ok_parts(all.take(0)) =~= Seq::<Seq<T>>::empty());
    }
    for result in iter: it
        invariant
            iter.seq() == all,
            all == results@,
            n == all.len(),
            i == iter.index(),
            first_failure(all.take(i as int)) is None,
            entries@ == concat_all(ok_parts(all.take(i as int))),
    {
        proof {
            assert(all.take(i + 1).drop_last() =~= all.take(i as int));
            assert(ok_parts(all.take(i + 1)).drop_last() =~= ok_parts(all.take(i as int)));
        }
        match result {
            Ok(v) => {
                let mut v = v;
                let ghost vs = v@;
                entries.append(&mut v);
                assert(ok_parts(all.take(i + 1)).last() == vs);
            },
            Err(e) => {
                proof {
                    assert(all[i as int] == Err::<Vec<T>, Error>(e));
                    assert(all.take(i + 1).last() == all[i as int]);
                    assert(first_failure(all.take(i + 1)) == Some(i as int));
                    lemma_first_failure_stops(all, i + 1);
                }
                return Err(e);
            },
        }
        i = i + 1;
    }
    assert(all.take(n as int) =~= all);
    let total = entries.len();
    Ok(ParallelReadResult {
        entries,
        stats: ParallelReadStats {
            total_manifests: n as u64,
            processed_manifests: n as u64,
            skipped_manifests: 0,
            total_entries: total as u64,
        },
    })
}

proof fn lemma_first_failure_stops<T>(results: Seq<Result<Vec<T>, Error>>, n: int)
    requires
        0 <= n <= results.len(),
        first_failure(results.take(n)) is Some,
    ensures
        first_failure(results) == first_failure(results.take(n)),
    decreases results.len() - n,
{
    if n < results.len() {
        assert(results.take(n + 1).drop_last() =~= results.take(n));
        lemma_first_failure_stops(results, n + 1);
    } else {
        assert(results.take(n) =~= results);
    }
}

/// The manifests dealt out to workers in turn: the manifest at position `i` goes to
/// worker `i % num_workers`, each worker keeping the order.
pub open spec fn dealt(ms: Seq<ManifestFile>, num_workers: nat, w: int) -> Seq<ManifestFile>
    decreases ms.len(),
{
    if ms.len() == 0 {
        Seq::empty()
    } else {
        let d = dealt(ms.drop_last(), num_workers, w);
        if (ms.len() - 1) % (num_workers as int) == w {
            d.push(ms.last())
        } else {
            d
        }
    }
}

/// Deals manifests out to workers in turn.
pub fn distribute(manifests: Vec<ManifestFile>, num_workers: usize) -> (r: Vec<Vec<ManifestFile>>)
    requires
        num_workers > 0,
    ensures
        r@.len() == num_workers,
        forall|w: int| 0 <= w < num_workers ==> (#[trigger] r@[w])@ == dealt(manifests@, num_workers as nat, w),
{
    let mut chunks: Vec<Vec<ManifestFile>> = Vec::new();
    let mut k: usize = 0;
    while k < num_workers
        invariant
            k <= num_workers,
            chunks@.len() == k,
            forall|w: int| 0 <= w < k ==> (#[trigger] chunks@[w])@.len() == 0,
        decreases num_workers - k,
    {
        chunks.push(Vec::new());
        k = k + 1;
    }
    let ghost all = manifests@;
    let n = manifests.len();
    let mut i: usize = 0;
    proof {
        assert forall|w: int| 0 <= w < num_workers implies (#[trigger] chunks@[w])@ == dealt(
            all.take(0),
            num_workers as nat,
            w,
        ) by {
            assert(chunks@[w]@ =~= Seq::<ManifestFile>::empty());
        }
    }
    for m in iter: manifests.into_iter()
        invariant
            iter.seq() == all,
            i == iter.index(),
            n == all.len(),
            num_workers > 0,
            chunks@.len() == num_workers,
            forall|w: int| 0 <= w < num_workers ==> (#[trigger] chunks@[w])@ == dealt(
                all.take(i as int),
                num_workers as nat,
                w,
            ),
    {
        let slot = i % num_workers;
        let ghost before = chunks@;
        let mut chunk = chunks.remove(slot);
        chunk.push(m);
        chunks.insert(slot, chunk);
        assert(chunks@ == before.update(slot as int, chunks@[slot as int]));
        proof {
            assert(all.take(i + 1).drop_last() =~= all.take(i as int));
            assert(all.take(i + 1).last() == m);
            assert forall|w: int| 0 <= w < num_workers implies (#[trigger] chunks@[w])@ == dealt(
                all.take(i + 1),
                num_workers as nat,
                w,
            ) by {
                if w != slot {
                    assert(chunks@[w] == before[w]);
                }
            }
        }
        i = i + 1;
    }
    proof {
        assert(all.take(i as int) =~= all);
    }
    chunks
}


/// How many manifests were read, out of the outcomes of reading them one by one.
pub open spec fn count_read(outcomes: Seq<Option<u64>>) -> int
    decreases outcomes.len(),
{
    if outcomes.len() == 0 {
        0
    } else {
        count_read(outcomes.drop_last()) + if outcomes.last() is Some { 1int } else { 0int }
    }
}

/// The entries handed over, added up, out of the outcomes of reading manifests one by
/// one.
pub open spec fn entries_read(outcomes: Seq<Option<u64>>) -> int
    decreases outcomes.len(),
{
    if outcomes.len() == 0 {
        0
    } else {
        entries_read(outcomes.drop_last()) + match outcomes.last() {
            Some(n) => n as int,
            None => 0,
        }
    }
}

proof fn lemma_count_read_bound(outcomes: Seq<Option<u64>>)
    ensures
        0 <= count_read(outcomes) <= outcomes.len(),
    decreases outcomes.len(),
{
    if outcomes.len() > 0 {
        lemma_count_read_bound(outcomes.drop_last());
    }
}

/// The counts of reading manifests one by one and handing each one's entries over:
/// `outcomes` holds, for each manifest in turn, the number of its entries, or `None`
/// where it could not be read. A manifest read is processed, one that failed is
/// skipped, and the entries are added up modulo `2^64`.
pub fn tally_reads(outcomes: &Vec<Option<u64>>) -> (r: ParallelReadStats)
    ensures
        r.total_manifests == outcomes.len(),
        r.processed_manifests == count_read(outcomes@),
        r.skipped_manifests == outcomes.len() - count_read(outcomes@),
        r.total_entries == entries_read(outcomes@) % 0x1_0000_0000_0000_0000,
{
    let mut processed: u64 = 0;
    let mut skipped: u64 = 0;
    let mut total: u64 = 0;
    let mut i: usize = 0;
    assert(outcomes@.take(0) =~= Seq::<Option<u64>>::empty());
    while i < outcomes.len()
        invariant
            i <= outcomes.len(),
            processed == count_read(outcomes@.take(i as int)),
            skipped == i - count_read(outcomes@.take(i as int)),
            total == entries_read(outcomes@.take(i as int)) % 0x1_0000_0000_0000_0000,
        decreases outcomes.len() - i,
    {
        let ghost t = outcomes@.take(i + 1);
        assert(t.drop_last() =~= outcomes@.take(i as int));
        assert(t.last() == outcomes@[i as int]);
        proof {
            lemma_count_read_bound(outcomes@.take(i as int));
        }
        match outcomes[i] {
            Some(n) => {
                let ghost before = entries_read(outcomes@.take(i as int));
                proof {
                    vstd::arithmetic::div_mod::lemma_add_mod_noop(before, n as int, 0x1_0000_0000_0000_0000);
                    vstd::arithmetic::div_mod::lemma_small_mod(n as nat, 0x1_0000_0000_0000_0000);
                    let sum = total as int + n as int;
                    if sum >= 0x1_0000_0000_0000_0000 {
                        vstd::arithmetic::div_mod::lemma_fundamental_div_mod_converse(sum, 0x1_0000_0000_0000_0000, 1, sum - 0x1_0000_0000_0000_0000);
                    } else {
                        vstd::arithmetic::div_mod::lemma_fundamental_div_mod_converse(sum, 0x1_0000_0000_0000_0000, 0, sum);
                    }
                }
                processed = processed + 1;
                total = total.wrapping_add(n);
            },
            None => {
                skipped = skipped + 1;
            },
        }
        i = i + 1;
    }
    assert(outcomes@.take(outcomes.len() as int) =~= outcomes@);
    ParallelReadStats {
        total_manifests: outcomes.len() as u64,
        processed_manifests: processed,
        skipped_manifests: skipped,
        total_entries: total,
    }
}

} // verus!
