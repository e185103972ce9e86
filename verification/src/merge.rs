//! Settings and counts of merging small Parquet files.
use vstd::prelude::*;
use crate::writer::{CompressionType, WriteOptions, default_write_options, DEFAULT_BLOOM_FILTER_FPP_BITS};
use crate::text::copy_string;

verus! {

/// Calls `num_cpus::get`, the number of logical CPUs the process may use; it is at
/// least one, and nothing more is claimed of it.
#[verifier::external_body]
pub(crate) fn cpu_count() -> (r: usize)
    ensures
        r >= 1,
{
    num_cpus::get()
}

/// Settings of merging small files.
#[derive(Debug)]
pub struct MergeOptions {
    /// Target file size in bytes (default: 128MB)
    pub target_file_size: usize,
    /// Maximum memory usage in bytes (default: 1GB)
    pub max_memory: usize,
    /// Output file compression
    pub compression: CompressionType,
    /// Row group size for output files
    pub row_group_size: usize,
    /// Columns to sort the output by
    pub sort_columns: Option<Vec<String>>,
    /// Batch size for reading
    pub batch_size: usize,
    /// Number of partitions for parallel processing
    pub partitions: usize,
    /// Enable statistics for output files
    pub enable_statistics: bool,
    /// Enable bloom filter for output files
    pub enable_bloom_filter: bool,
}

/// Whether the settings are the defaults, with `partitions` the number of CPUs.
pub open spec fn is_default_merge(o: MergeOptions) -> bool {
    &&& o.target_file_size == 134217728
    &&& o.max_memory == 1073741824
    &&& o.compression == CompressionType::Zstd
    &&& o.row_group_size == 1048576
    &&& o.sort_columns is None
    &&& o.batch_size == 8192
    &&& o.partitions >= 1
    &&& o.enable_statistics
    &&& !o.enable_bloom_filter
}

impl Default for MergeOptions {
    fn default() -> (r: MergeOptions)
        ensures
            is_default_merge(r),
    {
        MergeOptions {
            target_file_size: 128 * 1024 * 1024,
            max_memory: 1024 * 1024 * 1024,
            compression: CompressionType::Zstd,
            row_group_size: 1024 * 1024,
            sort_columns: None,
            batch_size: 8192,
            partitions: cpu_count(),
            enable_statistics: true,
            enable_bloom_filter: false,
        }
    }
}

impl MergeOptions {
    /// The default settings.
    pub fn new() -> (r: MergeOptions)
        ensures
            is_default_merge(r),
    {
        MergeOptions::default()
    }

    /// Sets the target file size.
    pub fn with_target_file_size(self, size: usize) -> (r: MergeOptions)
        ensures
            r == (MergeOptions { target_file_size: size, ..self }),
    {
        MergeOptions { target_file_size: size, ..self }
    }

    /// Sets the memory limit.
    pub fn with_max_memory(self, size: usize) -> (r: MergeOptions)
        ensures
            r == (MergeOptions { max_memory: size, ..self }),
    {
        MergeOptions { max_memory: size, ..self }
    }

    /// Sets the codec.
    pub fn with_compression(self, compression: CompressionType) -> (r: MergeOptions)
        ensures
            r == (MergeOptions { compression, ..self }),
    {
        MergeOptions { compression, ..self }
    }

    /// Sets the row group size.
    pub fn with_row_group_size(self, size: usize) -> (r: MergeOptions)
        ensures
            r == (MergeOptions { row_group_size: size, ..self }),
    {
        MergeOptions { row_group_size: size, ..self }
    }

    /// Sets the sort columns.
    pub fn with_sort_columns(self, columns: Vec<String>) -> (r: MergeOptions)
        ensures
            r == (MergeOptions { sort_columns: Some(columns), ..self }),
    {
        MergeOptions { sort_columns: Some(columns), ..self }
    }

    /// Sets the batch size.
    pub fn with_batch_size(self, size: usize) -> (r: MergeOptions)
        ensures
            r == (MergeOptions { batch_size: size, ..self }),
    {
        MergeOptions { batch_size: size, ..self }
    }

    /// Sets the number of partitions.
    pub fn with_partitions(self, partitions: usize) -> (r: MergeOptions)
        ensures
            r == (MergeOptions { partitions, ..self }),
    {
        MergeOptions { partitions, ..self }
    }

    /// Turns bloom filters on or off.
    pub fn with_bloom_filter(self, enabled: bool) -> (r: MergeOptions)
        ensures
            r == (MergeOptions { enable_bloom_filter: enabled, ..self }),
    {
        MergeOptions { enable_bloom_filter: enabled, ..self }
    }

    /// The settings of writing merged files: codec, row group size, statistics and
    /// bloom filters (with a false-positive probability of 0.05) from these settings.
    pub fn create_write_options(&self) -> (r: WriteOptions)
        ensures
            r == (WriteOptions {
                compression: self.compression,
                row_group_size: self.row_group_size,
                enable_statistics: self.enable_statistics,
                bloom_filter_enabled: self.enable_bloom_filter,
                bloom_filter_fpp: DEFAULT_BLOOM_FILTER_FPP_BITS,
                ..default_write_options()
            }),
    {
        WriteOptions::new().with_compression(self.compression).with_row_group_size(self.row_group_size).with_statistics(
            self.enable_statistics,
        ).with_bloom_filter(self.enable_bloom_filter, DEFAULT_BLOOM_FILTER_FPP_BITS)
    }

    /// A copy of the settings.
    pub fn duplicate(&self) -> (r: MergeOptions)
        ensures
            r.target_file_size == self.target_file_size,
            r.max_memory == self.max_memory,
            r.compression == self.compression,
            r.row_group_size == self.row_group_size,
            r.batch_size == self.batch_size,
            r.partitions == self.partitions,
            r.enable_statistics == self.enable_statistics,
            r.enable_bloom_filter == self.enable_bloom_filter,
            match (r.sort_columns, self.sort_columns) {
                (Some(a), Some(b)) => a@.len() == b@.len() && forall|i: int|
                    0 <= i < a@.len() ==> (#[trigger] a@[i])@ == b@[i]@,
                (None, None) => true,
                _ => false,
            },
    {
        let sort_columns = match &self.sort_columns {
            Some(cols) => {
                let mut out: Vec<String> = Vec::new();
                let mut i: usize = 0;
                while i < cols.len()
                    invariant
                        i <= cols.len(),
                        out@.len() == i,
                        forall|k: int| 0 <= k < i ==> (#[trigger] out@[k])@ == cols@[k]@,
                    decreases cols.len() - i,
                {
                    out.push(copy_string(&cols[i]));
                    i = i + 1;
                }
                Some(out)
            },
            None => None,
        };
        MergeOptions {
            target_file_size: self.target_file_size,
            max_memory: self.max_memory,
            compression: self.compression,
            row_group_size: self.row_group_size,
            sort_columns,
            batch_size: self.batch_size,
            partitions: self.partitions,
            enable_statistics: self.enable_statistics,
            enable_bloom_filter: self.enable_bloom_filter,
        }
    }
}

/// Counts taken of the input files of a merge.
#[derive(Debug, Clone, Copy, PartialEq, Eq, Structural)]
pub struct MergeStats {
    /// Number of input files
    pub input_file_count: u64,
    /// Total number of rows across all input files
    pub total_rows: u64,
    /// Total size of input files in bytes
    pub total_size: u64,
    /// Estimated number of output files based on target file size
    pub estimated_output_files: u64,
}

} // verus!
