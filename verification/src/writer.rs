//! Settings of Parquet writing.
use vstd::prelude::*;

verus! {

/// Compression codec of Parquet files.
#[derive(Debug, Clone, Copy, PartialEq, Eq, Structural)]
pub enum CompressionType {
    Uncompressed,
    Snappy,
    Gzip,
    Lz4,
    Zstd,
    Lz4Raw,
    Brotli,
}

impl Default for CompressionType {
    fn default() -> (r: CompressionType)
        ensures
            r == CompressionType::Zstd,
    {
        CompressionType::Zstd
    }
}

/// The name of a codec in table options.
pub open spec fn codec_name(c: CompressionType) -> Seq<char> {
    match c {
        CompressionType::Uncompressed => "uncompressed"@,
        CompressionType::Snappy => "snappy"@,
        CompressionType::Gzip => "gzip"@,
        CompressionType::Lz4 => "lz4"@,
        CompressionType::Zstd => "zstd"@,
        CompressionType::Lz4Raw => "lz4_raw"@,
        CompressionType::Brotli => "brotli"@,
    }
}

impl CompressionType {
    /// The name of the codec in table options.
    pub fn name(&self) -> (r: &'static str)
        ensures
            r@ == codec_name(*self),
    {
        match self {
            CompressionType::Uncompressed => "uncompressed",
            CompressionType::Snappy => "snappy",
            CompressionType::Gzip => "gzip",
            CompressionType::Lz4 => "lz4",
            CompressionType::Zstd => "zstd",
            CompressionType::Lz4Raw => "lz4_raw",
            CompressionType::Brotli => "brotli",
        }
    }
}

/// Parquet format version written.
#[derive(Debug, Clone, Copy, PartialEq, Eq, Structural)]
pub enum ParquetWriterVersion {
    V1,
    V2,
}

impl Default for ParquetWriterVersion {
    fn default() -> (r: ParquetWriterVersion)
        ensures
            r == ParquetWriterVersion::V2,
    {
        ParquetWriterVersion::V2
    }
}

/// The bit pattern of the `f64` 0.05, the default false-positive probability of
/// bloom filters.
pub const DEFAULT_BLOOM_FILTER_FPP_BITS: u64 = 0x3FA9_9999_9999_999Au64;

/// Settings of Parquet writing. The bloom filter false-positive probability is held
/// by the bit pattern of its `f64`.
#[derive(Debug, Clone, PartialEq, Eq)]
pub struct WriteOptions {
    /// Compression codec
    pub compression: CompressionType,
    /// Row group size (number of rows per row group)
    pub row_group_size: usize,
    /// Data page size in bytes
    pub data_page_size: usize,
    /// Dictionary page size in bytes
    pub dictionary_page_size: usize,
    /// Whether to enable dictionary encoding
    pub enable_dictionary: bool,
    /// Whether to enable statistics
    pub enable_statistics: bool,
    /// Max statistics size
    pub max_statistics_size: usize,
    /// Bloom filter enabled
    pub bloom_filter_enabled: bool,
    /// Bloom filter false positive probability, as `f64` bits
    pub bloom_filter_fpp: u64,
    /// Bloom filter number of distinct values hint
    pub bloom_filter_ndv: Option<u64>,
    /// Writer version
    pub writer_version: ParquetWriterVersion,
    /// Whether to write column index
    pub write_column_index: bool,
    /// Whether to write offset index
    pub write_offset_index: bool,
    /// Maximum number of rows per file (for splitting)
    pub max_rows_per_file: Option<usize>,
    /// Target file size in bytes (for splitting)
    pub target_file_size: Option<usize>,
}

/// The default write settings.
pub open spec fn default_write_options() -> WriteOptions {
    WriteOptions {
        compression: CompressionType::Zstd,
        row_group_size: 1048576,
        data_page_size: 1048576,
        dictionary_page_size: 1048576,
        enable_dictionary: true,
        enable_statistics: true,
        max_statistics_size: 4096,
        bloom_filter_enabled: false,
        bloom_filter_fpp: DEFAULT_BLOOM_FILTER_FPP_BITS,
        bloom_filter_ndv: None,
        writer_version: ParquetWriterVersion::V2,
        write_column_index: true,
        write_offset_index: true,
        max_rows_per_file: None,
        target_file_size: None,
    }
}

impl Default for WriteOptions {
    fn default() -> (r: WriteOptions)
        ensures
            r == default_write_options(),
    {
        WriteOptions {
            compression: CompressionType::Zstd,
            row_group_size: 1024 * 1024,
            data_page_size: 1024 * 1024,
            dictionary_page_size: 1024 * 1024,
            enable_dictionary: true,
            enable_statistics: true,
            max_statistics_size: 4096,
            bloom_filter_enabled: false,
            bloom_filter_fpp: DEFAULT_BLOOM_FILTER_FPP_BITS,
            bloom_filter_ndv: None,
            writer_version: ParquetWriterVersion::V2,
            write_column_index: true,
            write_offset_index: true,
            max_rows_per_file: None,
            target_file_size: None,
        }
    }
}

impl WriteOptions {
    /// The default settings.
    pub fn new() -> (r: WriteOptions)
        ensures
            r == default_write_options(),
    {
        WriteOptions::default()
    }

    /// Sets the codec.
    pub fn with_compression(self, compression: CompressionType) -> (r: WriteOptions)
        ensures
            r == (WriteOptions { compression, ..self }),
    {
        WriteOptions { compression, ..self }
    }

    /// Sets the row group size.
    pub fn with_row_group_size(self, size: usize) -> (r: WriteOptions)
        ensures
            r == (WriteOptions { row_group_size: size, ..self }),
    {
        WriteOptions { row_group_size: size, ..self }
    }

    /// Sets the data page size.
    pub fn with_data_page_size(self, size: usize) -> (r: WriteOptions)
        ensures
            r == (WriteOptions { data_page_size: size, ..self }),
    {
        WriteOptions { data_page_size: size, ..self }
    }

    /// Sets the dictionary page size.
    pub fn with_dictionary_page_size(self, size: usize) -> (r: WriteOptions)
        ensures
            r == (WriteOptions { dictionary_page_size: size, ..self }),
    {
        WriteOptions { dictionary_page_size: size, ..self }
    }

    /// Turns dictionary encoding on or off.
    pub fn with_dictionary(self, enable: bool) -> (r: WriteOptions)
        ensures
            r == (WriteOptions { enable_dictionary: enable, ..self }),
    {
        WriteOptions { enable_dictionary: enable, ..self }
    }

    /// Turns statistics on or off.
    pub fn with_statistics(self, enable: bool) -> (r: WriteOptions)
        ensures
            r == (WriteOptions { enable_statistics: enable, ..self }),
    {
        WriteOptions { enable_statistics: enable, ..self }
    }

    /// Turns bloom filters on or off, with a false-positive probability given by its
    /// `f64` bits.
    pub fn with_bloom_filter(self, enabled: bool, fpp: u64) -> (r: WriteOptions)
        ensures
            r == (WriteOptions { bloom_filter_enabled: enabled, bloom_filter_fpp: fpp, ..self }),
    {
        WriteOptions { bloom_filter_enabled: enabled, bloom_filter_fpp: fpp, ..self }
    }

    /// Sets the writer version.
    pub fn with_writer_version(self, version: ParquetWriterVersion) -> (r: WriteOptions)
        ensures
            r == (WriteOptions { writer_version: version, ..self }),
    {
        WriteOptions { writer_version: version, ..self }
    }

    /// Sets the maximum rows per file.
    pub fn with_max_rows_per_file(self, max_rows: usize) -> (r: WriteOptions)
        ensures
            r == (WriteOptions { max_rows_per_file: Some(max_rows), ..self }),
    {
        WriteOptions { max_rows_per_file: Some(max_rows), ..self }
    }

    /// Sets the target file size.
    pub fn with_target_file_size(self, size: usize) -> (r: WriteOptions)
        ensures
            r == (WriteOptions { target_file_size: Some(size), ..self }),
    {
        WriteOptions { target_file_size: Some(size), ..self }
    }

    /// The rows per file when an output is split by rows: the set maximum, else a
    /// million.
    pub fn rows_per_file(&self) -> (r: usize)
        ensures
            r == match self.max_rows_per_file {
                Some(m) => m,
                None => 1000000usize,
            },
    {
        match self.max_rows_per_file {
            Some(m) => m,
            None => 1_000_000,
        }
    }

    /// The statistics level of table options: per page when statistics are on.
    pub fn statistics_level(&self) -> (r: &'static str)
        ensures
            r@ == if self.enable_statistics {
                "page"@
            } else {
                "none"@
            },
    {
        if self.enable_statistics {
            "page"
        } else {
            "none"
        }
    }
}

} // verus!
