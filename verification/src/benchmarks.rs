//! Benchmark configurations and the shape of benchmark results.
//!
//! The workloads themselves (file creation, deletion, renaming, directory
//! listing) are I/O from end to end and run outside the library; what
//! stands here is their configuration rules and the result records they
//! fill in, with the aggregation over the recorded statistics.

use vstd::prelude::*;

use crate::statistics::Stats;
use crate::trace::Trace;

verus! {

/// Default directory fan-out for generated file sets.
pub const DEFAULT_DIR_WIDTH: usize = 7;

/// Default number of files for generated file sets.
pub const DEFAULT_NUM_FILES: usize = 10000;

/// Directory fan-out tuned for ext4-family filesystems in the create
/// benchmark.
pub const EXT4_DIR_WIDTH: usize = 7;

/// File count tuned for ext4-family filesystems in the create benchmark.
pub const EXT4_NUM_FILES: usize = 30000;

/// The filesystems the benchmarks know how to prepare.
#[derive(Clone, Copy, Debug, PartialEq, Eq, Structural)]
pub enum Filesystem {
    Ext2,
    Ext4,
    Ext4NoJournal,
    Xfs,
    Btrfs,
    F2fs,
}

impl Filesystem {
    /// The filesystem's display name.
    pub open spec fn spec_name(&self) -> Seq<char> {
        match self {
            Filesystem::Ext2 => "ext2"@,
            Filesystem::Ext4 => "ext4"@,
            Filesystem::Ext4NoJournal => "ext4-no-journal"@,
            Filesystem::Xfs => "xfs"@,
            Filesystem::Btrfs => "btrfs"@,
            Filesystem::F2fs => "f2fs"@,
        }
    }

    /// The filesystem's display name, as used in output paths.
    pub fn name(&self) -> (r: String)
        ensures
            r@ == self.spec_name(),
    {
        match self {
            Filesystem::Ext2 => "ext2".to_owned(),
            Filesystem::Ext4 => "ext4".to_owned(),
            Filesystem::Ext4NoJournal => "ext4-no-journal".to_owned(),
            Filesystem::Xfs => "xfs".to_owned(),
            Filesystem::Btrfs => "btrfs".to_owned(),
            Filesystem::F2fs => "f2fs".to_owned(),
        }
    }
}

/// A benchmark configuration: built for a filesystem, sized in files.
pub trait Config: Sized {
    /// How many files the benchmark works on.
    spec fn spec_num_files(&self) -> usize;

    /// The configuration tuned for the given filesystem.
    fn config_for(fs: &Filesystem) -> Self;

    /// How many files the benchmark works on.
    fn num_files(&self) -> (r: usize)
        ensures
            r == self.spec_num_files(),
    ;
}

/// Configuration of the plain create benchmark.
#[derive(Clone, Copy, Debug, PartialEq, Eq, Structural)]
pub struct CreateFilesConfig {
    pub num_files: usize,
    pub dir_width: usize,
}

impl Config for CreateFilesConfig {
    open spec fn spec_num_files(&self) -> usize {
        self.num_files
    }

    /// Ext4-family filesystems get the tuned size; everything else the
    /// defaults.
    fn config_for(fs: &Filesystem) -> (c: Self)
        ensures
            (*fs == Filesystem::Ext4 || *fs == Filesystem::Ext4NoJournal) ==> c
                == (CreateFilesConfig { num_files: EXT4_NUM_FILES, dir_width: EXT4_DIR_WIDTH }),
            !(*fs == Filesystem::Ext4 || *fs == Filesystem::Ext4NoJournal) ==> c
                == (CreateFilesConfig {
                num_files: DEFAULT_NUM_FILES,
                dir_width: DEFAULT_DIR_WIDTH,
            }),
    {
        match fs {
            Filesystem::Ext4 | Filesystem::Ext4NoJournal => CreateFilesConfig {
                num_files: EXT4_NUM_FILES,
                dir_width: EXT4_DIR_WIDTH,
            },
            _ => CreateFilesConfig { num_files: DEFAULT_NUM_FILES, dir_width: DEFAULT_DIR_WIDTH },
        }
    }

    fn num_files(&self) -> (r: usize)
        ensures
            r == self.spec_num_files(),
    {
        self.num_files
    }
}

/// Configuration of the create benchmark that fsyncs in batches.
#[derive(Clone, Copy, Debug, PartialEq, Eq, Structural)]
pub struct CreateFilesBatchSyncConfig {
    pub num_files: usize,
    pub dir_width: usize,
    pub batch_size: usize,
}

impl Config for CreateFilesBatchSyncConfig {
    open spec fn spec_num_files(&self) -> usize {
        self.num_files
    }

    fn config_for(fs: &Filesystem) -> (c: Self)
        ensures
            c == (CreateFilesBatchSyncConfig {
                num_files: DEFAULT_NUM_FILES,
                dir_width: DEFAULT_DIR_WIDTH,
                batch_size: 10,
            }),
    {
        CreateFilesBatchSyncConfig {
            num_files: DEFAULT_NUM_FILES,
            dir_width: DEFAULT_DIR_WIDTH,
            batch_size: 10,
        }
    }

    fn num_files(&self) -> (r: usize)
        ensures
            r == self.spec_num_files(),
    {
        self.num_files
    }
}

/// Configuration of the create benchmark that fsyncs every file.
#[derive(Clone, Copy, Debug, PartialEq, Eq, Structural)]
pub struct CreateFilesEachSyncConfig {
    pub num_files: usize,
    pub dir_width: usize,
}

impl Config for CreateFilesEachSyncConfig {
    open spec fn spec_num_files(&self) -> usize {
        self.num_files
    }

    fn config_for(fs: &Filesystem) -> (c: Self)
        ensures
            c == (CreateFilesEachSyncConfig {
                num_files: DEFAULT_NUM_FILES,
                dir_width: DEFAULT_DIR_WIDTH,
            }),
    {
        CreateFilesEachSyncConfig { num_files: DEFAULT_NUM_FILES, dir_width: DEFAULT_DIR_WIDTH }
    }

    fn num_files(&self) -> (r: usize)
        ensures
            r == self.spec_num_files(),
    {
        self.num_files
    }
}

/// Configuration of the delete benchmark.
#[derive(Clone, Copy, Debug, PartialEq, Eq, Structural)]
pub struct DeleteFilesConfig {
    pub num_files: usize,
    pub dir_width: usize,
}

impl Default for DeleteFilesConfig {
    /// The defaults, independent of filesystem.
    fn default() -> (c: Self)
        ensures
            c == (DeleteFilesConfig { num_files: DEFAULT_NUM_FILES, dir_width: DEFAULT_DIR_WIDTH }),
    {
        DeleteFilesConfig { num_files: DEFAULT_NUM_FILES, dir_width: DEFAULT_DIR_WIDTH }
    }
}

impl Config for DeleteFilesConfig {
    open spec fn spec_num_files(&self) -> usize {
        self.num_files
    }

    fn config_for(fs: &Filesystem) -> (c: Self)
        ensures
            c == (DeleteFilesConfig { num_files: DEFAULT_NUM_FILES, dir_width: DEFAULT_DIR_WIDTH }),
    {
        DeleteFilesConfig { num_files: DEFAULT_NUM_FILES, dir_width: DEFAULT_DIR_WIDTH }
    }

    fn num_files(&self) -> (r: usize)
        ensures
            r == self.spec_num_files(),
    {
        self.num_files
    }
}

/// Configuration of the directory-listing benchmark.
#[derive(Clone, Debug)]
pub struct ListDirConfig {
    pub num_files: usize,
    pub dir_width: usize,
    pub module_name: String,
}

impl Config for ListDirConfig {
    open spec fn spec_num_files(&self) -> usize {
        self.num_files
    }

    fn config_for(fs: &Filesystem) -> (c: Self)
        ensures
            c.num_files == DEFAULT_NUM_FILES,
            c.dir_width == DEFAULT_DIR_WIDTH,
            c.module_name@ == fs.spec_name(),
    {
        ListDirConfig {
            num_files: DEFAULT_NUM_FILES,
            dir_width: DEFAULT_DIR_WIDTH,
            module_name: fs.name(),
        }
    }

    fn num_files(&self) -> (r: usize)
        ensures
            r == self.spec_num_files(),
    {
        self.num_files
    }
}

/// Configuration of the rename benchmark.
#[derive(Clone, Copy, Debug, PartialEq, Eq, Structural)]
pub struct RenameFilesConfig {
    pub num_files: usize,
    pub dir_width: usize,
}

impl Config for RenameFilesConfig {
    open spec fn spec_num_files(&self) -> usize {
        self.num_files
    }

    fn config_for(fs: &Filesystem) -> (c: Self)
        ensures
            c == (RenameFilesConfig { num_files: DEFAULT_NUM_FILES, dir_width: DEFAULT_DIR_WIDTH }),
    {
        RenameFilesConfig { num_files: DEFAULT_NUM_FILES, dir_width: DEFAULT_DIR_WIDTH }
    }

    fn num_files(&self) -> (r: usize)
        ensures
            r == self.spec_num_files(),
    {
        self.num_files
    }
}

/// A completed benchmark: its per-operation statistics summed into one
/// total, and the block trace recorded while it ran.
pub trait Benchmark<C: Config> {
    /// The statistics of all the benchmark's operations, merged.
    fn total(&self) -> Stats;

    /// The block trace recorded while the benchmark ran.
    fn get_trace(&self) -> &Trace;

    /// The configuration the benchmark ran with.
    fn get_config(&self) -> &C;
}

/// What every create-benchmark variant records: the statistics of its
/// operations and the trace captured while it ran.
pub struct CreateFilesShared {
    pub open_stats: Stats,
    pub close_stats: Stats,
    pub fsync_stats: Stats,
    pub sync_stats: Stats,
    pub trace: Trace,
}

impl CreateFilesShared {
    /// All four operations' statistics, merged in open, close, fsync,
    /// sync order.
    pub fn total(&self) -> (r: Stats)
        ensures
            r.latencies() == self.open_stats.latencies() + self.close_stats.latencies()
                + self.fsync_stats.latencies() + self.sync_stats.latencies(),
            r.byte_counts() == self.open_stats.byte_counts() + self.close_stats.byte_counts()
                + self.fsync_stats.byte_counts() + self.sync_stats.byte_counts(),
    {
        self.open_stats.merged(&self.close_stats).merged(&self.fsync_stats).merged(
            &self.sync_stats,
        )
    }
}

/// The completed plain create benchmark.
pub struct CreateFiles {
    pub data: CreateFilesShared,
    pub config: CreateFilesConfig,
}

impl Benchmark<CreateFilesConfig> for CreateFiles {
    fn total(&self) -> (r: Stats)
        ensures
            r.latencies() == self.data.open_stats.latencies() + self.data.close_stats.latencies()
                + self.data.fsync_stats.latencies() + self.data.sync_stats.latencies(),
            r.byte_counts() == self.data.open_stats.byte_counts()
                + self.data.close_stats.byte_counts() + self.data.fsync_stats.byte_counts()
                + self.data.sync_stats.byte_counts(),
    {
        self.data.total()
    }

    fn get_trace(&self) -> (r: &Trace)
        ensures
            *r == self.data.trace,
    {
        &self.data.trace
    }

    fn get_config(&self) -> (r: &CreateFilesConfig)
        ensures
            *r == self.config,
    {
        &self.config
    }
}

/// The completed create benchmark that fsyncs in batches.
pub struct CreateFilesBatchSync {
    pub data: CreateFilesShared,
    pub config: CreateFilesBatchSyncConfig,
}

impl Benchmark<CreateFilesBatchSyncConfig> for CreateFilesBatchSync {
    fn total(&self) -> (r: Stats)
        ensures
            r.latencies() == self.data.open_stats.latencies() + self.data.close_stats.latencies()
                + self.data.fsync_stats.latencies() + self.data.sync_stats.latencies(),
            r.byte_counts() == self.data.open_stats.byte_counts()
                + self.data.close_stats.byte_counts() + self.data.fsync_stats.byte_counts()
                + self.data.sync_stats.byte_counts(),
    {
        self.data.total()
    }

    fn get_trace(&self) -> (r: &Trace)
        ensures
            *r == self.data.trace,
    {
        &self.data.trace
    }

    fn get_config(&self) -> (r: &CreateFilesBatchSyncConfig)
        ensures
            *r == self.config,
    {
        &self.config
    }
}

/// The completed create benchmark that fsyncs every file.
pub struct CreateFilesEachSync {
    pub data: CreateFilesShared,
    pub config: CreateFilesEachSyncConfig,
}

impl Benchmark<CreateFilesEachSyncConfig> for CreateFilesEachSync {
    fn total(&self) -> (r: Stats)
        ensures
            r.latencies() == self.data.open_stats.latencies() + self.data.close_stats.latencies()
                + self.data.fsync_stats.latencies() + self.data.sync_stats.latencies(),
            r.byte_counts() == self.data.open_stats.byte_counts()
                + self.data.close_stats.byte_counts() + self.data.fsync_stats.byte_counts()
                + self.data.sync_stats.byte_counts(),
    {
        self.data.total()
    }

    fn get_trace(&self) -> (r: &Trace)
        ensures
            *r == self.data.trace,
    {
        &self.data.trace
    }

    fn get_config(&self) -> (r: &CreateFilesEachSyncConfig)
        ensures
            *r == self.config,
    {
        &self.config
    }
}

/// The completed delete benchmark.
pub struct DeleteFiles {
    pub open_stats: Stats,
    pub close_stats: Stats,
    pub unlink_stats: Stats,
    pub trace: Trace,
    pub config: DeleteFilesConfig,
}

impl Benchmark<DeleteFilesConfig> for DeleteFiles {
    fn total(&self) -> (r: Stats)
        ensures
            r.latencies() == self.open_stats.latencies() + self.close_stats.latencies()
                + self.unlink_stats.latencies(),
            r.byte_counts() == self.open_stats.byte_counts() + self.close_stats.byte_counts()
                + self.unlink_stats.byte_counts(),
    {
        self.open_stats.merged(&self.close_stats).merged(&self.unlink_stats)
    }

    fn get_trace(&self) -> (r: &Trace)
        ensures
            *r == self.trace,
    {
        &self.trace
    }

    fn get_config(&self) -> (r: &DeleteFilesConfig)
        ensures
            *r == self.config,
    {
        &self.config
    }
}

/// The completed directory-listing benchmark.
pub struct ListDir {
    pub open_stats: Stats,
    pub close_stats: Stats,
    pub readdir_stats: Stats,
    pub trace: Trace,
    pub config: ListDirConfig,
}

impl Benchmark<ListDirConfig> for ListDir {
    fn total(&self) -> (r: Stats)
        ensures
            r.latencies() == self.open_stats.latencies() + self.close_stats.latencies()
                + self.readdir_stats.latencies(),
            r.byte_counts() == self.open_stats.byte_counts() + self.close_stats.byte_counts()
                + self.readdir_stats.byte_counts(),
    {
        self.open_stats.merged(&self.close_stats).merged(&self.readdir_stats)
    }

    fn get_trace(&self) -> (r: &Trace)
        ensures
            *r == self.trace,
    {
        &self.trace
    }

    fn get_config(&self) -> (r: &ListDirConfig)
        ensures
            *r == self.config,
    {
        &self.config
    }
}

/// The completed rename benchmark.
pub struct RenameFiles {
    pub open_stats: Stats,
    pub close_stats: Stats,
    pub rename_stats: Stats,
    pub trace: Trace,
    pub config: RenameFilesConfig,
}

impl Benchmark<RenameFilesConfig> for RenameFiles {
    fn total(&self) -> (r: Stats)
        ensures
            r.latencies() == self.open_stats.latencies() + self.close_stats.latencies()
                + self.rename_stats.latencies(),
            r.byte_counts() == self.open_stats.byte_counts() + self.close_stats.byte_counts()
                + self.rename_stats.byte_counts(),
    {
        self.open_stats.merged(&self.close_stats).merged(&self.rename_stats)
    }

    fn get_trace(&self) -> (r: &Trace)
        ensures
            *r == self.trace,
    {
        &self.trace
    }

    fn get_config(&self) -> (r: &RenameFilesConfig)
        ensures
            *r == self.config,
    {
        &self.config
    }
}

} // verus!
