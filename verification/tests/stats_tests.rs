use fsbench::benchmarks::Benchmark;
use fsbench::benchmarks::Config;
use fsbench::benchmarks::CreateFilesBatchSyncConfig;
use fsbench::benchmarks::CreateFilesConfig;
use fsbench::benchmarks::CreateFilesShared;
use fsbench::benchmarks::DeleteFiles;
use fsbench::benchmarks::DeleteFilesConfig;
use fsbench::benchmarks::Filesystem;
use fsbench::benchmarks::ListDirConfig;
use fsbench::benchmarks::RenameFilesConfig;
use fsbench::operation::Open;
use fsbench::operation::Operation;
use fsbench::statistics::Stats;
use fsbench::trace::Trace;

#[test]
fn stats_accumulate_latency_and_bytes() {
    let mut s = Stats::new();
    assert_eq!(s.num_ops(), 0);
    assert_eq!(s.total_latency(), 0);
    assert_eq!(s.total_bytes(), 0);
    s.record(100, 7);
    s.record(250, 0);
    s.record(650, 13);
    assert_eq!(s.num_ops(), 3);
    assert_eq!(s.total_latency(), 1000);
    assert_eq!(s.total_bytes(), 20);
}

#[test]
fn stats_totals_saturate_instead_of_wrapping() {
    let mut s = Stats::new();
    s.record(u64::MAX, usize::MAX);
    s.record(u64::MAX, usize::MAX);
    assert_eq!(s.total_latency(), u64::MAX);
    assert_eq!(s.total_bytes(), usize::MAX);
}

#[test]
fn merged_stats_concatenate_samples() {
    let mut a = Stats::new();
    a.record(1, 10);
    let mut b = Stats::new();
    b.record(2, 20);
    b.record(3, 30);
    let m = a.merged(&b);
    assert_eq!(m.num_ops(), 3);
    assert_eq!(m.total_latency(), 6);
    assert_eq!(m.total_bytes(), 60);
    // The parts are unchanged.
    assert_eq!(a.num_ops(), 1);
    assert_eq!(b.num_ops(), 2);
}

#[test]
fn operations_report_their_recorded_stats() {
    let mut op = Open::new();
    op.record(500, 0);
    op.record(700, 0);
    let stats = op.get_stats();
    assert_eq!(stats.num_ops(), 2);
    assert_eq!(stats.total_latency(), 1200);
}

#[test]
fn create_config_is_tuned_for_ext4() {
    let tuned = CreateFilesConfig::config_for(&Filesystem::Ext4);
    assert_eq!(tuned.num_files, 30000);
    assert_eq!(tuned.dir_width, 7);
    let tuned = CreateFilesConfig::config_for(&Filesystem::Ext4NoJournal);
    assert_eq!(tuned.num_files, 30000);
    let plain = CreateFilesConfig::config_for(&Filesystem::Xfs);
    assert_eq!(plain.num_files, 10000);
    assert_eq!(plain.dir_width, 7);
    assert_eq!(plain.num_files(), 10000);
}

#[test]
fn other_configs_use_defaults() {
    let c = CreateFilesBatchSyncConfig::config_for(&Filesystem::Btrfs);
    assert_eq!((c.num_files, c.dir_width, c.batch_size), (10000, 7, 10));
    let d = DeleteFilesConfig::default();
    assert_eq!((d.num_files, d.dir_width), (10000, 7));
    let l = ListDirConfig::config_for(&Filesystem::F2fs);
    assert_eq!((l.num_files, l.dir_width), (10000, 7));
    assert_eq!(l.module_name, "f2fs");
    let r = RenameFilesConfig::config_for(&Filesystem::Ext2);
    assert_eq!((r.num_files, r.dir_width), (10000, 7));
}

#[test]
fn filesystem_names() {
    assert_eq!(Filesystem::Ext2.name(), "ext2");
    assert_eq!(Filesystem::Ext4.name(), "ext4");
    assert_eq!(Filesystem::Ext4NoJournal.name(), "ext4-no-journal");
    assert_eq!(Filesystem::Xfs.name(), "xfs");
    assert_eq!(Filesystem::Btrfs.name(), "btrfs");
    assert_eq!(Filesystem::F2fs.name(), "f2fs");
}

#[test]
fn benchmark_total_merges_operation_stats() {
    let mut open_stats = Stats::new();
    open_stats.record(10, 0);
    let mut close_stats = Stats::new();
    close_stats.record(20, 0);
    let mut unlink_stats = Stats::new();
    unlink_stats.record(30, 0);
    let bench = DeleteFiles {
        open_stats,
        close_stats,
        unlink_stats,
        trace: Trace::new(Vec::new(), 0),
        config: DeleteFilesConfig::default(),
    };
    let total = bench.total();
    assert_eq!(total.num_ops(), 3);
    assert_eq!(total.total_latency(), 60);
    assert_eq!(bench.get_trace().num_cpus(), 0);
    assert_eq!(bench.get_config().num_files, 10000);
}

#[test]
fn create_shared_total_covers_all_four_operations() {
    let mut open_stats = Stats::new();
    open_stats.record(1, 0);
    let mut close_stats = Stats::new();
    close_stats.record(2, 0);
    let mut fsync_stats = Stats::new();
    fsync_stats.record(3, 0);
    let mut sync_stats = Stats::new();
    sync_stats.record(4, 0);
    let shared = CreateFilesShared {
        open_stats,
        close_stats,
        fsync_stats,
        sync_stats,
        trace: Trace::new(Vec::new(), 0),
    };
    assert_eq!(shared.total().total_latency(), 10);
    assert_eq!(shared.total().num_ops(), 4);
}
