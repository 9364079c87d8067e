use fsbench::fileset::decimal_bytes;
use fsbench::fileset::tree_depth;
use fsbench::fileset::FileSet;

#[test]
fn decimal_formatting() {
    assert_eq!(decimal_bytes(0), b"0".to_vec());
    assert_eq!(decimal_bytes(7), b"7".to_vec());
    assert_eq!(decimal_bytes(10), b"10".to_vec());
    assert_eq!(decimal_bytes(123), b"123".to_vec());
    assert_eq!(decimal_bytes(30000), b"30000".to_vec());
}

#[test]
fn tree_depth_is_the_least_sufficient_exponent() {
    assert_eq!(tree_depth(0, 7), 0);
    assert_eq!(tree_depth(1, 7), 0);
    assert_eq!(tree_depth(2, 7), 1);
    assert_eq!(tree_depth(7, 7), 1);
    assert_eq!(tree_depth(8, 7), 2);
    assert_eq!(tree_depth(9, 3), 2);
    assert_eq!(tree_depth(10, 3), 3);
    assert_eq!(tree_depth(30000, 7), 6);
}

#[test]
fn fileset_walks_an_odometer_of_paths() {
    let set = FileSet::new(10, b"/mnt/test".to_vec(), 3);
    let mut it = set.into_iter();
    let mut paths: Vec<Vec<u8>> = Vec::new();
    while let Some(p) = it.next() {
        paths.push(p);
    }
    let expected: Vec<&[u8]> = vec![
        b"/mnt/test/0/0/1",
        b"/mnt/test/0/0/2",
        b"/mnt/test/0/1/0",
        b"/mnt/test/0/1/1",
        b"/mnt/test/0/1/2",
        b"/mnt/test/0/2/0",
        b"/mnt/test/0/2/1",
        b"/mnt/test/0/2/2",
        b"/mnt/test/1/0/0",
        b"/mnt/test/1/0/1",
    ];
    assert_eq!(paths.len(), expected.len());
    for (got, want) in paths.iter().zip(expected.iter()) {
        assert_eq!(got.as_slice(), *want);
    }
}

#[test]
fn fileset_yields_exactly_num_files_distinct_paths() {
    let set = FileSet::new(50, b"/base".to_vec(), 7);
    let mut it = set.into_iter();
    let mut paths: Vec<Vec<u8>> = Vec::new();
    while let Some(p) = it.next() {
        paths.push(p);
    }
    assert_eq!(paths.len(), 50);
    let mut unique = paths.clone();
    unique.sort();
    unique.dedup();
    assert_eq!(unique.len(), 50, "paths are pairwise distinct");
    assert!(it.next().is_none(), "the iterator stays exhausted");
}

#[test]
fn empty_fileset_yields_nothing() {
    let set = FileSet::new(0, b"/base".to_vec(), 4);
    let mut it = set.into_iter();
    assert!(it.next().is_none());
}
