use mls_core::errors::TreeSyncDiffError;
use mls_core::treesync::{PathEntry, TreeSync};

fn entry(key: u8, hash: Vec<u8>) -> PathEntry {
    PathEntry { public_key: vec![key; 32], parent_hash: hash }
}

/// A tree of four leaves with members at leaves 0, 1 and 3, and a valid
/// path set from leaf 0.
fn populated() -> TreeSync {
    let mut tree = TreeSync::new(2).unwrap();
    let mut diff = tree.empty_diff();
    diff.merge_leaf(0, vec![10; 32]).unwrap();
    diff.merge_leaf(1, vec![11; 32]).unwrap();
    diff.merge_leaf(3, vec![13; 32]).unwrap();
    tree.merge_diff(diff).unwrap();
    let mut probe = tree.empty_diff();
    probe.apply_path(0, vec![entry(1, vec![]), entry(3, vec![])]).unwrap();
    let hash = probe.parent_hash(1, 1).unwrap();
    let mut diff = tree.empty_diff();
    diff.apply_path(0, vec![entry(1, hash), entry(3, vec![])]).unwrap();
    tree.merge_diff(diff).unwrap();
    tree
}

#[test]
fn new_tree_is_blank() {
    let tree = TreeSync::new(3).unwrap();
    assert_eq!(tree.leaf_count(), 8);
    for i in 0..8 {
        assert_eq!(tree.leaf_key(i), None);
    }
    assert!(TreeSync::new(17).is_none());
}

#[test]
fn path_length_is_checked() {
    let tree = TreeSync::new(2).unwrap();
    let mut diff = tree.empty_diff();
    assert_eq!(diff.apply_path(0, vec![entry(1, vec![])]), Err(TreeSyncDiffError::PathLengthError));
    assert_eq!(
        diff.apply_path(0, vec![entry(1, vec![]), entry(2, vec![]), entry(3, vec![])]),
        Err(TreeSyncDiffError::PathLengthError)
    );
    assert_eq!(diff.apply_path(9, vec![entry(1, vec![]), entry(2, vec![])]), Err(TreeSyncDiffError::LibraryError));
}

#[test]
fn valid_path_merges() {
    let tree = populated();
    assert_eq!(tree.leaf_key(0), Some(vec![10; 32]));
    assert_eq!(tree.leaf_key(3), Some(vec![13; 32]));
    assert_eq!(tree.leaf_key(2), None);
}

#[test]
fn parent_hash_covers_sibling_resolution() {
    let tree = populated();
    let diff = tree.empty_diff();
    // The sibling of node 1 is node 5, blank, whose resolution is leaf 3.
    let mut expected = vec![0u8, 32];
    expected.extend_from_slice(&[13; 32]);
    assert_eq!(diff.resolution_of(5, 1), expected);
    assert_eq!(diff.parent_hash(3, 2), Some(vec![]));
    assert_eq!(diff.parent_hash(1, 1).unwrap().len(), 32);
}

#[test]
fn corrupted_parent_hash_is_rejected() {
    let mut tree = TreeSync::new(2).unwrap();
    let mut probe = tree.empty_diff();
    probe.apply_path(2, vec![entry(5, vec![]), entry(6, vec![])]).unwrap();
    let mut hash = probe.parent_hash(5, 1).unwrap();
    hash[7] ^= 0x01;
    let mut diff = tree.empty_diff();
    diff.apply_path(2, vec![entry(5, hash), entry(6, vec![])]).unwrap();
    assert_eq!(diff.validate(), Err(TreeSyncDiffError::InvalidParentHash));
    assert_eq!(tree.merge_diff(diff), Err(TreeSyncDiffError::InvalidParentHash));
}

#[test]
fn failed_merge_leaves_tree_unchanged() {
    let mut tree = populated();
    let mut diff = tree.empty_diff();
    diff.merge_leaf(2, vec![99; 32]).unwrap();
    diff.blank_leaf(0).unwrap();
    diff.apply_path(1, vec![entry(7, vec![1, 2, 3]), entry(8, vec![])]).unwrap();
    assert_eq!(tree.merge_diff(diff), Err(TreeSyncDiffError::InvalidParentHash));
    assert_eq!(tree.leaf_key(0), Some(vec![10; 32]));
    assert_eq!(tree.leaf_key(1), Some(vec![11; 32]));
    assert_eq!(tree.leaf_key(2), None);
    assert_eq!(tree.leaf_key(3), Some(vec![13; 32]));
}

#[test]
fn duplicate_key_is_rejected_at_merge() {
    for (existing, added) in [(0usize, 2usize), (3, 0), (1, 2)] {
        let mut tree = populated();
        let key = tree.leaf_key(existing).unwrap();
        let mut diff = tree.empty_diff();
        assert!(diff.merge_leaf(added, key).is_ok());
        assert_eq!(diff.validate(), Err(TreeSyncDiffError::DuplicateKeyPackage));
        assert_eq!(tree.merge_diff(diff), Err(TreeSyncDiffError::DuplicateKeyPackage));
        assert_eq!(tree.leaf_key(2), None);
    }
}

#[test]
fn duplicate_key_in_larger_tree() {
    let mut tree = TreeSync::new(4).unwrap();
    let mut diff = tree.empty_diff();
    diff.merge_leaf(0, vec![1; 32]).unwrap();
    diff.merge_leaf(15, vec![1; 32]).unwrap();
    assert_eq!(tree.merge_diff(diff), Err(TreeSyncDiffError::DuplicateKeyPackage));
    assert_eq!(tree.leaf_key(0), None);
}

#[test]
fn blanked_leaf_can_be_reused() {
    let mut tree = populated();
    let mut diff = tree.empty_diff();
    diff.blank_leaf(1).unwrap();
    diff.merge_leaf(2, vec![11; 32]).unwrap();
    assert_eq!(tree.merge_diff(diff), Ok(()));
    assert_eq!(tree.leaf_key(1), None);
    assert_eq!(tree.leaf_key(2), Some(vec![11; 32]));
}

#[test]
fn filtered_resolution_skips_excluded_leaves() {
    let mut tree = TreeSync::new(2).unwrap();
    let mut diff = tree.empty_diff();
    diff.merge_leaf(0, vec![10; 2]).unwrap();
    diff.merge_leaf(1, vec![11; 2]).unwrap();
    diff.merge_leaf(3, vec![13; 2]).unwrap();
    tree.merge_diff(diff).unwrap();
    let diff = tree.empty_diff();
    // The root is blank: its resolution is every member, left to right.
    assert_eq!(diff.filtered_resolution(3, 2, &vec![]), vec![0, 2, 10, 10, 0, 2, 11, 11, 0, 2, 13, 13]);
    assert_eq!(diff.filtered_resolution(3, 2, &vec![1]), vec![0, 2, 10, 10, 0, 2, 13, 13]);
    assert_eq!(diff.filtered_resolution(3, 2, &vec![0, 1, 3]), Vec::<u8>::new());
    assert_eq!(diff.resolution_of(3, 2), diff.filtered_resolution(3, 2, &vec![]));
}

#[test]
fn tree_hash_follows_merges_only() {
    let mut tree = populated();
    let before = tree.tree_hash();
    assert_eq!(before.len(), 32);
    let mut diff = tree.empty_diff();
    diff.merge_leaf(2, vec![10; 32]).unwrap();
    assert_eq!(tree.merge_diff(diff), Err(TreeSyncDiffError::DuplicateKeyPackage));
    assert_eq!(tree.tree_hash(), before);
    let mut diff = tree.empty_diff();
    diff.merge_leaf(2, vec![12; 32]).unwrap();
    assert_eq!(tree.merge_diff(diff), Ok(()));
    assert_ne!(tree.tree_hash(), before);
    assert_ne!(TreeSync::new(1).unwrap().tree_hash(), TreeSync::new(2).unwrap().tree_hash());
}
