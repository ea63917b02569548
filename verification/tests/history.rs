use mallet::history::{new_timestamp, record_change, HistNode, Meta};
use mallet::id::Id;

#[test]
fn root_node_has_no_parent_nor_children() {
    let root = HistNode::root(Id(10), 1234);
    assert_eq!(root.parent_id, None);
    assert!(root.child_ids.is_empty());
    assert_eq!(root.state_id, Id(10));
    assert_eq!(root.timestamp, 1234);
    assert_eq!(root.undo_target(), None);
    assert_eq!(root.redo_target(), None);
}

#[test]
fn undo_and_redo_after_change() {
    let root = HistNode::root(Id(10), 1);
    let (updated_root, first) = record_change(Id(1), root, Id(2), Id(20), 2);
    assert_eq!(updated_root.child_ids, vec![Id(2)]);
    assert_eq!(updated_root.state_id, Id(10));
    assert_eq!(first.parent_id, Some(Id(1)));
    assert_eq!(first.state_id, Id(20));
    assert_eq!(first.timestamp, 2);
    assert_eq!(first.undo_target(), Some(Id(1)));
    assert_eq!(updated_root.redo_target(), Some(Id(2)));
}

#[test]
fn redo_goes_to_latest_branch() {
    let root = HistNode::root(Id(10), 1);
    let (root, _) = record_change(Id(1), root, Id(2), Id(20), 2);
    let (root, _) = record_change(Id(1), root, Id(3), Id(30), 3);
    assert_eq!(root.child_ids, vec![Id(2), Id(3)]);
    assert_eq!(root.redo_target(), Some(Id(3)));
}

#[test]
fn new_map_meta() {
    let meta = Meta::initial(Id(5));
    assert_eq!(meta.name, "test map");
    assert_eq!(meta.hist_node_id, Id(5));
    let moved = meta.with_current(Id(6));
    assert_eq!(moved.name, "test map");
    assert_eq!(moved.hist_node_id, Id(6));
}

#[test]
fn timestamp_is_recent() {
    // Later than 2020-01-01.
    assert!(new_timestamp() > 1_577_836_800);
}
