use mallet::checksum::{Checksum, Object};
use mallet::commit::{commit_changes, initial_records};
use mallet::history::{HistNode, Meta};
use mallet::id::{Id, IdGen};
use mallet::state::{MapState, StateChange};

#[test]
fn initial_records_link_up() {
    let mut gen = IdGen::new();
    let init = initial_records(&mut gen).unwrap();
    assert_eq!(init.state.elements.len(), 0);
    assert_eq!(init.node.parent_id, None);
    assert!(init.node.child_ids.is_empty());
    assert_eq!(init.node.state_id, init.state_id);
    assert_eq!(init.meta.name, "test map");
    assert_eq!(init.meta.hist_node_id, init.hist_id);
    assert_ne!(init.state_id, init.hist_id);
}

#[test]
fn commit_adds_child_and_moves_current() {
    let mut gen = IdGen::new();
    let init = initial_records(&mut gen).unwrap();
    let info = Object::checksum(b"brush info");
    let changes = vec![StateChange::SetInfo { id: Id(42), info }];
    let c = commit_changes(init.meta, init.node, init.state, &changes, &mut gen).unwrap();
    assert_eq!(c.updated_cur.child_ids, vec![c.hist_id]);
    assert_eq!(c.updated_cur.parent_id, None);
    assert_eq!(c.updated_cur.state_id, init.state_id);
    assert_eq!(c.node.parent_id, Some(init.hist_id));
    assert_eq!(c.node.state_id, c.state_id);
    assert!(c.node.child_ids.is_empty());
    assert_eq!(c.meta.hist_node_id, c.hist_id);
    assert_eq!(c.meta.name, "test map");
    let e = c.state.elements.get(&Id(42)).unwrap();
    assert_eq!(e.info, info);
    assert_eq!(e.role, None);
    assert_eq!(e.params, Checksum::nil());
    // undo from the new node returns to the old current node; redo goes back
    assert_eq!(c.node.undo_target(), Some(init.hist_id));
    assert_eq!(c.updated_cur.redo_target(), Some(c.hist_id));
}

#[test]
fn second_commit_appends_after_first() {
    let mut gen = IdGen::new();
    let cur = HistNode::root(Id(1), 0);
    let meta = Meta { name: String::from("m"), hist_node_id: Id(2) };
    let first = commit_changes(meta, cur, MapState::new(), &vec![], &mut gen).unwrap();
    let meta = Meta { name: String::from("m"), hist_node_id: Id(2) };
    let again = commit_changes(meta, first.updated_cur, MapState::new(), &vec![], &mut gen).unwrap();
    assert_eq!(again.updated_cur.child_ids, vec![first.hist_id, again.hist_id]);
    assert_eq!(again.updated_cur.redo_target(), Some(again.hist_id));
}

#[test]
fn initial_records_with_given_ids() {
    let init = mallet::commit::initial_records_with_ids(Id(10), Id(11), 1234);
    assert_eq!(init.state_id, Id(10));
    assert_eq!(init.hist_id, Id(11));
    assert_eq!(init.state.elements.len(), 0);
    assert_eq!(init.node.timestamp, 1234);
    assert_eq!(init.node.parent_id, None);
    assert!(init.node.child_ids.is_empty());
    assert_eq!(init.node.state_id, Id(10));
    assert_eq!(init.meta.name, "test map");
    assert_eq!(init.meta.hist_node_id, Id(11));
}

#[test]
fn commit_with_given_ids() {
    let cur = HistNode { timestamp: 5, parent_id: Some(Id(1)), child_ids: vec![Id(3)], state_id: Id(4) };
    let meta = Meta { name: String::from("m"), hist_node_id: Id(2) };
    let params = Object::checksum(b"params");
    let changes = vec![StateChange::SetParams { id: Id(7), role: 9, params }];
    let c = mallet::commit::commit_changes_with_ids(meta, cur, MapState::new(), &changes, Id(20), Id(21), 99);
    assert_eq!(c.state_id, Id(20));
    assert_eq!(c.hist_id, Id(21));
    assert_eq!(c.updated_cur.timestamp, 5);
    assert_eq!(c.updated_cur.parent_id, Some(Id(1)));
    assert_eq!(c.updated_cur.child_ids, vec![Id(3), Id(21)]);
    assert_eq!(c.updated_cur.state_id, Id(4));
    assert_eq!(c.node.timestamp, 99);
    assert_eq!(c.node.parent_id, Some(Id(2)));
    assert_eq!(c.node.state_id, Id(20));
    assert_eq!(c.meta.hist_node_id, Id(21));
    assert_eq!(c.meta.name, "m");
    let e = c.state.elements.get(&Id(7)).unwrap();
    assert_eq!(e.role, Some(9));
    assert_eq!(e.params, params);
    assert_eq!(e.info, Checksum::nil());
}

#[test]
fn commit_ids_come_after_earlier_ids() {
    let mut gen = IdGen::new();
    let init = initial_records(&mut gen).unwrap();
    assert!(init.state_id < init.hist_id);
    let c = commit_changes(init.meta, init.node, init.state, &vec![], &mut gen).unwrap();
    assert!(init.hist_id < c.state_id);
    assert!(c.state_id < c.hist_id);
}
