use mallet::id::Id;
use mallet::lookup::Entity;
use mallet::selection::{retarget, LiveMapNodeId, SelectionTargets};

fn n(i: u64) -> LiveMapNodeId {
    LiveMapNodeId { node_id: Id(i as u128), entity: Entity(i) }
}

#[test]
fn no_nodes_no_targets() {
    assert!(retarget(None, vec![]).is_none());
    let existing = SelectionTargets { intersecting: vec![n(1)], focused: n(1) };
    assert!(retarget(Some(existing), vec![]).is_none());
}

#[test]
fn new_targets_focus_first() {
    let t = retarget(None, vec![n(3), n(4)]).unwrap();
    assert_eq!(t.focused, n(3));
    assert_eq!(t.intersecting, vec![n(3), n(4)]);
}

#[test]
fn focus_kept_while_present() {
    let existing = SelectionTargets { intersecting: vec![n(1), n(2)], focused: n(2) };
    let t = retarget(Some(existing), vec![n(5), n(2)]).unwrap();
    assert_eq!(t.focused, n(2));
}

#[test]
fn focus_moves_to_first_when_gone() {
    let existing = SelectionTargets { intersecting: vec![n(1), n(2)], focused: n(2) };
    let t = retarget(Some(existing), vec![n(5), n(6)]).unwrap();
    assert_eq!(t.focused, n(5));
}

#[test]
fn scroll_wraps_both_ways() {
    let mut t = SelectionTargets { intersecting: vec![n(1), n(2), n(3)], focused: n(3) };
    t.scroll_intersecting(1);
    assert_eq!(t.focused, n(1));
    t.scroll_intersecting(-1);
    assert_eq!(t.focused, n(3));
    t.scroll_intersecting(-1);
    assert_eq!(t.focused, n(2));
}

#[test]
fn scroll_without_focus_among_targets_does_nothing() {
    let mut t = SelectionTargets { intersecting: vec![n(1), n(2)], focused: n(9) };
    t.scroll_intersecting(1);
    assert_eq!(t.focused, n(9));
}
