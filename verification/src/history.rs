//! The map's edit history: a tree of history nodes, each pointing at a saved
//! map state, with the current node recorded in the map's meta record.

use vstd::prelude::*;

use crate::id::Id;

verus! {

/// A node of the history tree.
#[derive(Debug)]
pub struct HistNode {
    /// Unix time (seconds) at which the node was created.
    pub timestamp: i64,
    /// The node this one was derived from; `None` for the first node.
    pub parent_id: Option<Id>,
    /// Nodes derived from this one, oldest first.
    pub child_ids: Vec<Id>,
    /// The map state saved at this node.
    pub state_id: Id,
}

/// The map's meta record.
#[derive(Debug)]
pub struct Meta {
    pub name: String,
    /// The current history node.
    pub hist_node_id: Id,
}

/// Name given to a newly created map.
pub open spec fn new_map_name() -> Seq<char> {
    "test map"@
}

/// Where an undo goes from a node: its parent.
pub open spec fn undo_spec(node: HistNode) -> Option<Id> {
    node.parent_id
}

/// Where a redo goes from a node: its most recently added child.
pub open spec fn redo_spec(node: HistNode) -> Option<Id> {
    if node.child_ids@.len() == 0 {
        None
    } else {
        Some(node.child_ids@.last())
    }
}

/// The current Unix time in seconds: `time::OffsetDateTime::now_utc()`
/// followed by `unix_timestamp()`. It reads the clock, so nothing is stated
/// of the value.
#[verifier::external_body]
pub fn new_timestamp() -> (r: i64) {
    time::OffsetDateTime::now_utc().unix_timestamp()
}

impl HistNode {
    /// The first node of a new map's history.
    pub fn root(state_id: Id, timestamp: i64) -> (r: HistNode)
        ensures
            r.timestamp == timestamp,
            r.parent_id == None::<Id>,
            r.child_ids@ == Seq::<Id>::empty(),
            r.state_id == state_id,
    {
        HistNode { timestamp, parent_id: None, child_ids: Vec::new(), state_id }
    }

    /// A new node derived from `parent_id`, saving `state_id`.
    pub fn child_of(parent_id: Id, state_id: Id, timestamp: i64) -> (r: HistNode)
        ensures
            r.timestamp == timestamp,
            r.parent_id == Some(parent_id),
            r.child_ids@ == Seq::<Id>::empty(),
            r.state_id == state_id,
    {
        HistNode { timestamp, parent_id: Some(parent_id), child_ids: Vec::new(), state_id }
    }

    /// The node with `child_id` appended to its children.
    pub fn with_child(self, child_id: Id) -> (r: HistNode)
        ensures
            r.timestamp == self.timestamp,
            r.parent_id == self.parent_id,
            r.child_ids@ == self.child_ids@.push(child_id),
            r.state_id == self.state_id,
    {
        let mut child_ids = self.child_ids;
        child_ids.push(child_id);
        HistNode { child_ids, ..self }
    }

    /// The node an undo jumps to.
    pub fn undo_target(&self) -> (r: Option<Id>)
        ensures
            r == undo_spec(*self),
    {
        self.parent_id
    }

    /// The node a redo jumps to.
    pub fn redo_target(&self) -> (r: Option<Id>)
        ensures
            r == redo_spec(*self),
    {
        let n = self.child_ids.len();
        if n == 0 {
            None
        } else {
            Some(self.child_ids[n - 1])
        }
    }
}

/// Records a change made on top of the current node `cur_id`: returns the
/// current node with the new node appended to its children, and the new node,
/// derived from the current one and saving `new_state_id`.
pub fn record_change(
    cur_id: Id,
    cur: HistNode,
    new_hist_id: Id,
    new_state_id: Id,
    timestamp: i64,
) -> (r: (HistNode, HistNode))
    ensures
        r.0.timestamp == cur.timestamp,
        r.0.parent_id == cur.parent_id,
        r.0.child_ids@ == cur.child_ids@.push(new_hist_id),
        r.0.state_id == cur.state_id,
        r.1.timestamp == timestamp,
        r.1.parent_id == Some(cur_id),
        r.1.child_ids@ == Seq::<Id>::empty(),
        r.1.state_id == new_state_id,
{
    let updated = cur.with_child(new_hist_id);
    let new_node = HistNode::child_of(cur_id, new_state_id, timestamp);
    (updated, new_node)
}

impl Meta {
    /// The meta record of a new map whose history starts at `hist_node_id`.
    pub fn initial(hist_node_id: Id) -> (r: Meta)
        ensures
            r.name@ == new_map_name(),
            r.hist_node_id == hist_node_id,
    {
        Meta { name: String::from_str("test map"), hist_node_id }
    }

    /// The meta record with `hist_node_id` as the current node.
    pub fn with_current(self, hist_node_id: Id) -> (r: Meta)
        ensures
            r.name@ == self.name@,
            r.hist_node_id == hist_node_id,
    {
        Meta { hist_node_id, ..self }
    }
}

/// Every child link of the history tables has a matching parent link and the
/// other way round.
pub open spec fn linked(nodes: Map<Id, HistNode>) -> bool {
    &&& forall|n: Id, i: int|
        #![trigger nodes[n].child_ids@[i]]
        nodes.contains_key(n) && 0 <= i < nodes[n].child_ids@.len() ==> {
            &&& nodes.contains_key(nodes[n].child_ids@[i])
            &&& nodes[nodes[n].child_ids@[i]].parent_id == Some(n)
        }
    &&& forall|n: Id|
        #![trigger nodes[n].parent_id]
        nodes.contains_key(n) && nodes[n].parent_id is Some ==> {
            &&& nodes.contains_key(nodes[n].parent_id->0)
            &&& nodes[nodes[n].parent_id->0].child_ids@.contains(n)
        }
}

/// Undoing a recorded change goes back to the node it was recorded on, and
/// redoing from there goes to the new node.
pub proof fn lemma_undo_redo_after_change(
    cur_id: Id,
    cur: HistNode,
    new_hist_id: Id,
    new_state_id: Id,
    timestamp: i64,
    updated: HistNode,
    new_node: HistNode,
)
    requires
        updated.child_ids@ == cur.child_ids@.push(new_hist_id),
        new_node.parent_id == Some(cur_id),
    ensures
        undo_spec(new_node) == Some(cur_id),
        redo_spec(updated) == Some(new_hist_id),
{
}

/// Recording a change on the current node with a fresh identifier keeps the
/// history tables linked.
pub proof fn lemma_record_change_keeps_linked(
    nodes: Map<Id, HistNode>,
    cur_id: Id,
    new_hist_id: Id,
    updated: HistNode,
    new_node: HistNode,
)
    requires
        linked(nodes),
        nodes.contains_key(cur_id),
        !nodes.contains_key(new_hist_id),
        updated.parent_id == nodes[cur_id].parent_id,
        updated.child_ids@ == nodes[cur_id].child_ids@.push(new_hist_id),
        new_node.parent_id == Some(cur_id),
        new_node.child_ids@ == Seq::<Id>::empty(),
    ensures
        linked(nodes.insert(cur_id, updated).insert(new_hist_id, new_node)),
{
    let after = nodes.insert(cur_id, updated).insert(new_hist_id, new_node);
    assert forall|n: Id, i: int|
        #![trigger after[n].child_ids@[i]]
        after.contains_key(n) && 0 <= i < after[n].child_ids@.len() implies {
            &&& after.contains_key(after[n].child_ids@[i])
            &&& after[after[n].child_ids@[i]].parent_id == Some(n)
        } by {
        if n == new_hist_id {
        } else if n == cur_id {
            if i < nodes[cur_id].child_ids@.len() {
                let c = nodes[cur_id].child_ids@[i];
                assert(after[n].child_ids@[i] == c);
                assert(nodes.contains_key(c));
                assert(c != new_hist_id);
                if c == cur_id {
                    assert(nodes[c].parent_id == Some(cur_id));
                }
            }
        } else {
            let c = nodes[n].child_ids@[i];
            assert(nodes.contains_key(c));
            assert(nodes[c].parent_id == Some(n));
            if c == cur_id {
                assert(after[c].parent_id == nodes[cur_id].parent_id);
            }
        }
    }
    assert forall|n: Id|
        #![trigger after[n].parent_id]
        after.contains_key(n) && after[n].parent_id is Some implies {
            &&& after.contains_key(after[n].parent_id->0)
            &&& after[after[n].parent_id->0].child_ids@.contains(n)
        } by {
        if n == new_hist_id {
            assert(after[cur_id].child_ids@.last() == new_hist_id);
            assert(after[cur_id].child_ids@[after[cur_id].child_ids@.len() - 1] == new_hist_id);
        } else {
            let p = nodes[n].parent_id->0;
            assert(nodes.contains_key(p));
            assert(nodes[p].child_ids@.contains(n));
            let k = choose|k: int| 0 <= k < nodes[p].child_ids@.len() && nodes[p].child_ids@[k] == n;
            if p == cur_id {
                assert(after[p].child_ids@[k] == n);
            } else {
                assert(p != new_hist_id);
                assert(after[p].child_ids@[k] == n);
            }
        }
    }
}

} // verus!
