//! Turning a batch of element changes into new history records: the records a
//! fresh map starts with, and the records one committed change set adds.

use vstd::prelude::*;

use crate::history::{linked, new_map_name, new_timestamp, redo_spec, undo_spec, HistNode, Meta};
use crate::id::{random_bits_exhausted, Id, IdGen, IdGenError};
use crate::state::{apply_changes_spec, apply_state_changes, MapState, StateChange};

verus! {

/// The records a new map starts with: an empty state, a root history node
/// saving it, and the meta record pointing at that node.
pub struct InitialRecords {
    pub state_id: Id,
    pub state: MapState,
    pub hist_id: Id,
    pub node: HistNode,
    pub meta: Meta,
}

/// The records one committed change set produces.
pub struct Commit {
    /// Identifier of the new state.
    pub state_id: Id,
    /// The new state: the current state with the changes applied.
    pub state: MapState,
    /// The current history node with the new node appended to its children;
    /// it replaces the current node under its identifier.
    pub updated_cur: HistNode,
    /// Identifier of the new history node.
    pub hist_id: Id,
    /// The new history node, a child of the current one, saving the new state.
    pub node: HistNode,
    /// The meta record with the new node as current.
    pub meta: Meta,
}

/// The history records of `c` are those of a change committed on the node
/// `cur_id`, whose record was `cur`: the current node gains the new node as
/// its last child and keeps the rest, and the new node is a childless child of
/// the current one, saving the new state.
pub open spec fn records_commit_on(c: Commit, cur_id: Id, cur: HistNode) -> bool {
    &&& c.updated_cur.timestamp == cur.timestamp
    &&& c.updated_cur.parent_id == cur.parent_id
    &&& c.updated_cur.child_ids@ == cur.child_ids@.push(c.hist_id)
    &&& c.updated_cur.state_id == cur.state_id
    &&& c.node.parent_id == Some(cur_id)
    &&& c.node.child_ids@ == Seq::<Id>::empty()
    &&& c.node.state_id == c.state_id
    &&& c.meta.hist_node_id == c.hist_id
}

/// The records of a new map, with identifiers drawn from `id_gen`: first the
/// state's, then the history node's, so both are larger than anything the
/// generator produced before and the history node's is the generator's last.
pub fn initial_records(id_gen: &mut IdGen) -> (r: Result<InitialRecords, IdGenError>)
    ensures
        match r {
            Ok(init) => {
                &&& init.state.elements@ == Map::<Id, crate::state::ElementState>::empty()
                &&& init.node.parent_id == None::<Id>
                &&& init.node.child_ids@ == Seq::<Id>::empty()
                &&& init.node.state_id == init.state_id
                &&& init.meta.name@ == new_map_name()
                &&& init.meta.hist_node_id == init.hist_id
                &&& old(id_gen).last_id() < init.state_id.0
                &&& init.state_id.0 < init.hist_id.0
                &&& init.hist_id.0 == final(id_gen).last_id()
            },
            Err(e) => {
                &&& e == IdGenError::RandomBitsOverflow
                &&& random_bits_exhausted(final(id_gen).last_id())
                &&& old(id_gen).last_id() <= final(id_gen).last_id()
            },
        },
{
    let state_id = id_gen.generate()?;
    let hist_id = id_gen.generate()?;
    Ok(initial_records_with_ids(state_id, hist_id, new_timestamp()))
}

/// The records of a new map whose state gets the identifier `state_id` and
/// whose root history node, created at `timestamp`, gets `hist_id`.
pub fn initial_records_with_ids(state_id: Id, hist_id: Id, timestamp: i64) -> (r: InitialRecords)
    ensures
        r.state_id == state_id,
        r.state.elements@ == Map::<Id, crate::state::ElementState>::empty(),
        r.hist_id == hist_id,
        r.node.timestamp == timestamp,
        r.node.parent_id == None::<Id>,
        r.node.child_ids@ == Seq::<Id>::empty(),
        r.node.state_id == state_id,
        r.meta.name@ == new_map_name(),
        r.meta.hist_node_id == hist_id,
{
    let state = MapState::new();
    let node = HistNode::root(state_id, timestamp);
    let meta = Meta::initial(hist_id);
    InitialRecords { state_id, state, hist_id, node, meta }
}

/// Commits `changes` made on top of the current node `cur` (the node that
/// `meta` points at, whose state is `state`): the changes are applied to the
/// state in order, the new state is saved under a fresh identifier, and a new
/// history node, a child of the current one, becomes current. Both new
/// identifiers come from `id_gen`, the state's first, so both are larger than
/// anything the generator produced before.
pub fn commit_changes(
    meta: Meta,
    cur: HistNode,
    state: MapState,
    changes: &Vec<StateChange>,
    id_gen: &mut IdGen,
) -> (r: Result<Commit, IdGenError>)
    ensures
        match r {
            Ok(c) => {
                &&& c.state.elements@ == apply_changes_spec(state.elements@, changes@)
                &&& records_commit_on(c, meta.hist_node_id, cur)
                &&& c.meta.name@ == meta.name@
                &&& old(id_gen).last_id() < c.state_id.0
                &&& c.state_id.0 < c.hist_id.0
                &&& c.hist_id.0 == final(id_gen).last_id()
            },
            Err(e) => {
                &&& e == IdGenError::RandomBitsOverflow
                &&& random_bits_exhausted(final(id_gen).last_id())
                &&& old(id_gen).last_id() <= final(id_gen).last_id()
            },
        },
{
    let state_id = id_gen.generate()?;
    let hist_id = id_gen.generate()?;
    Ok(commit_changes_with_ids(meta, cur, state, changes, state_id, hist_id, new_timestamp()))
}

/// Commits `changes` made on top of the current node `cur` (the node that
/// `meta` points at, whose state is `state`), saving the new state under
/// `state_id` and creating the new history node `hist_id` at `timestamp`.
pub fn commit_changes_with_ids(
    meta: Meta,
    cur: HistNode,
    state: MapState,
    changes: &Vec<StateChange>,
    state_id: Id,
    hist_id: Id,
    timestamp: i64,
) -> (c: Commit)
    ensures
        c.state_id == state_id,
        c.hist_id == hist_id,
        c.state.elements@ == apply_changes_spec(state.elements@, changes@),
        records_commit_on(c, meta.hist_node_id, cur),
        c.node.timestamp == timestamp,
        c.meta.name@ == meta.name@,
{
    let mut state = state;
    apply_state_changes(&mut state, changes);
    let cur_id = meta.hist_node_id;
    let updated_cur = cur.with_child(hist_id);
    let node = HistNode::child_of(cur_id, state_id, timestamp);
    let meta = meta.with_current(hist_id);
    Commit { state_id, state, updated_cur, hist_id, node, meta }
}

/// The history of a new map, its root node alone, is linked, and no
/// identifier in it is larger than the generator's last one.
pub proof fn lemma_initial_history_linked(init: InitialRecords)
    requires
        init.node.parent_id == None::<Id>,
        init.node.child_ids@ == Seq::<Id>::empty(),
    ensures
        linked(map![init.hist_id => init.node]),
        forall|k: Id| #[trigger] map![init.hist_id => init.node].contains_key(k) ==> k.0 <= init.hist_id.0,
{
}

/// Committing on the current node of a linked history, whose identifiers all
/// came from the generator before the commit (none larger than its last one
/// then), writes the new node under an identifier that is new to the history,
/// keeps the history linked, leaves no identifier larger than the generator's
/// last one after the commit, and lets undo go back to the old current node
/// and redo return to the new one.
pub proof fn lemma_commit_keeps_history_linked(
    nodes: Map<Id, HistNode>,
    cur_id: Id,
    last_before: u128,
    c: Commit,
)
    requires
        linked(nodes),
        nodes.contains_key(cur_id),
        forall|k: Id| #[trigger] nodes.contains_key(k) ==> k.0 <= last_before,
        records_commit_on(c, cur_id, nodes[cur_id]),
        last_before < c.state_id.0,
        c.state_id.0 < c.hist_id.0,
    ensures
        !nodes.contains_key(c.hist_id),
        linked(nodes.insert(cur_id, c.updated_cur).insert(c.hist_id, c.node)),
        forall|k: Id|
            #[trigger] nodes.insert(cur_id, c.updated_cur).insert(c.hist_id, c.node).contains_key(k)
                ==> k.0 <= c.hist_id.0,
        undo_spec(c.node) == Some(cur_id),
        redo_spec(c.updated_cur) == Some(c.hist_id),
{
    crate::history::lemma_record_change_keeps_linked(nodes, cur_id, c.hist_id, c.updated_cur, c.node);
}

} // verus!
