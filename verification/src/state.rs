//! Saved map states: for each element, its role and the checksums of its
//! info and parameters, and the changes that fill a state in.

use vstd::prelude::*;

use crate::checksum::{nil_checksum, Checksum};
use crate::id::Id;
use crate::idmap::IdMap;

verus! {

/// What a saved state records of one element.
#[derive(Clone, Copy, Debug)]
pub struct ElementState {
    /// Role of the element, used to rebuild the right kind of element.
    pub role: Option<u64>,
    /// Checksum of the element's info object.
    pub info: Checksum,
    /// Checksum of the element's parameter object.
    pub params: Checksum,
}

/// A saved map state.
pub struct MapState {
    pub elements: IdMap<ElementState>,
}

/// A change to the state being snapshotted.
#[derive(Clone, Copy, Debug)]
pub enum StateChange {
    SetInfo { id: Id, info: Checksum },
    SetParams { id: Id, role: u64, params: Checksum },
}

/// The element map after one change: an existing element gets the new info
/// (or role and parameters) and keeps the rest; a new element starts with no
/// role and nil checksums for what the change does not set.
pub open spec fn apply_change_spec(
    m: Map<Id, ElementState>,
    change: StateChange,
) -> Map<Id, ElementState> {
    match change {
        StateChange::SetInfo { id, info } => if m.contains_key(id) {
            m.insert(id, ElementState { info: info, ..m[id] })
        } else {
            m.insert(id, ElementState { role: None, info: info, params: nil_checksum() })
        },
        StateChange::SetParams { id, role, params } => if m.contains_key(id) {
            m.insert(id, ElementState { role: Some(role), params: params, ..m[id] })
        } else {
            m.insert(id, ElementState { role: Some(role), info: nil_checksum(), params: params })
        },
    }
}

/// The element map after a sequence of changes, in order.
pub open spec fn apply_changes_spec(
    m: Map<Id, ElementState>,
    changes: Seq<StateChange>,
) -> Map<Id, ElementState>
    decreases changes.len(),
{
    if changes.len() == 0 {
        m
    } else {
        apply_change_spec(apply_changes_spec(m, changes.drop_last()), changes.last())
    }
}

/// Whether an element's info must be stored again: the element is not in the
/// state yet, or its stored info checksum differs.
pub open spec fn info_sync_needed(m: Map<Id, ElementState>, id: Id, info: Checksum) -> bool {
    !m.contains_key(id) || m[id].info.0@ != info.0@
}

/// Whether an element's parameters must be stored again.
pub open spec fn params_sync_needed(m: Map<Id, ElementState>, id: Id, params: Checksum) -> bool {
    !m.contains_key(id) || m[id].params.0@ != params.0@
}

/// What one change does to the element it names, field by field, in `after`
/// against `before`: setting info changes only the info, setting parameters
/// changes only the role and parameters; an element new to the state starts
/// with no role and nil checksums for what the change does not set; and no
/// other element changes.
pub open spec fn change_sets_fields(
    before: Map<Id, ElementState>,
    change: StateChange,
    after: Map<Id, ElementState>,
) -> bool {
    let id = match change {
        StateChange::SetInfo { id, .. } => id,
        StateChange::SetParams { id, .. } => id,
    };
    &&& after.contains_key(id)
    &&& match change {
        StateChange::SetInfo { info, .. } => {
            &&& after[id].info == info
            &&& before.contains_key(id) ==> after[id].role == before[id].role
                && after[id].params == before[id].params
            &&& !before.contains_key(id) ==> after[id].role == None::<u64>
                && after[id].params == nil_checksum()
        },
        StateChange::SetParams { role, params, .. } => {
            &&& after[id].role == Some(role)
            &&& after[id].params == params
            &&& before.contains_key(id) ==> after[id].info == before[id].info
            &&& !before.contains_key(id) ==> after[id].info == nil_checksum()
        },
    }
    &&& forall|k: Id|
        k != id ==> (#[trigger] after.contains_key(k) == before.contains_key(k)) && (
        before.contains_key(k) ==> after[k] == before[k])
}

/// Applying a change sets exactly the fields it names on its element and
/// keeps the element's other fields and every other element.
pub proof fn lemma_apply_change_fields(m: Map<Id, ElementState>, change: StateChange)
    ensures
        change_sets_fields(m, change, apply_change_spec(m, change)),
{
}

impl MapState {
    /// A state with no elements.
    pub fn new() -> (r: MapState)
        ensures
            r.elements@ == Map::<Id, ElementState>::empty(),
    {
        MapState { elements: IdMap::new() }
    }

    /// Applies one change.
    pub fn apply_change(&mut self, change: &StateChange)
        ensures
            final(self).elements@ == apply_change_spec(old(self).elements@, *change),
            change_sets_fields(old(self).elements@, *change, final(self).elements@),
    {
        proof {
            lemma_apply_change_fields(self.elements@, *change);
        }
        match *change {
            StateChange::SetInfo { id, info } => {
                let new_elem = match self.elements.get(&id) {
                    Some(elem) => ElementState { info, ..*elem },
                    None => ElementState { role: None, info, params: Checksum::nil() },
                };
                self.elements.insert(id, new_elem);
            },
            StateChange::SetParams { id, role, params } => {
                let new_elem = match self.elements.get(&id) {
                    Some(elem) => ElementState { role: Some(role), params, ..*elem },
                    None => ElementState { role: Some(role), info: Checksum::nil(), params },
                };
                self.elements.insert(id, new_elem);
            },
        }
    }

    /// Whether an element's info must be stored again.
    pub fn needs_info_sync(&self, id: &Id, info: &Checksum) -> (r: bool)
        ensures
            r == info_sync_needed(self.elements@, *id, *info),
    {
        match self.elements.get(id) {
            Some(existing) => *info != existing.info,
            None => true,
        }
    }

    /// Whether an element's parameters must be stored again.
    pub fn needs_params_sync(&self, id: &Id, params: &Checksum) -> (r: bool)
        ensures
            r == params_sync_needed(self.elements@, *id, *params),
    {
        match self.elements.get(id) {
            Some(existing) => *params != existing.params,
            None => true,
        }
    }
}

/// Applies the collected changes to the state, in order.
pub fn apply_state_changes(state: &mut MapState, changes: &Vec<StateChange>)
    ensures
        final(state).elements@ == apply_changes_spec(old(state).elements@, changes@),
{
    let mut i: usize = 0;
    while i < changes.len()
        invariant
            i <= changes@.len(),
            state.elements@ == apply_changes_spec(old(state).elements@, changes@.take(i as int)),
        decreases changes@.len() - i,
    {
        state.apply_change(&changes[i]);
        assert(changes@.take(i + 1).drop_last() =~= changes@.take(i as int));
        i = i + 1;
    }
    assert(changes@.take(changes@.len() as int) =~= changes@);
}

/// Once an element's info has been recorded, the same info needs no second
/// store; likewise for parameters.
pub proof fn lemma_synced_needs_no_sync(m: Map<Id, ElementState>, change: StateChange)
    ensures
        match change {
            StateChange::SetInfo { id, info } => !info_sync_needed(
                apply_change_spec(m, change),
                id,
                info,
            ),
            StateChange::SetParams { id, params, .. } => !params_sync_needed(
                apply_change_spec(m, change),
                id,
                params,
            ),
        },
{
}

/// Applying the same change twice has the effect of applying it once.
pub proof fn lemma_apply_change_idempotent(m: Map<Id, ElementState>, change: StateChange)
    ensures
        apply_change_spec(apply_change_spec(m, change), change) == apply_change_spec(m, change),
{
    match change {
        StateChange::SetInfo { id, info } => {
            assert(apply_change_spec(apply_change_spec(m, change), change) =~= apply_change_spec(
                m,
                change,
            ));
        },
        StateChange::SetParams { id, role, params } => {
            assert(apply_change_spec(apply_change_spec(m, change), change) =~= apply_change_spec(
                m,
                change,
            ));
        },
    }
}

/// A change touches only the element it names.
pub proof fn lemma_apply_change_frame(m: Map<Id, ElementState>, change: StateChange, other: Id)
    requires
        other != (match change {
            StateChange::SetInfo { id, .. } => id,
            StateChange::SetParams { id, .. } => id,
        }),
    ensures
        apply_change_spec(m, change).contains_key(other) == m.contains_key(other),
        m.contains_key(other) ==> apply_change_spec(m, change)[other] == m[other],
{
}

} // verus!
