//! Map element descriptions shared by the element registry and the
//! key-value map store: element roles, element metadata, and the identifier
//! a newly created element gets.

use vstd::prelude::*;

use crate::checksum::Checksum;
use crate::id::Id;

verus! {

/// The kind of a map element.
#[derive(PartialEq, Eq, Structural, Clone, Copy, Debug, Hash)]
pub enum ElemRole {
    Brush,
    Light,
}

/// Name and role of a map element.
#[derive(Clone, Debug)]
pub struct ElemMeta {
    pub name: String,
    pub role: ElemRole,
}

/// Metadata given when creating an element, before its role is known.
#[derive(Clone, Debug)]
pub struct NewMeta {
    pub name: String,
}

impl ElemMeta {
    /// The metadata of a new element of role `role`.
    pub fn from_new(value: &NewMeta, role: ElemRole) -> (r: ElemMeta)
        ensures
            r.name@ == value.name@,
            r.role == role,
    {
        ElemMeta { role, name: value.name.clone() }
    }
}

impl From<ElemMeta> for NewMeta {
    /// Keeps the name, dropping the role.
    fn from(meta: ElemMeta) -> (r: NewMeta) {
        NewMeta { name: meta.name }
    }
}

impl vstd::std_specs::convert::FromSpecImpl<ElemMeta> for NewMeta {
    open spec fn obeys_from_spec() -> bool {
        true
    }

    open spec fn from_spec(meta: ElemMeta) -> NewMeta {
        NewMeta { name: meta.name }
    }
}

/// How a new element gets its identifier.
#[derive(PartialEq, Eq, Structural, Clone, Copy, Debug)]
pub enum NewElemId {
    /// The element comes from a saved state and keeps its identifier.
    Loaded(Id),
    /// The element is new and gets a generated identifier.
    Generated,
}

impl NewElemId {
    pub fn loaded_id_or_none(&self) -> (r: Option<Id>)
        ensures
            match *self {
                NewElemId::Loaded(id) => r == Some(id),
                NewElemId::Generated => r is None,
            },
    {
        match self {
            NewElemId::Loaded(id) => Some(*id),
            NewElemId::Generated => None,
        }
    }
}

/// What a saved list state records of one element.
#[derive(Clone, Copy, Debug)]
pub struct ElemState {
    pub id: Id,
    pub meta: Checksum,
    pub params: Checksum,
}

impl ElemState {
    pub fn params(&self) -> (r: &Checksum)
        ensures
            *r == self.params,
    {
        &self.params
    }
}

/// A saved state kept as a list of elements.
pub struct State {
    pub elements: Vec<ElemState>,
}

impl State {
    /// A state with no elements.
    pub fn empty() -> (r: State)
        ensures
            r.elements@ == Seq::<ElemState>::empty(),
    {
        State { elements: Vec::new() }
    }
}

} // verus!
