//! Lookup from map element identifiers to the live entities that show them.

use vstd::prelude::*;

use crate::id::Id;
use crate::idmap::IdMap;

verus! {

/// A live entity, by its 64-bit handle.
#[derive(PartialEq, Eq, Structural, Clone, Copy, Debug, Hash)]
pub struct Entity(pub u64);

/// Identifier of the map element an entity shows.
#[derive(PartialEq, Eq, Structural, Clone, Copy, Debug, Hash)]
pub struct ElementId(pub Id);

impl ElementId {
    pub fn new(id: Id) -> (r: ElementId)
        ensures
            r.0 == id,
    {
        ElementId(id)
    }

    pub fn id_ref(&self) -> (r: &Id)
        ensures
            *r == self.0,
    {
        &self.0
    }
}

/// An element together with the entity that shows it.
#[derive(PartialEq, Eq, Structural, Clone, Copy, Debug)]
pub struct ElementEntity {
    pub element_id: Id,
    pub entity: Entity,
}

/// No entity is known for a map element.
#[derive(PartialEq, Eq, Structural, Clone, Copy, Debug)]
pub struct ElementLookupError(pub Id);

/// Map from element identifiers to entities.
pub struct ElementLookup {
    pub map: IdMap<Entity>,
}

/// The map after inserting the given pairs in order.
pub open spec fn insert_all_spec(m: Map<Id, Entity>, pairs: Seq<(Id, Entity)>) -> Map<Id, Entity>
    decreases pairs.len(),
{
    if pairs.len() == 0 {
        m
    } else {
        insert_all_spec(m, pairs.drop_last()).insert(pairs.last().0, pairs.last().1)
    }
}

/// The map without the entries whose entity is among `removed`.
pub open spec fn without_entities(m: Map<Id, Entity>, removed: Seq<Entity>) -> Map<Id, Entity> {
    Map::new(|k: Id| m.contains_key(k) && !removed.contains(m[k]), |k: Id| m[k])
}

proof fn lemma_singleton_contains(e: Entity)
    ensures
        forall|x: Entity| seq![e].contains(x) <==> x == e,
{
    assert forall|x: Entity| seq![e].contains(x) <==> x == e by {
        if x == e {
            assert(seq![e][0] == x);
        }
    }
}

impl ElementLookup {
    pub fn new() -> (r: ElementLookup)
        ensures
            r.map@ == Map::<Id, Entity>::empty(),
    {
        ElementLookup { map: IdMap::new() }
    }

    /// The entity showing an element.
    pub fn find(&self, element_id: &Id) -> (r: Result<Entity, ElementLookupError>)
        ensures
            match r {
                Ok(e) => self.map@.contains_key(*element_id) && e == self.map@[*element_id],
                Err(err) => !self.map@.contains_key(*element_id) && err == ElementLookupError(
                    *element_id,
                ),
            },
    {
        match self.map.get(element_id) {
            Some(e) => Ok(*e),
            None => Err(ElementLookupError(*element_id)),
        }
    }

    /// Records the entity showing an element.
    pub fn insert(&mut self, element_id: Id, entity: Entity)
        ensures
            final(self).map@ == old(self).map@.insert(element_id, entity),
    {
        self.map.insert(element_id, entity);
    }

    /// All pairs of element and entity, in stored order.
    pub fn iter(&self) -> (r: Vec<ElementEntity>)
        ensures
            r@.len() == self.map.entry_seq().len(),
            forall|i: int|
                0 <= i < r@.len() ==> (#[trigger] r@[i]).element_id == self.map.entry_seq()[i].0
                    && r@[i].entity == self.map.entry_seq()[i].1,
    {
        let mut out: Vec<ElementEntity> = Vec::new();
        let n = self.map.len();
        let mut i: usize = 0;
        while i < n
            invariant
                n == self.map.entry_seq().len(),
                i <= n,
                out@.len() == i,
                forall|j: int|
                    0 <= j < i ==> (#[trigger] out@[j]).element_id == self.map.entry_seq()[j].0
                        && out@[j].entity == self.map.entry_seq()[j].1,
            decreases n - i,
        {
            let id = self.map.key_at(i);
            let entity = *self.map.value_at(i);
            out.push(ElementEntity { element_id: id, entity });
            i = i + 1;
        }
        out
    }

    /// Drops every entry showing `entity`.
    pub fn forget_entity(&mut self, entity: Entity)
        ensures
            final(self).map@ == without_entities(old(self).map@, seq![entity]),
    {
        let ghost m0 = self.map@;
        let n = self.map.len();
        let mut doomed: Vec<Id> = Vec::new();
        let mut i: usize = 0;
        while i < n
            invariant
                n == self.map.entry_seq().len(),
                self.map@ == m0,
                self.map.entries_match(),
                i <= n,
                forall|j: int| 0 <= j < doomed@.len() ==> m0.contains_key(#[trigger] doomed@[j])
                    && m0[doomed@[j]] == entity,
                forall|j: int|
                    0 <= j < i && self.map.entry_seq()[j].1 == entity ==> doomed@.contains(
                        #[trigger] self.map.entry_seq()[j].0,
                    ),
            decreases n - i,
        {
            let id = self.map.key_at(i);
            let ghost old_doomed = doomed@;
            if *self.map.value_at(i) == entity {
                doomed.push(id);
            }
            proof {
                assert forall|j: int|
                    0 <= j < i + 1 && self.map.entry_seq()[j].1 == entity implies doomed@.contains(
                    self.map.entry_seq()[j].0,
                ) by {
                    if j < i {
                        let x = choose|x: int|
                            0 <= x < old_doomed.len() && #[trigger] old_doomed[x]
                                == self.map.entry_seq()[j].0;
                        assert(doomed@[x] == old_doomed[x]);
                    } else {
                        assert(doomed@[doomed@.len() - 1] == id);
                    }
                }
            }
            i = i + 1;
        }
        self.map.remove_all(&doomed);
        proof {
            lemma_singleton_contains(entity);
        }
        assert(self.map@ =~= without_entities(m0, seq![entity])) by {
            assert forall|k: Id| m0.contains_key(k) implies (doomed@.contains(k) <==> m0[k]
                == entity) by {
                if doomed@.contains(k) {
                    let x = choose|x: int| 0 <= x < doomed@.len() && #[trigger] doomed@[x] == k;
                }
            }
        }
    }

    /// Keeps the lookup in step with the world: records newly tagged entities,
    /// then drops the entries of entities whose element tag went away.
    pub fn track_element_ids(&mut self, added: &Vec<ElementEntity>, removed: &Vec<Entity>)
        ensures
            final(self).map@ == without_entities(
                insert_all_spec(
                    old(self).map@,
                    added@.map_values(|p: ElementEntity| (p.element_id, p.entity)),
                ),
                removed@,
            ),
    {
        let ghost pairs = added@.map_values(|p: ElementEntity| (p.element_id, p.entity));
        let mut i: usize = 0;
        while i < added.len()
            invariant
                i <= added@.len(),
                pairs == added@.map_values(|p: ElementEntity| (p.element_id, p.entity)),
                self.map@ == insert_all_spec(old(self).map@, pairs.take(i as int)),
            decreases added@.len() - i,
        {
            self.map.insert(added[i].element_id, added[i].entity);
            assert(pairs.take(i + 1).drop_last() =~= pairs.take(i as int));
            i = i + 1;
        }
        assert(pairs.take(added@.len() as int) =~= pairs);
        let ghost m1 = self.map@;
        let mut j: usize = 0;
        while j < removed.len()
            invariant
                j <= removed@.len(),
                self.map@ == without_entities(m1, removed@.take(j as int)),
            decreases removed@.len() - j,
        {
            self.forget_entity(removed[j]);
            proof {
                lemma_singleton_contains(removed@[j as int]);
            }
            proof {
                crate::idmap::lemma_take_next_contains(removed@, j as int);
            }
            assert(self.map@ =~= without_entities(m1, removed@.take(j + 1)));
            j = j + 1;
        }
        assert(removed@.take(removed@.len() as int) =~= removed@);
    }
}

} // verus!
