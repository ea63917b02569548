//! Planning the restoration of a saved map state: which elements to update,
//! which to create, and which live entities to despawn.

use vstd::prelude::*;

use crate::checksum::Checksum;
use crate::id::Id;
use crate::lookup::{ElementLookup, Entity};
use crate::state::{ElementState, MapState};

verus! {

/// One step of a restoration.
#[derive(Clone, Copy, Debug)]
pub enum RestoreStep {
    /// Load the info object with this checksum into the existing element.
    UpdateInfo { id: Id, info: Checksum },
    /// Rebuild the existing element's parameters of this role from the object
    /// with this checksum.
    UpdateParams { id: Id, role: u64, params: Checksum },
    /// Create the element with this role from the two objects.
    Create { id: Id, role: u64, info: Checksum, params: Checksum },
}

/// What restoring a state does to the world.
pub struct RestorePlan {
    pub steps: Vec<RestoreStep>,
    pub despawn: Vec<Entity>,
}

/// The steps for one element of the target state: an element already in the
/// current state gets its info and parameters reloaded where their checksums
/// differ; any other element is created.
pub open spec fn element_steps(
    cur: Map<Id, ElementState>,
    id: Id,
    elem: ElementState,
) -> Seq<RestoreStep> {
    if cur.contains_key(id) {
        (if cur[id].info.0@ != elem.info.0@ {
            seq![RestoreStep::UpdateInfo { id: id, info: elem.info }]
        } else {
            Seq::empty()
        }) + (if cur[id].params.0@ != elem.params.0@ {
            seq![RestoreStep::UpdateParams { id: id, role: elem.role->0, params: elem.params }]
        } else {
            Seq::empty()
        })
    } else {
        seq![
            RestoreStep::Create {
                id: id,
                role: elem.role->0,
                info: elem.info,
                params: elem.params,
            },
        ]
    }
}

/// The steps for target entries, in order.
pub open spec fn plan_steps(
    cur: Map<Id, ElementState>,
    entries: Seq<(Id, ElementState)>,
) -> Seq<RestoreStep>
    decreases entries.len(),
{
    if entries.len() == 0 {
        Seq::empty()
    } else {
        plan_steps(cur, entries.drop_last()) + element_steps(
            cur,
            entries.last().0,
            entries.last().1,
        )
    }
}

/// The live entities whose element is not in the target state, in lookup order.
pub open spec fn despawn_spec(target: Map<Id, ElementState>, live: Seq<(Id, Entity)>) -> Seq<
    Entity,
>
    decreases live.len(),
{
    if live.len() == 0 {
        Seq::empty()
    } else {
        despawn_spec(target, live.drop_last()) + (if target.contains_key(live.last().0) {
            Seq::empty()
        } else {
            seq![live.last().1]
        })
    }
}

/// The element map after carrying out restoration steps.
pub open spec fn apply_steps_spec(m: Map<Id, ElementState>, steps: Seq<RestoreStep>) -> Map<
    Id,
    ElementState,
>
    decreases steps.len(),
{
    if steps.len() == 0 {
        m
    } else {
        let before = apply_steps_spec(m, steps.drop_last());
        match steps.last() {
            RestoreStep::UpdateInfo { id, info } => before.insert(
                id,
                ElementState { info: info, ..before[id] },
            ),
            RestoreStep::UpdateParams { id, role, params } => before.insert(
                id,
                ElementState { role: Some(role), params: params, ..before[id] },
            ),
            RestoreStep::Create { id, role, info, params } => before.insert(
                id,
                ElementState { role: Some(role), info: info, params: params },
            ),
        }
    }
}

/// Plans the restoration of `target`, given the current state and the live
/// elements. Every element of the target state must have a role.
pub fn plan_restore(cur: &MapState, target: &MapState, lookup: &ElementLookup) -> (r: RestorePlan)
    requires
        forall|k: Id| #[trigger] target.elements@.contains_key(k) ==> target.elements@[k].role is Some,
    ensures
        r.steps@ == plan_steps(cur.elements@, target.elements.entry_seq()),
        r.despawn@ == despawn_spec(target.elements@, lookup.map.entry_seq()),
        forall|id: Id|
            #[trigger] lookup.map@.contains_key(id) && !target.elements@.contains_key(id)
                ==> r.despawn@.contains(lookup.map@[id]),
        forall|e: Entity|
            #[trigger] r.despawn@.contains(e) ==> exists|id: Id|
                #[trigger] lookup.map@.contains_key(id) && lookup.map@[id] == e
                    && !target.elements@.contains_key(id),
{
    let mut steps: Vec<RestoreStep> = Vec::new();
    let n = target.elements.len();
    let mut i: usize = 0;
    while i < n
        invariant
            n == target.elements.entry_seq().len(),
            i <= n,
            target.elements.entries_match(),
            forall|k: Id| #[trigger]
                target.elements@.contains_key(k) ==> target.elements@[k].role is Some,
            steps@ == plan_steps(cur.elements@, target.elements.entry_seq().take(i as int)),
        decreases n - i,
    {
        let id = target.elements.key_at(i);
        let elem = *target.elements.value_at(i);
        let role = match elem.role {
            Some(role) => role,
            None => {
                assert(false);
                0
            },
        };
        let ghost before = steps@;
        match cur.elements.get(&id) {
            Some(cur_elem) => {
                if elem.info != cur_elem.info {
                    steps.push(RestoreStep::UpdateInfo { id, info: elem.info });
                }
                if elem.params != cur_elem.params {
                    steps.push(RestoreStep::UpdateParams { id, role, params: elem.params });
                }
            },
            None => {
                steps.push(RestoreStep::Create { id, role, info: elem.info, params: elem.params });
            },
        }
        proof {
            let es = target.elements.entry_seq();
            assert(es.take(i + 1).drop_last() =~= es.take(i as int));
            assert(es.take(i + 1).last() == es[i as int]);
            assert(steps@ =~= before + element_steps(cur.elements@, id, elem));
        }
        i = i + 1;
    }
    assert(target.elements.entry_seq().take(n as int) =~= target.elements.entry_seq());
    let live = lookup.iter();
    let mut despawn: Vec<Entity> = Vec::new();
    let mut j: usize = 0;
    let ghost lseq = lookup.map.entry_seq();
    while j < live.len()
        invariant
            j <= live@.len(),
            live@.len() == lseq.len(),
            lseq == lookup.map.entry_seq(),
            forall|x: int|
                0 <= x < live@.len() ==> (#[trigger] live@[x]).element_id == lseq[x].0
                    && live@[x].entity == lseq[x].1,
            despawn@ == despawn_spec(target.elements@, lseq.take(j as int)),
        decreases live@.len() - j,
    {
        let ghost before = despawn@;
        if !target.elements.contains_key(&live[j].element_id) {
            despawn.push(live[j].entity);
        }
        proof {
            assert(lseq.take(j + 1).drop_last() =~= lseq.take(j as int));
            assert(lseq.take(j + 1).last() == lseq[j as int]);
            if target.elements@.contains_key(lseq[j as int].0) {
                assert(despawn@ =~= before + Seq::<Entity>::empty());
            } else {
                assert(despawn@ =~= before + seq![lseq[j as int].1]);
            }
        }
        j = j + 1;
    }
    assert(lseq.take(live@.len() as int) =~= lseq);
    let _ = lookup.map.len();
    proof {
        lemma_despawn_exactly_absent(target.elements@, lseq);
        assert forall|id: Id|
            #[trigger] lookup.map@.contains_key(id) && !target.elements@.contains_key(id)
                implies despawn@.contains(lookup.map@[id]) by {
            let k = choose|k: int| 0 <= k < lseq.len() && lseq[k].0 == id;
            assert(lseq[k].1 == lookup.map@[id]);
        }
        assert forall|e: Entity| #[trigger] despawn@.contains(e) implies exists|id: Id|
            #[trigger] lookup.map@.contains_key(id) && lookup.map@[id] == e
                && !target.elements@.contains_key(id) by {
            let k = choose|k: int|
                0 <= k < lseq.len() && (#[trigger] lseq[k]).1 == e && !target.elements@.contains_key(
                    lseq[k].0,
                );
            assert(lookup.map@.contains_key(lseq[k].0));
        }
    }
    RestorePlan { steps, despawn }
}

/// Restoring despawns exactly the live entities whose element is not in the
/// restored state: each of them, wherever it stands in the lookup, and no
/// other entity.
pub proof fn lemma_despawn_exactly_absent(target: Map<Id, ElementState>, live: Seq<(Id, Entity)>)
    ensures
        forall|i: int|
            0 <= i < live.len() && !target.contains_key((#[trigger] live[i]).0) ==> despawn_spec(
                target,
                live,
            ).contains(live[i].1),
        forall|e: Entity|
            #[trigger] despawn_spec(target, live).contains(e) ==> exists|i: int|
                0 <= i < live.len() && (#[trigger] live[i]).1 == e && !target.contains_key(
                    live[i].0,
                ),
    decreases live.len(),
{
    if live.len() > 0 {
        let init = live.drop_last();
        lemma_despawn_exactly_absent(target, init);
        let d0 = despawn_spec(target, init);
        let tail = if target.contains_key(live.last().0) {
            Seq::<Entity>::empty()
        } else {
            seq![live.last().1]
        };
        let d = despawn_spec(target, live);
        assert(d == d0 + tail);
        assert forall|i: int|
            0 <= i < live.len() && !target.contains_key((#[trigger] live[i]).0) implies d.contains(
            live[i].1,
        ) by {
            if i < live.len() - 1 {
                assert(init[i] == live[i]);
                let k = choose|k: int| 0 <= k < d0.len() && d0[k] == live[i].1;
                assert(d[k] == live[i].1);
            } else {
                assert(tail[0] == live[i].1);
                assert(d[d0.len() as int] == live[i].1);
            }
        }
        assert forall|e: Entity| #[trigger] d.contains(e) implies exists|i: int|
            0 <= i < live.len() && (#[trigger] live[i]).1 == e && !target.contains_key(
                live[i].0,
            ) by {
            let k = choose|k: int| 0 <= k < d.len() && d[k] == e;
            if k < d0.len() {
                assert(d0[k] == e);
                assert(d0.contains(e));
                let i = choose|i: int|
                    0 <= i < init.len() && (#[trigger] init[i]).1 == e && !target.contains_key(
                        init[i].0,
                    );
                assert(live[i] == init[i]);
            } else {
                assert(live[live.len() - 1].1 == e);
            }
        }
    }
}

proof fn lemma_apply_steps_append(m: Map<Id, ElementState>, a: Seq<RestoreStep>, b: Seq<RestoreStep>)
    ensures
        apply_steps_spec(m, a + b) == apply_steps_spec(apply_steps_spec(m, a), b),
    decreases b.len(),
{
    if b.len() == 0 {
        assert(a + b =~= a);
    } else {
        assert((a + b).drop_last() =~= a + b.drop_last());
        assert((a + b).last() == b.last());
        lemma_apply_steps_append(m, a, b.drop_last());
    }
}

/// What a set of entries says of an identifier's checksums holds of `m`.
pub open spec fn matches_checksums(m: Map<Id, ElementState>, id: Id, elem: ElementState) -> bool {
    &&& m.contains_key(id)
    &&& m[id].info.0@ == elem.info.0@
    &&& m[id].params.0@ == elem.params.0@
}

proof fn lemma_element_steps_effect(
    cur: Map<Id, ElementState>,
    m: Map<Id, ElementState>,
    id: Id,
    elem: ElementState,
)
    requires
        m.contains_key(id) == cur.contains_key(id),
        cur.contains_key(id) ==> m[id] == cur[id],
    ensures
        matches_checksums(apply_steps_spec(m, element_steps(cur, id, elem)), id, elem),
        forall|k: Id|
            k != id ==> (#[trigger] apply_steps_spec(m, element_steps(cur, id, elem)).contains_key(k)
                == m.contains_key(k)) && (m.contains_key(k) ==> apply_steps_spec(
                m,
                element_steps(cur, id, elem),
            )[k] == m[k]),
{
    let s = element_steps(cur, id, elem);
    if cur.contains_key(id) {
        let a: Seq<RestoreStep> = if cur[id].info.0@ != elem.info.0@ {
            seq![RestoreStep::UpdateInfo { id: id, info: elem.info }]
        } else {
            Seq::empty()
        };
        let b: Seq<RestoreStep> = if cur[id].params.0@ != elem.params.0@ {
            seq![RestoreStep::UpdateParams { id: id, role: elem.role->0, params: elem.params }]
        } else {
            Seq::empty()
        };
        assert(s =~= a + b);
        lemma_apply_steps_append(m, a, b);
        let ma = apply_steps_spec(m, a);
        if a.len() == 1 {
            assert(a.drop_last() =~= Seq::<RestoreStep>::empty());
            assert(apply_steps_spec(m, a.drop_last()) == m);
            assert(a.last() == RestoreStep::UpdateInfo { id: id, info: elem.info });
            assert(ma == m.insert(id, ElementState { info: elem.info, ..m[id] }));
        } else {
            assert(ma == m);
        }
        let mb = apply_steps_spec(ma, b);
        if b.len() == 1 {
            assert(b.drop_last() =~= Seq::<RestoreStep>::empty());
            assert(apply_steps_spec(ma, b.drop_last()) == ma);
            assert(b.last() == RestoreStep::UpdateParams {
                id: id,
                role: elem.role->0,
                params: elem.params,
            });
            assert(mb == ma.insert(
                id,
                ElementState { role: Some(elem.role->0), params: elem.params, ..ma[id] },
            ));
        } else {
            assert(mb == ma);
        }
    } else {
        assert(s.drop_last() =~= Seq::<RestoreStep>::empty());
        assert(apply_steps_spec(m, s.drop_last()) == m);
    }
}

/// Carrying out a restoration plan brings every element of the target state
/// to the target's info and parameter checksums, and leaves the elements the
/// target does not hold as they were.
pub proof fn lemma_restore_reaches_target(
    cur: Map<Id, ElementState>,
    entries: Seq<(Id, ElementState)>,
)
    requires
        forall|i: int, j: int| 0 <= i < j < entries.len() ==> entries[i].0 != entries[j].0,
    ensures
        forall|i: int|
            0 <= i < entries.len() ==> matches_checksums(
                apply_steps_spec(cur, plan_steps(cur, entries)),
                #[trigger] entries[i].0,
                entries[i].1,
            ),
        forall|k: Id|
            (forall|i: int| 0 <= i < entries.len() ==> #[trigger] entries[i].0 != k) ==> (
            #[trigger] apply_steps_spec(cur, plan_steps(cur, entries)).contains_key(k)
                == cur.contains_key(k)) && (cur.contains_key(k) ==> apply_steps_spec(
                cur,
                plan_steps(cur, entries),
            )[k] == cur[k]),
    decreases entries.len(),
{
    if entries.len() > 0 {
        let init = entries.drop_last();
        let (id, elem) = entries.last();
        lemma_restore_reaches_target(cur, init);
        let m = apply_steps_spec(cur, plan_steps(cur, init));
        assert forall|i: int| 0 <= i < init.len() implies #[trigger] init[i].0 != id by {
            assert(init[i] == entries[i]);
            assert(entries[entries.len() - 1].0 == id);
        }
        lemma_apply_steps_append(cur, plan_steps(cur, init), element_steps(cur, id, elem));
        lemma_element_steps_effect(cur, m, id, elem);
        let r = apply_steps_spec(cur, plan_steps(cur, entries));
        assert forall|i: int| 0 <= i < entries.len() implies matches_checksums(
            r,
            #[trigger] entries[i].0,
            entries[i].1,
        ) by {
            if i < entries.len() - 1 {
                assert(init[i] == entries[i]);
                assert(matches_checksums(m, init[i].0, init[i].1));
                assert(entries[i].0 != id);
            }
        }
        assert forall|k: Id|
            (forall|i: int| 0 <= i < entries.len() ==> #[trigger] entries[i].0 != k) implies (
        #[trigger] r.contains_key(k) == cur.contains_key(k)) && (cur.contains_key(k) ==> r[k]
            == cur[k]) by {
            assert(entries[entries.len() - 1].0 != k);
            assert forall|i: int| 0 <= i < init.len() implies #[trigger] init[i].0 != k by {
                assert(init[i] == entries[i]);
            }
        }
    }
}

} // verus!
