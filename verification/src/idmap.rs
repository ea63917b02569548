//! A map keyed by identifiers, held as a vector of entries without repeated
//! keys. Its entries keep the order in which keys were first inserted.

use vstd::prelude::*;

use crate::id::Id;

verus! {

/// Map from identifiers to values.
pub struct IdMap<V> {
    entries: Vec<(Id, V)>,
    contents: Ghost<Map<Id, V>>,
}

impl<V> View for IdMap<V> {
    type V = Map<Id, V>;

    closed spec fn view(&self) -> Map<Id, V> {
        self.contents@
    }
}

impl<V> IdMap<V> {
    /// The entries in their stored order.
    pub closed spec fn entry_seq(&self) -> Seq<(Id, V)> {
        self.entries@
    }

    #[verifier::type_invariant]
    closed spec fn inv(&self) -> bool {
        &&& forall|i: int, j: int|
            0 <= i < j < self.entries@.len() ==> self.entries@[i].0 != self.entries@[j].0
        &&& forall|i: int|
            0 <= i < self.entries@.len() ==> {
                &&& self.contents@.contains_key(#[trigger] self.entries@[i].0)
                &&& self.contents@[self.entries@[i].0] == self.entries@[i].1
            }
        &&& forall|k: Id|
            #[trigger] self.contents@.contains_key(k) ==> exists|i: int|
                0 <= i < self.entries@.len() && self.entries@[i].0 == k
    }

    /// The entries list every key of the map exactly once, with its value.
    pub open spec fn entries_match(&self) -> bool {
        &&& forall|i: int, j: int|
            0 <= i < j < self.entry_seq().len() ==> self.entry_seq()[i].0 != self.entry_seq()[j].0
        &&& forall|i: int|
            0 <= i < self.entry_seq().len() ==> {
                &&& self@.contains_key(#[trigger] self.entry_seq()[i].0)
                &&& self@[self.entry_seq()[i].0] == self.entry_seq()[i].1
            }
        &&& forall|k: Id|
            #[trigger] self@.contains_key(k) ==> exists|i: int|
                0 <= i < self.entry_seq().len() && self.entry_seq()[i].0 == k
    }

    /// An empty map.
    pub fn new() -> (r: IdMap<V>)
        ensures
            r@ == Map::<Id, V>::empty(),
            r.entry_seq() == Seq::<(Id, V)>::empty(),
    {
        IdMap { entries: Vec::new(), contents: Ghost(Map::empty()) }
    }

    /// Number of entries.
    pub fn len(&self) -> (r: usize)
        ensures
            r == self.entry_seq().len(),
            self.entries_match(),
    {
        proof {
            use_type_invariant(self);
        }
        self.entries.len()
    }

    /// The key of the entry at a position.
    pub fn key_at(&self, i: usize) -> (r: Id)
        requires
            i < self.entry_seq().len(),
        ensures
            r == self.entry_seq()[i as int].0,
            self@.contains_key(r),
            self@[r] == self.entry_seq()[i as int].1,
            self.entries_match(),
    {
        proof {
            use_type_invariant(self);
        }
        self.entries[i].0
    }

    /// The value of the entry at a position.
    pub fn value_at(&self, i: usize) -> (r: &V)
        requires
            i < self.entry_seq().len(),
        ensures
            *r == self.entry_seq()[i as int].1,
            self@.contains_key(self.entry_seq()[i as int].0),
            self@[self.entry_seq()[i as int].0] == *r,
            self.entries_match(),
    {
        proof {
            use_type_invariant(self);
        }
        &self.entries[i].1
    }

    /// Position of a key among the entries.
    fn position(&self, id: &Id) -> (r: Option<usize>)
        ensures
            match r {
                Some(i) => i < self.entries@.len() && self.entries@[i as int].0 == *id,
                None => !self@.contains_key(*id),
            },
    {
        proof {
            use_type_invariant(self);
        }
        let mut i: usize = 0;
        while i < self.entries.len()
            invariant
                i <= self.entries@.len(),
                forall|j: int| 0 <= j < i ==> self.entries@[j].0 != *id,
            decreases self.entries@.len() - i,
        {
            if self.entries[i].0 == *id {
                return Some(i);
            }
            i = i + 1;
        }
        None
    }

    /// Whether the map holds a key.
    pub fn contains_key(&self, id: &Id) -> (r: bool)
        ensures
            r == self@.contains_key(*id),
    {
        proof {
            use_type_invariant(self);
        }
        self.position(id).is_some()
    }

    /// The value stored under a key.
    pub fn get(&self, id: &Id) -> (r: Option<&V>)
        ensures
            match r {
                Some(v) => self@.contains_key(*id) && *v == self@[*id],
                None => !self@.contains_key(*id),
            },
    {
        proof {
            use_type_invariant(self);
        }
        match self.position(id) {
            Some(i) => Some(&self.entries[i].1),
            None => None,
        }
    }

    /// Stores a value under a key, replacing any earlier value. A new key goes
    /// after all existing entries; an existing key keeps its position.
    pub fn insert(&mut self, id: Id, value: V)
        ensures
            final(self)@ == old(self)@.insert(id, value),
            old(self)@.contains_key(id) ==> final(self).entry_seq().len() == old(self).entry_seq().len(),
            !old(self)@.contains_key(id) ==> final(self).entry_seq() == old(self).entry_seq().push(
                (id, value),
            ),
    {
        proof {
            use_type_invariant(&*self);
        }
        let pos = self.position(&id);
        let ghost old_map = self.contents@;
        let mut taken = IdMap::<V>::new();
        std::mem::swap(&mut taken, self);
        let IdMap { entries: mut entries, contents: _ } = taken;
        let ghost old_entries = entries@;
        assert(old_entries == old(self).entries@);
        assert(old_map == old(self).contents@);
        match pos {
            Some(i) => {
                entries.set(i, (id, value));
                proof {
                    assert forall|a: int, b: int|
                        0 <= a < b < entries@.len() implies entries@[a].0 != entries@[b].0 by {
                        assert(old_entries[a].0 == entries@[a].0);
                        assert(old_entries[b].0 == entries@[b].0);
                    }
                    assert forall|j: int| 0 <= j < entries@.len() implies {
                        &&& old_map.insert(id, value).contains_key(#[trigger] entries@[j].0)
                        &&& old_map.insert(id, value)[entries@[j].0] == entries@[j].1
                    } by {
                        if j != i {
                            assert(entries@[j] == old_entries[j]);
                            assert(old_entries[j].0 != old_entries[i as int].0);
                        }
                    }
                    assert forall|k: Id| #[trigger]
                        old_map.insert(id, value).contains_key(k) implies exists|j: int|
                        0 <= j < entries@.len() && entries@[j].0 == k by {
                        if k != id {
                            let j = choose|j: int|
                                0 <= j < old_entries.len() && old_entries[j].0 == k;
                            assert(entries@[j].0 == k);
                        } else {
                            assert(entries@[i as int].0 == k);
                        }
                    }
                }
            },
            None => {
                entries.push((id, value));
                proof {
                    assert forall|a: int, b: int|
                        0 <= a < b < entries@.len() implies entries@[a].0 != entries@[b].0 by {
                        if b == old_entries.len() {
                            assert(old_map.contains_key(old_entries[a].0));
                        } else {
                            assert(old_entries[a].0 == entries@[a].0);
                            assert(old_entries[b].0 == entries@[b].0);
                        }
                    }
                    assert forall|j: int| 0 <= j < entries@.len() implies {
                        &&& old_map.insert(id, value).contains_key(#[trigger] entries@[j].0)
                        &&& old_map.insert(id, value)[entries@[j].0] == entries@[j].1
                    } by {
                        if j < old_entries.len() {
                            assert(entries@[j] == old_entries[j]);
                            assert(old_map.contains_key(old_entries[j].0));
                        }
                    }
                    assert forall|k: Id| #[trigger]
                        old_map.insert(id, value).contains_key(k) implies exists|j: int|
                        0 <= j < entries@.len() && entries@[j].0 == k by {
                        if k != id {
                            let j = choose|j: int|
                                0 <= j < old_entries.len() && old_entries[j].0 == k;
                            assert(entries@[j].0 == k);
                        } else {
                            assert(entries@[old_entries.len() as int].0 == k);
                        }
                    }
                }
            },
        }
        let ghost new_map = old_map.insert(id, value);
        let contents: Ghost<Map<Id, V>> = Ghost(new_map);
        let ghost candidate = IdMap::<V> { entries: entries, contents: contents };
        assert(candidate.entries@ == entries@);
        assert(candidate.inv());
        *self = IdMap { entries, contents };
    }

    /// Removes a key, returning its value if it was present. The remaining
    /// entries keep their order.
    pub fn remove(&mut self, id: &Id) -> (r: Option<V>)
        ensures
            final(self)@ == old(self)@.remove(*id),
            match r {
                Some(v) => old(self)@.contains_key(*id) && v == old(self)@[*id],
                None => !old(self)@.contains_key(*id),
            },
    {
        proof {
            use_type_invariant(&*self);
        }
        let pos = self.position(id);
        match pos {
            None => None,
            Some(i) => {
                let ghost old_map = self.contents@;
                let mut taken = IdMap::<V>::new();
                std::mem::swap(&mut taken, self);
                let IdMap { entries: mut entries, contents: _ } = taken;
                let ghost old_entries = entries@;
                assert(old_entries == old(self).entries@);
                assert(old_map == old(self).contents@);
                let (_, value) = entries.remove(i);
                proof {
                    assert forall|j: int| 0 <= j < entries@.len() implies entries@[j] == (if j
                        < i {
                        old_entries[j]
                    } else {
                        old_entries[j + 1]
                    }) by {}
                    assert forall|k: Id| #[trigger]
                        old_map.remove(*id).contains_key(k) implies exists|j: int|
                        0 <= j < entries@.len() && entries@[j].0 == k by {
                        let j = choose|j: int|
                            0 <= j < old_entries.len() && old_entries[j].0 == k;
                        if j < i {
                            assert(entries@[j].0 == k);
                        } else {
                            assert(j != i);
                            assert(entries@[j - 1].0 == k);
                        }
                    }
                    assert forall|a: int, b: int|
                        0 <= a < b < entries@.len() implies entries@[a].0 != entries@[b].0 by {
                        let oa = if a < i { a } else { a + 1 };
                        let ob = if b < i { b } else { b + 1 };
                        assert(entries@[a] == old_entries[oa]);
                        assert(entries@[b] == old_entries[ob]);
                    }
                    assert forall|j: int| 0 <= j < entries@.len() implies {
                        &&& old_map.remove(*id).contains_key(#[trigger] entries@[j].0)
                        &&& old_map.remove(*id)[entries@[j].0] == entries@[j].1
                    } by {
                        let oj = if j < i { j } else { j + 1 };
                        assert(entries@[j] == old_entries[oj]);
                        assert(oj != i);
                    }
                }
                let contents: Ghost<Map<Id, V>> = Ghost(old_map.remove(*id));
                let ghost candidate = IdMap::<V> { entries: entries, contents: contents };
                assert(candidate.entries@ == entries@);
                assert(candidate.contents@ == contents@);
                assert(candidate.inv());
                *self = IdMap { entries, contents };
                Some(value)
            },
        }
    }

    /// Removes every key listed in `ids`.
    pub fn remove_all(&mut self, ids: &Vec<Id>)
        ensures
            final(self)@ == Map::new(
                |k: Id| old(self)@.contains_key(k) && !ids@.contains(k),
                |k: Id| old(self)@[k],
            ),
    {
        let ghost m0 = self@;
        let mut j: usize = 0;
        while j < ids.len()
            invariant
                j <= ids@.len(),
                self@ == Map::new(
                    |k: Id| m0.contains_key(k) && !ids@.take(j as int).contains(k),
                    |k: Id| m0[k],
                ),
            decreases ids@.len() - j,
        {
            self.remove(&ids[j]);
            proof {
                lemma_take_next_contains(ids@, j as int);
            }
            assert(self@ =~= Map::new(
                |k: Id| m0.contains_key(k) && !ids@.take(j + 1).contains(k),
                |k: Id| m0[k],
            ));
            j = j + 1;
        }
        assert(ids@.take(ids@.len() as int) =~= ids@);
    }
}


/// The first `j + 1` items of a sequence hold what its first `j` items hold,
/// and its `j`-th item.
pub proof fn lemma_take_next_contains<A>(s: Seq<A>, j: int)
    requires
        0 <= j < s.len(),
    ensures
        forall|x: A| #[trigger] s.take(j + 1).contains(x) <==> (s.take(j).contains(x) || x == s[j]),
{
    assert forall|x: A| #[trigger] s.take(j + 1).contains(x) <==> (s.take(j).contains(x) || x == s[j]) by {
        if s.take(j + 1).contains(x) {
            let y = choose|y: int| 0 <= y < j + 1 && #[trigger] s.take(j + 1)[y] == x;
            if y < j {
                assert(s.take(j)[y] == x);
            }
        }
        if s.take(j).contains(x) {
            let y = choose|y: int| 0 <= y < j && #[trigger] s.take(j)[y] == x;
            assert(s.take(j + 1)[y] == x);
        }
        if x == s[j] {
            assert(s.take(j + 1)[j] == x);
        }
    }
}

} // verus!
