//! Selection targets: the map nodes under the selected position, one of which
//! has the focus.

use vstd::prelude::*;

use crate::id::Id;
use crate::lookup::Entity;

verus! {

/// A map node together with the live entity that shows it.
#[derive(PartialEq, Eq, Structural, Clone, Copy, Debug)]
pub struct LiveMapNodeId {
    pub node_id: Id,
    pub entity: Entity,
}

/// The map nodes intersecting the selected position, and the focused one.
pub struct SelectionTargets {
    pub intersecting: Vec<LiveMapNodeId>,
    pub focused: LiveMapNodeId,
}

/// Position of the first occurrence of `x` in `s`.
pub open spec fn first_position(s: Seq<LiveMapNodeId>, x: LiveMapNodeId) -> Option<int>
    decreases s.len(),
{
    if s.len() == 0 {
        None
    } else if s[0] == x {
        Some(0)
    } else {
        match first_position(s.drop_first(), x) {
            Some(i) => Some(i + 1),
            None => None,
        }
    }
}

/// Index reached by moving `num` places from `idx` in a list of `len`
/// entries: past the end it goes to the first entry, before the start to the
/// last one.
pub open spec fn wrap_index(idx: int, num: int, len: int) -> int {
    let next = idx + num;
    if next >= len {
        0
    } else if next < 0 {
        len - 1
    } else {
        next
    }
}

/// Moving `num` places from a position `idx` of a list of `len` entries
/// lands on `idx + num` when that is a position of the list; past the end it
/// lands on the first entry, before the start on the last one. It always
/// lands on a position of the list.
pub proof fn lemma_wrap_index(idx: int, num: int, len: int)
    requires
        0 <= idx < len,
    ensures
        0 <= idx + num < len ==> wrap_index(idx, num, len) == idx + num,
        idx + num >= len ==> wrap_index(idx, num, len) == 0,
        idx + num < 0 ==> wrap_index(idx, num, len) == len - 1,
        0 <= wrap_index(idx, num, len) < len,
{
}

proof fn lemma_first_position(s: Seq<LiveMapNodeId>, x: LiveMapNodeId, i: int)
    requires
        0 <= i <= s.len(),
        forall|j: int| 0 <= j < i ==> s[j] != x,
    ensures
        i < s.len() && s[i] == x ==> first_position(s, x) == Some(i),
        i == s.len() ==> first_position(s, x) is None,
    decreases i,
{
    if i > 0 {
        lemma_first_position(s.drop_first(), x, i - 1);
        assert(s[0] != x);
    } else if s.len() > 0 {
    }
}

proof fn lemma_first_position_bounds(s: Seq<LiveMapNodeId>, x: LiveMapNodeId)
    ensures
        first_position(s, x) matches Some(i) ==> 0 <= i < s.len() && s[i] == x,
        first_position(s, x) is None ==> !s.contains(x),
    decreases s.len(),
{
    if s.len() > 0 {
        lemma_first_position_bounds(s.drop_first(), x);
        if s[0] != x && s.contains(x) {
            let k = choose|k: int| 0 <= k < s.len() && s[k] == x;
            assert(s.drop_first()[k - 1] == x);
        }
    }
}

/// New targets after a change of the nodes under the selected position: none
/// when no node is there; otherwise the focus stays on its node while that
/// node is still there, and goes to the first node when it is not or when
/// there was no focus.
pub fn retarget(existing: Option<SelectionTargets>, intersecting: Vec<LiveMapNodeId>) -> (r: Option<
    SelectionTargets,
>)
    ensures
        intersecting@.len() == 0 ==> r is None,
        intersecting@.len() > 0 ==> r is Some,
        r matches Some(t) ==> {
            &&& t.intersecting@ == intersecting@
            &&& t.focused == (match existing {
                Some(e) => if intersecting@.contains(e.focused) {
                    e.focused
                } else {
                    intersecting@[0]
                },
                None => intersecting@[0],
            })
            &&& t.intersecting@.contains(t.focused)
        },
{
    if intersecting.len() == 0 {
        return None;
    }
    let first = intersecting[0];
    assert(intersecting@[0] == first);
    match existing {
        Some(e) => {
            let mut still_there = false;
            let mut i: usize = 0;
            while i < intersecting.len()
                invariant
                    i <= intersecting@.len(),
                    still_there <==> exists|j: int| 0 <= j < i && intersecting@[j] == e.focused,
                decreases intersecting@.len() - i,
            {
                if intersecting[i] == e.focused {
                    still_there = true;
                }
                i = i + 1;
            }
            let focused = if still_there {
                e.focused
            } else {
                first
            };
            Some(SelectionTargets { intersecting, focused })
        },
        None => Some(SelectionTargets { intersecting, focused: first }),
    }
}

/// Position of the first occurrence of `x` in `v`.
fn position_of(v: &Vec<LiveMapNodeId>, x: &LiveMapNodeId) -> (r: Option<usize>)
    ensures
        match r {
            Some(i) => first_position(v@, *x) == Some(i as int),
            None => first_position(v@, *x) is None,
        },
{
    let mut i: usize = 0;
    while i < v.len()
        invariant
            i <= v@.len(),
            forall|j: int| 0 <= j < i ==> v@[j] != *x,
        decreases v@.len() - i,
    {
        if v[i] == *x {
            proof {
                lemma_first_position(v@, *x, i as int);
            }
            return Some(i);
        }
        i = i + 1;
    }
    proof {
        lemma_first_position(v@, *x, i as int);
    }
    None
}

impl SelectionTargets {
    /// Moves the focus `num` places through the intersecting nodes, wrapping
    /// at both ends. Nothing changes when the focused node is not among them.
    pub fn scroll_intersecting(&mut self, num: i32)
        requires
            old(self).intersecting@.len() <= i32::MAX,
            first_position(old(self).intersecting@, old(self).focused) matches Some(idx) ==> idx
                + num <= i32::MAX,
        ensures
            final(self).intersecting@ == old(self).intersecting@,
            match first_position(old(self).intersecting@, old(self).focused) {
                Some(idx) => final(self).focused == old(self).intersecting@[wrap_index(
                    idx,
                    num as int,
                    old(self).intersecting@.len() as int,
                )],
                None => final(self).focused == old(self).focused,
            },
            old(self).intersecting@.contains(old(self).focused)
                ==> final(self).intersecting@.contains(final(self).focused),
            first_position(old(self).intersecting@, old(self).focused) matches Some(idx) ==> {
                let len = old(self).intersecting@.len() as int;
                &&& 0 <= idx + num < len ==> final(self).focused == old(self).intersecting@[idx + num]
                &&& idx + num >= len ==> final(self).focused == old(self).intersecting@[0]
                &&& idx + num < 0 ==> final(self).focused == old(self).intersecting@[len - 1]
            },
    {
        proof {
            lemma_first_position_bounds(self.intersecting@, self.focused);
            if let Some(idx) = first_position(self.intersecting@, self.focused) {
                lemma_wrap_index(idx, num as int, self.intersecting@.len() as int);
            }
        }
        let n = self.intersecting.len();
        let pos = position_of(&self.intersecting, &self.focused);
        let i: usize = match pos {
            Some(p) => p,
            None => n,
        };
        if i < n {
            let len: i32 = n as i32;
            let mut next: i32 = (i as i32) + num;
            if next >= len {
                next = 0;
            }
            if next < 0 {
                next = len - 1;
            }
            let target = self.intersecting[next as usize];
            self.focused = target;
            proof {
                assert(self.intersecting@.contains(target)) by {
                    assert(self.intersecting@[next as int] == target);
                }
            }
        }
    }
}

} // verus!
