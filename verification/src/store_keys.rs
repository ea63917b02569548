//! Keys of the trees in the key-value map store: the history tree, the main
//! state tree, one snapshot tree per saved state, and one content tree per
//! node kind.

use vstd::prelude::*;

use crate::id::{id_key, Id};

verus! {

/// Name of the history tree.
pub const HIST_KEY: u8 = 0;

/// Name of the main state tree, and prefix of the snapshot trees.
pub const STATE_KEY: u8 = 1;

/// Prefix of the node content trees.
pub const CONTENT_KEY: u8 = 2;

/// The kind of a node of the stored map.
#[derive(PartialEq, Eq, Structural, Clone, Copy, Debug, Hash)]
pub enum NodeKind {
    Brush,
    Light,
}

/// The byte that stands for a node kind.
pub open spec fn node_kind_byte(kind: NodeKind) -> u8 {
    match kind {
        NodeKind::Brush => 0,
        NodeKind::Light => 1,
    }
}

impl NodeKind {
    /// The byte that stands for the kind.
    pub fn as_byte(self) -> (r: u8)
        ensures
            r == node_kind_byte(self),
    {
        match self {
            NodeKind::Brush => 0,
            NodeKind::Light => 1,
        }
    }

    /// Name of the tree that holds the contents of nodes of this kind.
    pub fn to_node_content_key(self) -> (r: Vec<u8>)
        ensures
            r@ == seq![CONTENT_KEY, node_kind_byte(self)],
    {
        let mut k: Vec<u8> = Vec::new();
        k.push(CONTENT_KEY);
        k.push(self.as_byte());
        k
    }
}

/// Name of the tree holding the snapshot of the state `id`: the state prefix
/// followed by the identifier's bytes.
pub fn snapshot_state_key(id: &Id) -> (r: Vec<u8>)
    ensures
        r@ == seq![STATE_KEY] + id_key(*id),
{
    let bytes = id.to_bytes();
    let mut k: Vec<u8> = Vec::new();
    k.push(STATE_KEY);
    let mut i: usize = 0;
    while i < 16
        invariant
            i <= 16,
            bytes@.len() == 16,
            bytes@ == id_key(*id),
            k@ == seq![STATE_KEY] + bytes@.take(i as int),
        decreases 16 - i,
    {
        k.push(bytes[i]);
        assert(bytes@.take(i + 1) =~= bytes@.take(i as int).push(bytes@[i as int]));
        i = i + 1;
    }
    assert(bytes@.take(16) =~= bytes@);
    k
}

/// The trees of the store never share a name: the history tree, the main state
/// tree, each snapshot tree and each content tree have different names.
pub proof fn lemma_tree_names_distinct(a: Id, b: Id, k1: NodeKind, k2: NodeKind)
    ensures
        a != b ==> seq![STATE_KEY] + id_key(a) != seq![STATE_KEY] + id_key(b),
        k1 != k2 ==> seq![CONTENT_KEY, node_kind_byte(k1)] != seq![CONTENT_KEY, node_kind_byte(k2)],
        seq![STATE_KEY] + id_key(a) != seq![CONTENT_KEY, node_kind_byte(k1)],
        seq![STATE_KEY] + id_key(a) != seq![HIST_KEY],
        seq![STATE_KEY] + id_key(a) != seq![STATE_KEY],
        seq![CONTENT_KEY, node_kind_byte(k1)] != seq![HIST_KEY],
        seq![CONTENT_KEY, node_kind_byte(k1)] != seq![STATE_KEY],
{
    crate::bytes::lemma_be_bytes_len(a.0 as nat, 16);
    crate::bytes::lemma_be_bytes_len(b.0 as nat, 16);
    let sa = seq![STATE_KEY] + id_key(a);
    let sb = seq![STATE_KEY] + id_key(b);
    assert(sa.len() == 17);
    if a != b && sa == sb {
        assert(sa.drop_first() =~= id_key(a));
        assert(sb.drop_first() =~= id_key(b));
        crate::id::lemma_id_key_roundtrip(a);
        crate::id::lemma_id_key_roundtrip(b);
    }
    if k1 != k2 {
        assert(seq![CONTENT_KEY, node_kind_byte(k1)][1] != seq![CONTENT_KEY, node_kind_byte(k2)][1]);
    }
    assert(sa[0] == STATE_KEY);
    assert(seq![CONTENT_KEY, node_kind_byte(k1)][0] == CONTENT_KEY);
}

} // verus!
