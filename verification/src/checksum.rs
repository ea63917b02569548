//! Content checksums (BLAKE3 digests) and content-addressed objects.

use vstd::prelude::*;

verus! {

/// Length of a checksum in bytes.
pub const CHECKSUM_LEN: usize = 32;

/// The BLAKE3 digest of a byte string.
pub uninterp spec fn blake3_digest(data: Seq<u8>) -> Seq<u8>;

/// `blake3::hash`, taking the 32 bytes of the resulting hash
/// (`blake3::Hash::as_bytes`). The digest is named, not stated.
#[verifier::external_body]
fn blake3_hash(data: &[u8]) -> (r: [u8; 32])
    ensures
        r@ == blake3_digest(data@),
{
    *blake3::hash(data).as_bytes()
}

/// The all-zero checksum.
pub open spec fn nil_checksum() -> Checksum {
    Checksum(vstd::array::spec_array_fill_for_copy_type::<u8, 32>(0u8))
}

/// Checksum of an object: the 32 bytes of its BLAKE3 digest.
#[derive(Clone, Copy, Debug)]
pub struct Checksum(pub [u8; 32]);

/// Whether two byte arrays of checksum length hold the same bytes.
fn same_bytes(a: &[u8; 32], b: &[u8; 32]) -> (r: bool)
    ensures
        r == (a@ == b@),
{
    let mut i: usize = 0;
    while i < 32
        invariant
            i <= 32,
            a@.len() == 32,
            b@.len() == 32,
            forall|j: int| 0 <= j < i ==> a@[j] == b@[j],
        decreases 32 - i,
    {
        if a[i] != b[i] {
            return false;
        }
        i = i + 1;
    }
    assert(a@ =~= b@);
    true
}

impl PartialEq for Checksum {
    fn eq(&self, other: &Checksum) -> (r: bool) {
        same_bytes(&self.0, &other.0)
    }
}

impl vstd::std_specs::cmp::PartialEqSpecImpl for Checksum {
    open spec fn obeys_eq_spec() -> bool {
        true
    }

    open spec fn eq_spec(&self, other: &Checksum) -> bool {
        self.0@ == other.0@
    }
}

impl Checksum {
    /// The all-zero checksum, standing for "no content yet".
    pub fn nil() -> (r: Checksum)
        ensures
            r == nil_checksum(),
            r.0@ == Seq::new(32, |i: int| 0u8),
    {
        let r = Checksum([0u8; 32]);
        assert(r.0@ =~= Seq::new(32, |i: int| 0u8));
        r
    }

    /// The raw bytes of the checksum.
    pub fn as_bytes(&self) -> (r: [u8; 32])
        ensures
            r@ == self.0@,
    {
        self.0
    }

    /// Reads a checksum from its 32 bytes.
    pub fn from_bytes(data: &[u8]) -> (r: Checksum)
        requires
            data@.len() == 32,
        ensures
            r.0@ == data@,
    {
        let mut arr: [u8; 32] = [0u8; 32];
        let mut i: usize = 0;
        while i < 32
            invariant
                data@.len() == 32,
                i <= 32,
                forall|j: int| 0 <= j < i ==> arr@[j] == data@[j],
            decreases 32 - i,
        {
            arr[i] = data[i];
            i = i + 1;
        }
        assert(arr@ =~= data@);
        Checksum(arr)
    }
}

/// Stored value for an object of any type, identified by its checksum.
#[derive(Debug)]
pub struct Object {
    pub data: Vec<u8>,
}

impl Object {
    /// The checksum of a byte string.
    pub fn checksum(bytes: &[u8]) -> (r: Checksum)
        ensures
            r.0@ == blake3_digest(bytes@),
    {
        Checksum(blake3_hash(bytes))
    }

    /// A new object holding raw data, with its checksum.
    pub fn new_raw(bytes: Vec<u8>) -> (r: (Checksum, Object))
        ensures
            r.0.0@ == blake3_digest(bytes@),
            r.1.data@ == bytes@,
    {
        let checksum = Self::checksum(bytes.as_slice());
        (checksum, Object { data: bytes })
    }

    /// An object holding a copy of stored bytes.
    pub fn from_bytes(data: &[u8]) -> (r: Object)
        ensures
            r.data@ == data@,
    {
        Object { data: vstd::slice::slice_to_vec(data) }
    }

    /// A copy of the object's bytes, for storing.
    pub fn as_bytes(&self) -> (r: Vec<u8>)
        ensures
            r@ == self.data@,
    {
        let r = self.data.clone();
        assert(r@ =~= self.data@);
        r
    }
}

/// Objects with the same bytes have the same checksum.
pub proof fn lemma_checksum_is_content_address(a: Seq<u8>, b: Seq<u8>)
    requires
        a == b,
    ensures
        blake3_digest(a) == blake3_digest(b),
{
}

} // verus!
