//! Persistent identifiers: 128-bit ULID values, their 16-byte big-endian key
//! encoding, and their generation.

use vstd::prelude::*;

use crate::bytes::{be_bytes, be_value, lex_order, num_order, pow256};

verus! {

#[verifier::external_type_specification]
#[verifier::external_body]
pub struct ExGenerator(ulid::Generator);

#[verifier::external_type_specification]
#[verifier::external_body]
pub struct ExMonotonicError(ulid::MonotonicError);

/// Persistent identifier: the 128 bits of a ULID.
#[derive(PartialEq, Eq, Structural, Clone, Copy, Debug, Hash, PartialOrd, Ord)]
pub struct Id(pub u128);

/// The database key bytes of an identifier: its 16 big-endian bytes.
pub open spec fn id_key(id: Id) -> Seq<u8> {
    be_bytes(id.0 as nat, 16)
}

/// `ulid::Ulid::to_bytes`, which returns the ULID's 128 bits in big-endian
/// order (`u128::to_be_bytes`).
#[verifier::external_body]
fn ulid_to_bytes(value: u128) -> (r: [u8; 16])
    ensures
        r@ == be_bytes(value as nat, 16),
{
    ulid::Ulid(value).to_bytes()
}

/// `ulid::Ulid::from_bytes`, which reads 16 big-endian bytes
/// (`u128::from_be_bytes`).
#[verifier::external_body]
fn ulid_from_bytes(bytes: [u8; 16]) -> (r: u128)
    ensures
        r as nat == be_value(bytes@),
{
    ulid::Ulid::from_bytes(bytes).0
}

/// `ulid::Generator::new`. The new generator's previous identifier is the
/// nil ULID, 0, and the generator returned carries that as its last identifier.
#[verifier::external_body]
fn ulid_generator_new() -> (r: IdGen)
    ensures
        r.last@ == 0,
{
    IdGen { generator: ulid::Generator::new(), last: Ghost(0u128) }
}

/// `ulid::Generator::generate` on the generator of `gen`. As its
/// documentation promises, an identifier it returns is larger than the
/// generator's previous one and becomes the previous one (the code draws a
/// fresh timestamped value, or adds one to the previous value within the same
/// millisecond; the promise holds while the clock stays below 2^48
/// milliseconds after 1970). It fails only when the previous identifier's 80
/// random bits are all ones, and then leaves the generator as it was. Which
/// identifier comes back depends on the clock and a random source and is not
/// stated.
#[verifier::external_body]
fn ulid_generate(gen: &mut IdGen) -> (r: Result<u128, ulid::MonotonicError>)
    ensures
        match r {
            Ok(u) => old(gen).last@ < u && final(gen).last@ == u,
            Err(_) => random_bits_exhausted(old(gen).last@) && final(gen).last@ == old(gen).last@,
        },
{
    match gen.generator.generate() {
        Ok(u) => Ok(u.0),
        Err(e) => Err(e),
    }
}

/// The 80 random bits of a ULID value are all ones: no identifier of the same
/// millisecond follows it.
pub open spec fn random_bits_exhausted(value: u128) -> bool {
    value as int % 0x1_0000_0000_0000_0000_0000 == 0xFFFF_FFFF_FFFF_FFFF_FFFF
}

/// `2^128` is `256^16`, so every `u128` fits in 16 key bytes.
pub proof fn lemma_u128_fits_key()
    ensures
        pow256(16) == u128::MAX as nat + 1,
{
    reveal_with_fuel(pow256, 17);
    assert(pow256(16) == 0x1_0000_0000_0000_0000_0000_0000_0000_0000nat);
}

impl Id {
    /// The 16 big-endian bytes of the identifier.
    pub fn to_bytes(&self) -> (r: [u8; 16])
        ensures
            r@ == id_key(*self),
    {
        ulid_to_bytes(self.0)
    }

    /// Reads an identifier from its 16 big-endian bytes.
    pub fn from_bytes(data: &[u8]) -> (r: Id)
        requires
            data@.len() == 16,
        ensures
            r.0 as nat == be_value(data@),
    {
        let mut arr: [u8; 16] = [0u8; 16];
        let mut i: usize = 0;
        while i < 16
            invariant
                data@.len() == 16,
                i <= 16,
                forall|j: int| 0 <= j < i ==> arr@[j] == data@[j],
            decreases 16 - i,
        {
            arr[i] = data[i];
            i = i + 1;
        }
        assert(arr@ =~= data@);
        Id(ulid_from_bytes(arr))
    }
}

/// Reading back the key bytes of an identifier gives the identifier.
pub proof fn lemma_id_key_roundtrip(id: Id)
    ensures
        be_value(id_key(id)) == id.0,
{
    lemma_u128_fits_key();
    crate::bytes::lemma_value_of_bytes(id.0 as nat, 16);
}

/// Any 16 key bytes are the key of the identifier read from them.
pub proof fn lemma_key_id_roundtrip(key: Seq<u8>)
    requires
        key.len() == 16,
    ensures
        be_value(key) <= u128::MAX,
        id_key(Id(be_value(key) as u128)) == key,
{
    crate::bytes::lemma_be_value_bound(key);
    lemma_u128_fits_key();
    crate::bytes::lemma_bytes_of_value(key);
}

/// Database keys of identifiers sort in the order of the identifiers.
pub proof fn lemma_id_key_order(a: Id, b: Id)
    ensures
        lex_order(id_key(a), id_key(b)) == num_order(a.0 as int, b.0 as int),
{
    lemma_u128_fits_key();
    crate::bytes::lemma_lex_order_of_bytes(a.0 as nat, b.0 as nat, 16);
}

/// Error from the identifier generator: the random part of the identifier
/// would overflow within one millisecond.
#[derive(PartialEq, Eq, Structural, Clone, Copy, Debug)]
pub enum IdGenError {
    RandomBitsOverflow,
}

/// Generates identifiers that increase monotonically.
pub struct IdGen {
    generator: ulid::Generator,
    /// The last identifier the generator produced (0 before the first).
    last: Ghost<u128>,
}

impl IdGen {
    /// The value of the last identifier produced, 0 before the first.
    pub closed spec fn last_id(&self) -> u128 {
        self.last@
    }

    /// A fresh generator, which has produced nothing yet.
    pub fn new() -> (r: IdGen)
        ensures
            r.last_id() == 0,
    {
        ulid_generator_new()
    }

    /// The next identifier, larger than every identifier this generator
    /// produced before; or the overflow error, which comes only when the last
    /// identifier's random bits are all ones and leaves the generator as it
    /// was.
    pub fn generate(&mut self) -> (r: Result<Id, IdGenError>)
        ensures
            match r {
                Ok(id) => old(self).last_id() < id.0 && final(self).last_id() == id.0,
                Err(e) => e == IdGenError::RandomBitsOverflow && random_bits_exhausted(
                    old(self).last_id(),
                ) && final(self).last_id() == old(self).last_id(),
            },
    {
        match ulid_generate(self) {
            Ok(u) => Ok(Id(u)),
            Err(_) => Err(IdGenError::RandomBitsOverflow),
        }
    }
}

} // verus!
