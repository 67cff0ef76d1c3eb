use vstd::bytes::{spec_u64_from_le_bytes, spec_u64_to_le_bytes, u64_from_le_bytes, u64_to_le_bytes};
use vstd::prelude::*;
use vstd::slice::slice_subrange;

verus! {

/// Number of bytes of the key of a keyed hash.
pub const KEY_BYTES: usize = 32;

/// A family of hash functions that a 64-bit seed selects from. An instance is made
/// from a seed, takes in bytes piece by piece, and yields a 64-bit digest that the
/// seed and the bytes taken in so far determine.
pub trait KeyedHasher: Sized {
    /// The digest that the family gives to `input` under `seed`. Left open here; a
    /// verified family says what it is.
    open spec fn digest_of(seed: u64, input: Seq<u8>) -> u64 {
        arbitrary()
    }

    /// The seed that the instance was made from. Left open here; a verified family
    /// says what it is.
    open spec fn seed(&self) -> u64 {
        arbitrary()
    }

    /// The bytes that the instance has taken in, in the order of their arrival.
    /// Left open here; a verified family says what they are.
    open spec fn written(&self) -> Seq<u8> {
        arbitrary()
    }

    /// A fresh instance for `seed`, which has taken in nothing yet.
    fn new_with_seed(seed: u64) -> (hasher: Self)
        ensures
            hasher.seed() == seed,
            hasher.written() == Seq::<u8>::empty(),
    ;

    /// Takes in `bytes` after what was taken in before.
    fn write(&mut self, bytes: &[u8])
        ensures
            final(self).seed() == old(self).seed(),
            final(self).written() == old(self).written() + bytes@,
    ;

    /// The digest of what was taken in so far. The instance stays usable.
    fn finish(&self) -> (digest: u64)
        ensures
            digest == Self::digest_of(self.seed(), self.written()),
    ;

    /// An independent instance in the same state.
    fn duplicate(&self) -> (copy: Self)
        ensures
            copy.seed() == self.seed(),
            copy.written() == self.written(),
    ;
}

/// Key of the keyed hash for a seed: the eight little-endian bytes of the seed,
/// repeated until the key is full.
pub open spec fn seed_key(seed: u64) -> Seq<u8> {
    Seq::new(KEY_BYTES as nat, |i: int| spec_u64_to_le_bytes(seed)[i % 8])
}

/// Computes the key for a seed.
pub fn derive_key(seed: u64) -> (key: [u8; 32])
    ensures
        key@ == seed_key(seed),
{
    let seed_bytes = u64_to_le_bytes(seed);
    let mut key = [0u8; 32];
    let mut i: usize = 0;
    while i < KEY_BYTES
        invariant
            i <= KEY_BYTES,
            seed_bytes@ == spec_u64_to_le_bytes(seed),
            seed_bytes@.len() == 8,
            forall|j: int| 0 <= j < i ==> key@[j] == spec_u64_to_le_bytes(seed)[j % 8],
        decreases KEY_BYTES - i,
    {
        key[i] = seed_bytes[i % 8];
        i = i + 1;
    }
    assert(key@ =~= seed_key(seed));
    key
}

/// The 32 bytes that BLAKE3 in keyed mode gives to `input` under the 32-byte `key`.
pub uninterp spec fn blake3_keyed_hash(key: Seq<u8>, input: Seq<u8>) -> Seq<u8>;

/// `blake3::keyed_hash`, with the hash handed out as its bytes: the keyed BLAKE3
/// hash of `input` under `key`, which `blake3_keyed_hash` names.
#[verifier::external_body]
fn keyed_hash(key: &[u8; 32], input: &[u8]) -> (hash: [u8; 32])
    ensures
        hash@ == blake3_keyed_hash(key@, input@),
{
    *blake3::keyed_hash(key, input).as_bytes()
}

/// The 64-bit digest read from the front of a hash: its first eight bytes, taken
/// as a little-endian number.
pub open spec fn leading_u64(hash: Seq<u8>) -> u64 {
    spec_u64_from_le_bytes(hash.subrange(0, 8))
}

/// Reads the 64-bit digest from the front of a hash.
pub fn digest_from_hash(hash: &[u8; 32]) -> (digest: u64)
    ensures
        digest == leading_u64(hash@),
{
    u64_from_le_bytes(slice_subrange(hash.as_slice(), 0, 8))
}

/// The digest that keyed BLAKE3 gives to `input` under the key of `seed`.
pub open spec fn blake3_digest(seed: u64, input: Seq<u8>) -> u64 {
    leading_u64(blake3_keyed_hash(seed_key(seed), input))
}

/// A seed together with the key derived from it.
#[derive(Clone, Copy, Debug)]
pub struct SeedKey {
    seed: u64,
    key: [u8; 32],
}

impl SeedKey {
    #[verifier::type_invariant]
    spec fn key_matches_seed(self) -> bool {
        self.key@ == seed_key(self.seed)
    }

    /// The seed.
    pub closed spec fn seed(self) -> u64 {
        self.seed
    }

    /// Derives the key of `seed`.
    pub fn new(seed: u64) -> (derived: SeedKey)
        ensures
            derived.seed() == seed,
    {
        SeedKey { seed, key: derive_key(seed) }
    }

    /// The key.
    pub fn key(&self) -> (key: &[u8; 32])
        ensures
            key@ == seed_key(self.seed()),
    {
        proof {
            use_type_invariant(self);
        }
        &self.key
    }
}

/// Keyed BLAKE3 as a seeded hasher.
#[derive(Clone, Debug)]
pub struct Blake3Hasher {
    key: SeedKey,
    input: Vec<u8>,
}

impl KeyedHasher for Blake3Hasher {
    open spec fn digest_of(seed: u64, input: Seq<u8>) -> u64 {
        blake3_digest(seed, input)
    }

    closed spec fn seed(&self) -> u64 {
        self.key.seed()
    }

    closed spec fn written(&self) -> Seq<u8> {
        self.input@
    }

    fn new_with_seed(seed: u64) -> (hasher: Self) {
        Blake3Hasher { key: SeedKey::new(seed), input: Vec::new() }
    }

    fn write(&mut self, bytes: &[u8]) {
        let mut i: usize = 0;
        while i < bytes.len()
            invariant
                i <= bytes.len(),
                self.key == old(self).key,
                self.input@ == old(self).input@ + bytes@.take(i as int),
            decreases bytes.len() - i,
        {
            self.input.push(bytes[i]);
            assert(bytes@.take(i + 1) =~= bytes@.take(i as int).push(bytes@[i as int]));
            i = i + 1;
        }
        assert(bytes@.take(bytes.len() as int) =~= bytes@);
    }

    fn finish(&self) -> (digest: u64) {
        let hash = keyed_hash(self.key.key(), self.input.as_slice());
        digest_from_hash(&hash)
    }

    fn duplicate(&self) -> (copy: Self) {
        Blake3Hasher { key: self.key, input: self.input.clone() }
    }
}

} // verus!
