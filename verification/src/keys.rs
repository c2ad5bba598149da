//! Deterministic key derivation: a 64-bit index becomes a 32-byte seed, and
//! a seed becomes an ed25519 key pair.
//!
//! Only seeds of the form `0x00..00 || be64(index)` are ever produced: the
//! first 24 bytes are zero and the last 8 hold the index in big-endian order.
//! The mapping from index to seed is injective, which is proved below.

use vstd::prelude::*;

verus! {

/// Big-endian byte `j` (0 is the most significant) of a 64-bit integer.
pub open spec fn be64_byte(n: u64, j: int) -> u8
    recommends
        0 <= j < 8,
{
    (n >> ((56 - 8 * j) as u64)) as u8
}

/// The 32-byte seed of an index: 24 zero bytes, then the index big-endian.
pub open spec fn seed_of(index: u64) -> Seq<u8> {
    Seq::new(32, |i: int| if i < 24 { 0u8 } else { be64_byte(index, i - 24) })
}

/// Place the 8 big-endian bytes of `index` into the last 8 bytes of a
/// 32-byte zero buffer.
pub fn derive_seed(index: u64) -> (r: Vec<u8>)
    ensures
        r@ == seed_of(index),
        r@.len() == 32,
{
    let mut v: Vec<u8> = Vec::new();
    let mut i: usize = 0;
    while i < 24
        invariant
            i <= 24,
            v@.len() == i,
            forall|k: int| 0 <= k < i ==> v@[k] == 0u8,
        decreases 24 - i,
    {
        v.push(0u8);
        i = i + 1;
    }
    v.push(#[verifier::truncate] ((index >> 56u64) as u8));
    v.push(#[verifier::truncate] ((index >> 48u64) as u8));
    v.push(#[verifier::truncate] ((index >> 40u64) as u8));
    v.push(#[verifier::truncate] ((index >> 32u64) as u8));
    v.push(#[verifier::truncate] ((index >> 24u64) as u8));
    v.push(#[verifier::truncate] ((index >> 16u64) as u8));
    v.push(#[verifier::truncate] ((index >> 8u64) as u8));
    v.push(#[verifier::truncate] (index as u8));
    proof {
        assert(forall|k: int| 0 <= k < 32 ==> seed_of(index)[k] == (if k < 24 {
            0u8
        } else {
            be64_byte(index, k - 24)
        }));
        assert(v@[24] == be64_byte(index, 0));
        assert(v@[25] == be64_byte(index, 1));
        assert(v@[26] == be64_byte(index, 2));
        assert(v@[27] == be64_byte(index, 3));
        assert(v@[28] == be64_byte(index, 4));
        assert(v@[29] == be64_byte(index, 5));
        assert(v@[30] == be64_byte(index, 6));
        assert((index >> 0u64) as u8 == index as u8) by (bit_vector);
        assert(v@[31] == be64_byte(index, 7));
        assert(v@ =~= seed_of(index));
    }
    v
}

/// Seed derivation is a pure function: two derivations from the same index
/// give byte-identical seeds.
pub proof fn lemma_derive_seed_deterministic(index: u64, s1: Seq<u8>, s2: Seq<u8>)
    requires
        s1 == seed_of(index),
        s2 == seed_of(index),
    ensures
        s1 == s2,
{
}

/// Two distinct indices always derive two distinct seeds.
pub proof fn lemma_derive_seed_injective(i1: u64, i2: u64)
    requires
        seed_of(i1) == seed_of(i2),
    ensures
        i1 == i2,
{
    assert forall|j: int| 0 <= j < 8 implies be64_byte(i1, j) == be64_byte(i2, j) by {
        assert(seed_of(i1)[j + 24] == be64_byte(i1, j));
        assert(seed_of(i2)[j + 24] == be64_byte(i2, j));
    }
    assert(be64_byte(i1, 0) == be64_byte(i2, 0));
    assert(be64_byte(i1, 1) == be64_byte(i2, 1));
    assert(be64_byte(i1, 2) == be64_byte(i2, 2));
    assert(be64_byte(i1, 3) == be64_byte(i2, 3));
    assert(be64_byte(i1, 4) == be64_byte(i2, 4));
    assert(be64_byte(i1, 5) == be64_byte(i2, 5));
    assert(be64_byte(i1, 6) == be64_byte(i2, 6));
    assert(be64_byte(i1, 7) == be64_byte(i2, 7));
    assert((((i1 >> 56u64) as u8) == ((i2 >> 56u64) as u8) && ((i1 >> 48u64) as u8) == ((i2
        >> 48u64) as u8) && ((i1 >> 40u64) as u8) == ((i2 >> 40u64) as u8) && ((i1
        >> 32u64) as u8) == ((i2 >> 32u64) as u8) && ((i1 >> 24u64) as u8) == ((i2
        >> 24u64) as u8) && ((i1 >> 16u64) as u8) == ((i2 >> 16u64) as u8) && ((i1
        >> 8u64) as u8) == ((i2 >> 8u64) as u8) && ((i1 >> 0u64) as u8) == ((i2
        >> 0u64) as u8)) ==> i1 == i2) by (bit_vector);
}

/// The ed25519 public key of a 32-byte secret key, as ed25519_dalek computes
/// it; a function of the secret key alone.
pub uninterp spec fn public_key_of(secret: Seq<u8>) -> Seq<u8>;

/// Relies on ed25519_dalek: `SigningKey::from_bytes` and
/// `VerifyingKey::to_bytes` convert, `SigningKey::verifying_key` computes the
/// public key, which is determined by the secret key and is 32 bytes long.
#[verifier::external_body]
fn ed25519_public_key(secret: &Vec<u8>) -> (r: Vec<u8>)
    requires
        secret@.len() == 32,
    ensures
        r@ == public_key_of(secret@),
        r@.len() == 32,
{
    let mut bytes = [0u8; 32];
    bytes.copy_from_slice(secret.as_slice());
    let sk = ed25519_dalek::SigningKey::from_bytes(&bytes);
    sk.verifying_key().to_bytes().to_vec()
}

/// An ed25519 key pair held as plain 32-byte vectors.
pub struct KeyPair {
    pub secret: Vec<u8>,
    pub public: Vec<u8>,
}

impl KeyPair {
    /// The public key really is the one derived from the secret key.
    pub open spec fn wf(self) -> bool {
        &&& self.secret@.len() == 32
        &&& self.public@.len() == 32
        &&& self.public@ == public_key_of(self.secret@)
    }
}

/// Deterministic ed25519 key generation from a 32-byte seed; the seed itself
/// is the secret key.
pub fn derive_keypair(seed: Vec<u8>) -> (r: KeyPair)
    requires
        seed@.len() == 32,
    ensures
        r.wf(),
        r.secret@ == seed@,
{
    let public = ed25519_public_key(&seed);
    KeyPair { secret: seed, public }
}

} // verus!
