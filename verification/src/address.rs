//! The address codec: digest, checksum framing and base64 text form.
//!
//! A wallet address is derived in three steps.  The public key and a
//! subwallet id determine a 32-byte digest (the hash of the wallet contract's
//! initial state, computed by tonlib_core).  The digest is framed together
//! with the workchain id and a checksum under one of two schemes: scheme A
//! appends a CRC-32 over a 4-byte big-endian workchain and the digest, and
//! scheme B appends a CRC-16-CCITT over a 1-byte workchain and the digest,
//! followed by the tag byte 0x11 marking the bounceable, non-testnet class.
//! The framed bytes are encoded as URL-safe base64 without padding.

use vstd::prelude::*;
use crate::checksum::{crc16_ccitt, crc16_of, crc32, crc32_of};
use crate::encoding::{base64url, base64url_of};
use crate::keys::{derive_keypair, public_key_of, KeyPair};

verus! {

/// The wallet id used when the caller supplies no subwallet id; the value
/// tonlib_core uses for every wallet version before V5.
pub const DEFAULT_SUBWALLET_ID: i32 = 0x29a9a317;

/// Which checksum and framing an address is built with.
#[derive(Clone, Copy, PartialEq, Eq, Structural, Debug)]
pub enum ChecksumScheme {
    /// Scheme A: CRC-32 over a 4-byte big-endian workchain and the digest,
    /// appended as 4 big-endian bytes.
    Crc32,
    /// Scheme B: CRC-16-CCITT over a 1-byte workchain and the digest,
    /// appended as 2 big-endian bytes and followed by the tag byte 0x11.
    Crc16,
}

/// Big-endian byte `j` (0 is the most significant) of a 32-bit integer.
pub open spec fn be32_byte(n: u32, j: int) -> u8
    recommends
        0 <= j < 4,
{
    (n >> ((24 - 8 * j) as u32)) as u8
}

/// Scheme A checksum input: the workchain as 4 big-endian bytes, then the
/// digest.
pub open spec fn payload_a(workchain: i32, digest: Seq<u8>) -> Seq<u8> {
    seq![
        be32_byte(workchain as u32, 0),
        be32_byte(workchain as u32, 1),
        be32_byte(workchain as u32, 2),
        be32_byte(workchain as u32, 3),
    ] + digest
}

/// Scheme B checksum input: the workchain as 1 signed byte, then the digest.
pub open spec fn payload_b(workchain: i32, digest: Seq<u8>) -> Seq<u8> {
    seq![workchain as u8] + digest
}

/// Scheme A framed bytes: payload, then the CRC-32 as 4 big-endian bytes.
pub open spec fn framed_a(workchain: i32, digest: Seq<u8>) -> Seq<u8> {
    payload_a(workchain, digest) + seq![
        be32_byte(crc32_of(payload_a(workchain, digest)), 0),
        be32_byte(crc32_of(payload_a(workchain, digest)), 1),
        be32_byte(crc32_of(payload_a(workchain, digest)), 2),
        be32_byte(crc32_of(payload_a(workchain, digest)), 3),
    ]
}

/// Scheme B framed bytes: payload, then the CRC-16 as 2 big-endian bytes,
/// then the tag byte 0x11.
pub open spec fn framed_b(workchain: i32, digest: Seq<u8>) -> Seq<u8> {
    payload_b(workchain, digest) + seq![
        (crc16_of(payload_b(workchain, digest)) >> 8u16) as u8,
        crc16_of(payload_b(workchain, digest)) as u8,
        0x11u8,
    ]
}

/// The address text of a digest under a workchain and scheme.
pub open spec fn address_chars(digest: Seq<u8>, workchain: i32, scheme: ChecksumScheme) -> Seq<
    char,
> {
    match scheme {
        ChecksumScheme::Crc32 => base64url_of(framed_a(workchain, digest)),
        ChecksumScheme::Crc16 => base64url_of(framed_b(workchain, digest)),
    }
}

/// The subwallet id that takes effect: the caller's, or the default.
pub open spec fn effective_subwallet(subwallet_id: Option<i32>) -> i32 {
    match subwallet_id {
        Option::Some(s) => s,
        Option::None => DEFAULT_SUBWALLET_ID,
    }
}

/// The 32-byte hash of the initial state that tonlib_core builds for a V4R2
/// wallet contract from a public key and a wallet id; a function of those
/// two alone.
pub uninterp spec fn state_hash_of(public_key: Seq<u8>, subwallet_id: int) -> Seq<u8>;

/// Relies on tonlib_core: `TonWallet::new_with_params(WalletVersion::V4R2, ..)`
/// succeeds for a 32-byte public key, and the hash part of the derived
/// address is the 32-byte hash of the contract's initial state, which is
/// built from the public key and the wallet id alone.
#[verifier::external_body]
fn v4r2_state_hash(public_key: &Vec<u8>, subwallet_id: i32) -> (r: Vec<u8>)
    requires
        public_key@.len() == 32,
    ensures
        r@ == state_hash_of(public_key@, subwallet_id as int),
        r@.len() == 32,
{
    let key_pair = tonlib_core::wallet::mnemonic::KeyPair {
        public_key: public_key.clone(),
        secret_key: Vec::new(),
    };
    let wallet = tonlib_core::wallet::ton_wallet::TonWallet::new_with_params(
        tonlib_core::wallet::wallet_version::WalletVersion::V4R2,
        key_pair,
        0,
        subwallet_id,
    ).unwrap();
    wallet.address.hash_part.to_vec()
}

/// Frame a 32-byte digest with the workchain and checksum of the chosen
/// scheme and encode it as URL-safe base64 without padding.
pub fn frame_address(digest: &Vec<u8>, workchain: i32, scheme: ChecksumScheme) -> (r: String)
    requires
        digest@.len() == 32,
    ensures
        r@ == address_chars(digest@, workchain, scheme),
{
    let mut bytes: Vec<u8> = Vec::new();
    match scheme {
        ChecksumScheme::Crc32 => {
            let wc = #[verifier::truncate] (workchain as u32);
            bytes.push(#[verifier::truncate] ((wc >> 24u32) as u8));
            bytes.push(#[verifier::truncate] ((wc >> 16u32) as u8));
            bytes.push(#[verifier::truncate] ((wc >> 8u32) as u8));
            bytes.push(#[verifier::truncate] (wc as u8));
            append_bytes(&mut bytes, digest);
            proof {
                assert((wc >> 0u32) as u8 == wc as u8) by (bit_vector);
                assert(bytes@ =~= payload_a(workchain, digest@));
            }
            let c = crc32(&bytes);
            bytes.push(#[verifier::truncate] ((c >> 24u32) as u8));
            bytes.push(#[verifier::truncate] ((c >> 16u32) as u8));
            bytes.push(#[verifier::truncate] ((c >> 8u32) as u8));
            bytes.push(#[verifier::truncate] (c as u8));
            proof {
                assert((c >> 0u32) as u8 == c as u8) by (bit_vector);
                assert(bytes@ =~= framed_a(workchain, digest@));
            }
        },
        ChecksumScheme::Crc16 => {
            bytes.push(#[verifier::truncate] (workchain as u8));
            append_bytes(&mut bytes, digest);
            proof {
                assert(bytes@ =~= payload_b(workchain, digest@));
            }
            let c = crc16_ccitt(&bytes);
            bytes.push(#[verifier::truncate] ((c >> 8u16) as u8));
            bytes.push(#[verifier::truncate] (c as u8));
            bytes.push(0x11);
            proof {
                assert(bytes@ =~= framed_b(workchain, digest@));
            }
        },
    }
    base64url(&bytes)
}

fn append_bytes(out: &mut Vec<u8>, data: &Vec<u8>)
    ensures
        final(out)@ == old(out)@ + data@,
{
    let mut i: usize = 0;
    while i < data.len()
        invariant
            i <= data.len(),
            out@ == old(out)@ + data@.take(i as int),
        decreases data.len() - i,
    {
        out.push(data[i]);
        proof {
            assert(old(out)@ + data@.take(i as int + 1) =~= (old(out)@ + data@.take(
                i as int,
            )).push(data@[i as int]));
        }
        i = i + 1;
    }
    proof {
        assert(old(out)@ + data@.take(data@.len() as int) =~= old(out)@ + data@);
    }
}

/// The address text of a secret key: the digest of its public key under the
/// given subwallet id, framed under the given workchain and scheme.
pub open spec fn address_of_secret(
    secret: Seq<u8>,
    workchain: i32,
    subwallet_id: int,
    scheme: ChecksumScheme,
) -> Seq<char> {
    address_chars(state_hash_of(public_key_of(secret), subwallet_id), workchain, scheme)
}

/// Encode the address of a public key: derive the digest for the effective
/// subwallet id, then frame it.
pub fn encode_address(
    public_key: &Vec<u8>,
    workchain: i32,
    subwallet_id: Option<i32>,
    scheme: ChecksumScheme,
) -> (r: String)
    requires
        public_key@.len() == 32,
    ensures
        r@ == address_chars(
            state_hash_of(public_key@, effective_subwallet(subwallet_id) as int),
            workchain,
            scheme,
        ),
{
    let sub = match subwallet_id {
        Option::Some(s) => s,
        Option::None => DEFAULT_SUBWALLET_ID,
    };
    let digest = v4r2_state_hash(public_key, sub);
    frame_address(&digest, workchain, scheme)
}

/// Derive the address of a 32-byte seed: generate the key pair, then encode
/// the public key's address.
pub fn derive_address(
    seed: Vec<u8>,
    workchain: i32,
    subwallet_id: Option<i32>,
    scheme: ChecksumScheme,
) -> (r: (KeyPair, String))
    requires
        seed@.len() == 32,
    ensures
        r.0.wf(),
        r.0.secret@ == seed@,
        r.1@ == address_of_secret(
            seed@,
            workchain,
            effective_subwallet(subwallet_id) as int,
            scheme,
        ),
{
    let kp = derive_keypair(seed);
    let addr = encode_address(&kp.public, workchain, subwallet_id, scheme);
    (kp, addr)
}

/// The address the search compares against: workchain 0, the default
/// subwallet id, scheme B framing.
pub open spec fn v4r2_address_of(secret: Seq<u8>) -> Seq<char> {
    address_of_secret(secret, 0, DEFAULT_SUBWALLET_ID as int, ChecksumScheme::Crc16)
}

/// The V4R2 wallet address of a 32-byte ed25519 secret key.
pub fn ton_v4r2_address_from_private(secret_key_32: Vec<u8>) -> (r: String)
    requires
        secret_key_32@.len() == 32,
    ensures
        r@ == v4r2_address_of(secret_key_32@),
{
    let (_, addr) = derive_address(secret_key_32, 0, Option::None, ChecksumScheme::Crc16);
    addr
}

/// Address derivation is deterministic: one seed, workchain and subwallet id
/// always give one address string.
pub proof fn lemma_derive_address_deterministic(
    secret: Seq<u8>,
    workchain: i32,
    subwallet_id: int,
    scheme: ChecksumScheme,
    a1: Seq<char>,
    a2: Seq<char>,
)
    requires
        a1 == address_of_secret(secret, workchain, subwallet_id, scheme),
        a2 == address_of_secret(secret, workchain, subwallet_id, scheme),
    ensures
        a1 == a2,
{
}

} // verus!
