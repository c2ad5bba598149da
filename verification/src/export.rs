//! Export of a found private key as a human-recoverable phrase.

use vstd::prelude::*;
use crate::keys::{derive_keypair, KeyPair};

verus! {

/// Errors of the export step.
#[derive(Clone, Copy, PartialEq, Eq, Structural, Debug)]
pub enum ExportError {
    /// The secret key is not exactly 32 bytes long.
    WrongKeyLength,
}

/// The 24-word English mnemonic phrase that bip39 derives from 32 bytes of
/// entropy; a function of the entropy alone.
pub uninterp spec fn mnemonic_of(entropy: Seq<u8>) -> Seq<char>;

/// Relies on bip39: `Mnemonic::from_entropy` succeeds for 32 bytes of
/// entropy (256 bits are a multiple of 32 within the allowed sizes), and the
/// displayed phrase depends on the entropy alone.
#[verifier::external_body]
fn mnemonic_phrase_32(entropy: &Vec<u8>) -> (r: String)
    requires
        entropy@.len() == 32,
    ensures
        r@ == mnemonic_of(entropy@),
{
    let mnemonic = bip39::Mnemonic::from_entropy(entropy.as_slice()).unwrap();
    mnemonic.to_string()
}

/// Encode the secret key of a wallet key pair as a recoverable 24-word
/// phrase; a key that is not 32 bytes long is rejected.
pub fn export_v4r2_to_mnemonic_24(key_pair: &KeyPair) -> (r: Result<String, ExportError>)
    ensures
        match r {
            Result::Ok(s) => key_pair.secret@.len() == 32 && s@ == mnemonic_of(key_pair.secret@),
            Result::Err(e) => key_pair.secret@.len() != 32 && e == ExportError::WrongKeyLength,
        },
{
    if key_pair.secret.len() != 32 {
        Result::Err(ExportError::WrongKeyLength)
    } else {
        Result::Ok(mnemonic_phrase_32(&key_pair.secret))
    }
}

/// Rebuild the full wallet key pair from a found 32-byte private key; the
/// same key pair the search derived for that key.
pub fn ton_v4r2_seed_from_private(secret_key_32: Vec<u8>) -> (r: KeyPair)
    requires
        secret_key_32@.len() == 32,
    ensures
        r.wf(),
        r.secret@ == secret_key_32@,
{
    derive_keypair(secret_key_32)
}

} // verus!
