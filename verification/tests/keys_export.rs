use ton_vanity::address::{derive_address, encode_address, ChecksumScheme};
use ton_vanity::export::{export_v4r2_to_mnemonic_24, ton_v4r2_seed_from_private, ExportError};
use ton_vanity::keys::{derive_keypair, derive_seed, KeyPair};

#[test]
fn derive_seed_layout() {
    let seed = derive_seed(0x0102030405060708);
    assert_eq!(seed.len(), 32);
    assert_eq!(&seed[..24], &[0u8; 24]);
    assert_eq!(&seed[24..], &[1u8, 2, 3, 4, 5, 6, 7, 8]);
}

#[test]
fn derive_seed_is_pure_and_injective() {
    assert_eq!(derive_seed(42), derive_seed(42));
    assert_ne!(derive_seed(42), derive_seed(43));
    assert_ne!(derive_seed(0), derive_seed(1 << 63));
}

#[test]
fn ed25519_public_key_reference_vector() {
    // Test vector 1 of RFC 8032: secret key and its public key.
    let secret = hex::decode("9d61b19deffd5a60ba844af492ec2cc44449c5697b326919703bac031cae7f60")
        .unwrap();
    let public = hex::decode("d75a980182b10ab7d54bfed3c964073a0ee172f3daa62325af021a68f707511a")
        .unwrap();
    let kp = derive_keypair(secret.clone());
    assert_eq!(kp.secret, secret);
    assert_eq!(kp.public, public);
}

#[test]
fn derive_address_is_deterministic() {
    let seed = derive_seed(7);
    let (_, a1) = derive_address(seed.clone(), 0, Some(1), ChecksumScheme::Crc16);
    let (_, a2) = derive_address(seed.clone(), 0, Some(1), ChecksumScheme::Crc16);
    assert_eq!(a1, a2);
    let kp = derive_keypair(seed);
    let e1 = encode_address(&kp.public, 0, Some(1), ChecksumScheme::Crc16);
    assert_eq!(a1, e1);
}

#[test]
fn derive_address_depends_on_subwallet() {
    let seed = derive_seed(7);
    let (_, a1) = derive_address(seed.clone(), 0, Some(1), ChecksumScheme::Crc16);
    let (_, a2) = derive_address(seed, 0, Some(2), ChecksumScheme::Crc16);
    assert_ne!(a1, a2);
}

#[test]
fn state_digest_differs_from_public_key() {
    // The digest framed into the address is the contract state hash, not the
    // raw public key: framing the public key itself gives another string.
    let seed = derive_seed(7);
    let kp = derive_keypair(seed.clone());
    let (_, addr) = derive_address(seed, 0, None, ChecksumScheme::Crc16);
    let framed_public = ton_vanity::address::frame_address(&kp.public, 0, ChecksumScheme::Crc16);
    assert_ne!(addr, framed_public);
}

#[test]
fn mnemonic_of_zero_key() {
    let kp = derive_keypair(vec![0u8; 32]);
    let phrase = export_v4r2_to_mnemonic_24(&kp).unwrap();
    let words: Vec<&str> = phrase.split(' ').collect();
    assert_eq!(words.len(), 24);
    for w in &words[..23] {
        assert_eq!(*w, "abandon");
    }
    assert_eq!(words[23], "art");
}

#[test]
fn mnemonic_rejects_wrong_key_length() {
    let kp = KeyPair { secret: vec![0u8; 31], public: vec![0u8; 32] };
    assert_eq!(export_v4r2_to_mnemonic_24(&kp), Err(ExportError::WrongKeyLength));
}

#[test]
fn seed_from_private_rebuilds_key_pair() {
    let seed = derive_seed(42);
    let kp = ton_v4r2_seed_from_private(seed.clone());
    assert_eq!(kp.secret, seed);
    assert_eq!(kp.public, derive_keypair(seed).public);
}
