use ton_vanity::address::{frame_address, ChecksumScheme};
use ton_vanity::checksum::{crc16_ccitt, crc32};
use ton_vanity::encoding::{base64url, hex_encode};

#[test]
fn crc16_golden_zero_digest_workchain_zero() {
    // Scheme B checksum input for an all-zero digest and workchain 0:
    // 1 zero workchain byte followed by 32 zero digest bytes.
    let payload = vec![0u8; 33];
    assert_eq!(crc16_ccitt(&payload), 0xB33E);
}

#[test]
fn crc16_check_value() {
    let data: Vec<u8> = b"123456789".to_vec();
    assert_eq!(crc16_ccitt(&data), 0x29B1);
}

#[test]
fn crc32_check_value() {
    let data: Vec<u8> = b"123456789".to_vec();
    assert_eq!(crc32(&data), 0xCBF43926);
}

#[test]
fn crc16_empty_is_initial_value() {
    assert_eq!(crc16_ccitt(&Vec::new()), 0xFFFF);
}

#[test]
fn base64url_known_vectors() {
    assert_eq!(base64url(&Vec::new()), "");
    assert_eq!(base64url(&vec![0u8, 0, 0]), "AAAA");
    assert_eq!(base64url(&vec![0xFBu8, 0xEF, 0xBE]), "----");
    assert_eq!(base64url(&b"hello!!".to_vec()), "aGVsbG8hIQ");
    assert_eq!(base64url(&b"hi".to_vec()), "aGk");
}

#[test]
fn hex_known_vectors() {
    assert_eq!(hex_encode(&Vec::new()), "");
    assert_eq!(hex_encode(&vec![0u8, 255, 16]), "00ff10");
    let all = vec![0x9Du8, 0x61, 0xB1, 0x9D];
    assert_eq!(hex_encode(&all), "9d61b19d");
}

#[test]
fn hex_matches_reference_encoder() {
    let data: Vec<u8> = (0u8..=255).collect();
    assert_eq!(hex_encode(&data), hex::encode(&data));
}

#[test]
fn scheme_b_frame_has_48_characters_and_tag() {
    let digest = vec![0u8; 32];
    let addr = frame_address(&digest, 0, ChecksumScheme::Crc16);
    // 36 framed bytes become 48 base64 characters.
    assert_eq!(addr.len(), 48);
    // workchain byte 0, zero digest, crc 0xB33E, tag 0x11.
    let mut framed = vec![0u8; 33];
    framed.push(0xB3);
    framed.push(0x3E);
    framed.push(0x11);
    assert_eq!(addr, base64url(&framed));
}

#[test]
fn scheme_a_frame_has_54_characters() {
    let digest = vec![0u8; 32];
    let addr = frame_address(&digest, 0, ChecksumScheme::Crc32);
    // 40 framed bytes become 54 base64 characters without padding.
    assert_eq!(addr.len(), 54);
}

#[test]
fn frame_address_differs_between_schemes() {
    let digest: Vec<u8> = (0u8..32).collect();
    let a = frame_address(&digest, 0, ChecksumScheme::Crc32);
    let b = frame_address(&digest, 0, ChecksumScheme::Crc16);
    assert_ne!(a, b);
}

#[test]
fn frame_address_negative_workchain() {
    let digest = vec![0u8; 32];
    let a0 = frame_address(&digest, 0, ChecksumScheme::Crc16);
    let am1 = frame_address(&digest, -1, ChecksumScheme::Crc16);
    assert_ne!(a0, am1);
    // The first framed byte of workchain -1 is 0xFF.
    let mut framed = vec![0xFFu8];
    framed.extend_from_slice(&[0u8; 32]);
    let crc = crc16_ccitt(&framed);
    framed.push((crc >> 8) as u8);
    framed.push(crc as u8);
    framed.push(0x11);
    assert_eq!(am1, base64url(&framed));
}
