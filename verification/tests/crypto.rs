use base64::Engine;
use chacha20poly1305::aead::{Aead, KeyInit};
use ghostwire::cli::section_summary;
use ghostwire::crypto::plaintext::finish_plaintext;
use ghostwire::crypto::stanza::{is_p256_stanza, slot_public_key, stanza_ephemeral_key, unwrap_file_key, StanzaError};
use ghostwire::encoding::{hex_bytes, hex_short};
use p256::elliptic_curve::sec1::ToEncodedPoint;

fn point_of(scalar: u8) -> Vec<u8> {
    let mut bytes = [0u8; 32];
    bytes[31] = scalar;
    let sk = p256::SecretKey::from_slice(&bytes).unwrap();
    sk.public_key().to_encoded_point(true).as_bytes().to_vec()
}

#[test]
fn stanza_tag() {
    assert!(is_p256_stanza("piv-p256"));
    assert!(!is_p256_stanza("X25519"));
    assert!(!is_p256_stanza("piv-p256 "));
}

#[test]
fn stanza_ephemeral_key_errors() {
    assert_eq!(stanza_ephemeral_key(&vec!["tag".to_string()]).err(), Some(StanzaError::MissingEphemeralKey));
    assert_eq!(stanza_ephemeral_key(&vec!["tag".to_string(), "!!".to_string()]).err(), Some(StanzaError::EphemeralKeyNotBase64));
    assert_eq!(stanza_ephemeral_key(&vec!["tag".to_string(), "AAAA".to_string()]).err(), Some(StanzaError::EphemeralKeyInvalid));
    let eph = point_of(7);
    let arg = base64::engine::general_purpose::STANDARD_NO_PAD.encode(&eph);
    let p = stanza_ephemeral_key(&vec!["tag".to_string(), arg]).ok().unwrap();
    assert_eq!(p.compressed, eph);
    assert_eq!(p.uncompressed.len(), 65);
    assert_eq!(p.uncompressed[0], 4);
}

#[test]
fn stanza_unwrap_roundtrip() {
    let eph = slot_public_key(&point_of(3)).unwrap();
    let slot = slot_public_key(&point_of(5)).unwrap();
    let shared = [0x42u8; 32];
    let mut salt = eph.compressed.clone();
    salt.extend_from_slice(&slot.compressed);
    let key = age_core::primitives::hkdf(&salt, b"piv-p256", &shared);
    let file_key = [9u8; 16];
    let cipher = chacha20poly1305::ChaCha20Poly1305::new((&key).into());
    let body = cipher.encrypt((&[0u8; 12]).into(), &file_key[..]).unwrap();
    assert_eq!(unwrap_file_key(&shared, &eph, &slot, &body), Ok(file_key));
    let mut bad = body.clone();
    bad[0] ^= 1;
    assert_eq!(unwrap_file_key(&shared, &eph, &slot, &bad), Err(StanzaError::UnwrapFailed));
    assert_eq!(unwrap_file_key(&shared, &eph, &slot, &body[..31]), Err(StanzaError::BadBodyLength));
    // Swapping the keys changes the salt, so the body no longer opens.
    assert_eq!(unwrap_file_key(&shared, &slot, &eph, &body), Err(StanzaError::UnwrapFailed));
}

#[test]
fn plaintext_checks() {
    assert_eq!(finish_plaintext(b"[Interface]".to_vec(), false), Ok("[Interface]".to_string()));
    let full = vec![b'a'; 65536];
    assert_eq!(finish_plaintext(full.clone(), true), Err("config déchiffrée > 65536 o : refus".to_string()));
    assert_eq!(finish_plaintext(full, false).unwrap().len(), 65536);
    let err = finish_plaintext(vec![0xff, 0xfe], false).unwrap_err();
    assert!(err.starts_with("config déchiffrée non-UTF-8 : "));
}

#[test]
fn hex_fingerprints() {
    let mut k = [0u8; 32];
    k[0] = 0xab;
    k[1] = 0x01;
    k[31] = 0xff;
    assert_eq!(hex_short(&k), "ab010000");
    let h = hex_bytes(&k);
    assert_eq!(h.len(), 64);
    assert!(h.starts_with("ab010000"));
    assert!(h.ends_with("ff"));
}

#[test]
fn decrypted_section_summary() {
    let s = section_summary("# c\n[Interface]\nPrivateKey = x\n  [Peer]  \r\n[Peer]\n[]\nfoo]\n");
    assert_eq!(s.sections, vec!["[Interface]", "[Peer]", "[Peer]", "[]"]);
    assert_eq!(s.peer_count, 2);
    assert!(s.has_interface);
    let s = section_summary("");
    assert!(s.sections.is_empty() && s.peer_count == 0 && !s.has_interface);
}

#[test]
fn slot_public_key_forms() {
    let c = point_of(5);
    let p = slot_public_key(&c).unwrap();
    assert_eq!(p.compressed, c);
    assert_eq!(p.uncompressed.len(), 65);
    // The uncompressed form reads back to the same point.
    let q = slot_public_key(&p.uncompressed).unwrap();
    assert_eq!(q.compressed, c);
    assert_eq!(slot_public_key(&[0u8; 33]).err(), Some(StanzaError::SlotKeyInvalid));
    assert_eq!(slot_public_key(&[]).err(), Some(StanzaError::SlotKeyInvalid));
}
