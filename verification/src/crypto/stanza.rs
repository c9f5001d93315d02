//! The `piv-p256` stanza of `age-plugin-yubikey`.
//!
//!   body   = ChaCha20-Poly1305(key = HKDF-SHA256(salt, label, shared),
//!                              nonce = 12 zero bytes, plain = file key)
//!   shared = ECDH(slot private key, ephemeral public key)  (on the YubiKey)
//!   salt   = SEC-1 compressed(ephemeral) || SEC-1 compressed(slot key)
//!   label  = "piv-p256"
//!
//! The ECDH happens on the YubiKey; what comes before and after it is
//! here.
use vstd::prelude::*;

use chacha20poly1305::aead::{Aead, KeyInit};
use p256::elliptic_curve::sec1::ToEncodedPoint;

use crate::encoding::{base64_standard_no_pad, decode_base64_no_pad};
use crate::text::{chars_of, range_eq};

verus! {

/// Length of an age file key.
pub const FILE_KEY_BYTES: usize = 16;

/// Length of a ChaCha20-Poly1305 tag.
pub const TAG_BYTES: usize = 16;

/// The stanza tag that `age-plugin-yubikey` writes for P-256 slots.
pub open spec fn p256_stanza_tag() -> Seq<char> {
    "piv-p256"@
}

/// The HKDF label, the bytes of "piv-p256".
pub open spec fn p256_label() -> Seq<u8> {
    seq![0x70u8, 0x69u8, 0x76u8, 0x2du8, 0x70u8, 0x32u8, 0x35u8, 0x36u8]
}

fn p256_label_bytes() -> (b: Vec<u8>)
    ensures
        b@ == p256_label(),
{
    let b: Vec<u8> = vec![0x70u8, 0x69u8, 0x76u8, 0x2du8, 0x70u8, 0x32u8, 0x35u8, 0x36u8];
    proof {
        assert(b@ =~= p256_label());
    }
    b
}

/// A P-256 public key, by its two SEC-1 encodings.
pub struct P256Point {
    pub uncompressed: Vec<u8>,
    pub compressed: Vec<u8>,
}

/// Why a `piv-p256` stanza could not be unwrapped.
#[derive(Debug, Clone, Copy, PartialEq, Eq)]
pub enum StanzaError {
    /// The stanza has no second argument (the ephemeral key).
    MissingEphemeralKey,
    /// The ephemeral key is not unpadded standard base64.
    EphemeralKeyNotBase64,
    /// The ephemeral key is not a P-256 point.
    EphemeralKeyInvalid,
    /// The body is not a wrapped file key (16 bytes and a 16-byte tag).
    BadBodyLength,
    /// The body does not authenticate under the derived key.
    UnwrapFailed,
    /// The slot's certificate does not hold a P-256 public key.
    SlotKeyInvalid,
}

/// The SEC-1 encodings (uncompressed, compressed) of the P-256 public key
/// that `p256::PublicKey::from_sec1_bytes` reads from bytes, if it reads
/// one.
pub uninterp spec fn p256_point_encodings(b: Seq<u8>) -> Option<(Seq<u8>, Seq<u8>)>;

/// What `age_core::primitives::hkdf` (HKDF-SHA256, 32 bytes out) derives.
pub uninterp spec fn hkdf_sha256(salt: Seq<u8>, label: Seq<u8>, ikm: Seq<u8>) -> Seq<u8>;

/// What ChaCha20-Poly1305 decryption (`Aead::decrypt` of the
/// `chacha20poly1305` crate) gives for a key, nonce and ciphertext with
/// its tag, if it authenticates.
pub uninterp spec fn chacha20poly1305_open(key: Seq<u8>, nonce: Seq<u8>, ct: Seq<u8>) -> Option<Seq<u8>>;

/// Calls `p256::PublicKey::from_sec1_bytes`, then `to_encoded_point`
/// (uncompressed and compressed) on the key; the encodings are named by
/// `p256_point_encodings`.
#[verifier::external_body]
pub(crate) fn p256_point(b: &[u8]) -> (r: Option<P256Point>)
    ensures
        match r {
            Some(p) => p256_point_encodings(b@) == Some((p.uncompressed@, p.compressed@)),
            None => p256_point_encodings(b@) is None,
        },
{
    p256::PublicKey::from_sec1_bytes(b).ok().map(|pk| P256Point {
        uncompressed: pk.to_encoded_point(false).as_bytes().to_vec(),
        compressed: pk.to_encoded_point(true).as_bytes().to_vec(),
    })
}

/// Calls `age_core::primitives::hkdf`; the key is named by `hkdf_sha256`.
#[verifier::external_body]
fn hkdf(salt: &[u8], label: &[u8], ikm: &[u8]) -> (k: [u8; 32])
    ensures
        k@ == hkdf_sha256(salt@, label@, ikm@),
{
    age_core::primitives::hkdf(salt, label, ikm)
}

/// Calls `Aead::decrypt` of `chacha20poly1305::ChaCha20Poly1305`; the
/// plaintext is named by `chacha20poly1305_open`, and (as the `aead` crate
/// cuts the 16-byte tag off the end) is 16 bytes shorter than the
/// ciphertext.
#[verifier::external_body]
fn chacha_open(key: &[u8; 32], nonce: &[u8; 12], ct: &[u8]) -> (r: Option<Vec<u8>>)
    ensures
        match r {
            Some(p) => chacha20poly1305_open(key@, nonce@, ct@) == Some(p@) && p@.len() + 16
                == ct@.len(),
            None => chacha20poly1305_open(key@, nonce@, ct@) is None,
        },
{
    chacha20poly1305::ChaCha20Poly1305::new(key.into()).decrypt(nonce.into(), ct).ok()
}

/// The public key of the slot, from the SEC-1 bytes of its certificate's
/// subject public key.
pub fn slot_public_key(raw: &[u8]) -> (r: Result<P256Point, StanzaError>)
    ensures
        match p256_point_encodings(raw@) {
            Some((u, c)) => r is Ok && r->Ok_0.uncompressed@ == u && r->Ok_0.compressed@ == c,
            None => r == Err::<P256Point, StanzaError>(StanzaError::SlotKeyInvalid),
        },
{
    match p256_point(raw) {
        Some(p) => Ok(p),
        None => Err(StanzaError::SlotKeyInvalid),
    }
}

/// Whether a stanza is a `piv-p256` stanza.
pub fn is_p256_stanza(tag: &str) -> (b: bool)
    ensures
        b == (tag@ == p256_stanza_tag()),
{
    let v = chars_of(tag);
    let t = chars_of("piv-p256");
    proof {
        assert(v@.subrange(0, v@.len() as int) == v@);
    }
    range_eq(&v, 0, v.len(), &t)
}

/// The ephemeral key of a `piv-p256` stanza: its second argument,
/// unpadded standard base64 of a P-256 point.
pub open spec fn ephemeral_key(args: Seq<Seq<char>>) -> Result<(Seq<u8>, Seq<u8>), StanzaError> {
    if args.len() < 2 {
        Err(StanzaError::MissingEphemeralKey)
    } else {
        match base64_standard_no_pad(args[1]) {
            None => Err(StanzaError::EphemeralKeyNotBase64),
            Some(b) => match p256_point_encodings(b) {
                None => Err(StanzaError::EphemeralKeyInvalid),
                Some(e) => Ok(e),
            },
        }
    }
}

/// Reads the ephemeral key of a `piv-p256` stanza from its arguments.
pub fn stanza_ephemeral_key(args: &Vec<String>) -> (r: Result<P256Point, StanzaError>)
    ensures
        match ephemeral_key(args@.map_values(|a: String| a@)) {
            Ok((u, c)) => r is Ok && r->Ok_0.uncompressed@ == u && r->Ok_0.compressed@ == c,
            Err(e) => r == Err::<P256Point, StanzaError>(e),
        },
{
    let ghost a = args@.map_values(|s: String| s@);
    if args.len() < 2 {
        return Err(StanzaError::MissingEphemeralKey);
    }
    assert(a[1] == args@[1]@);
    let bytes = match decode_base64_no_pad(args[1].as_str()) {
        None => {
            return Err(StanzaError::EphemeralKeyNotBase64);
        },
        Some(b) => b,
    };
    match p256_point(bytes.as_slice()) {
        None => Err(StanzaError::EphemeralKeyInvalid),
        Some(p) => Ok(p),
    }
}

/// The file key that a `piv-p256` stanza body wraps, given the ECDH
/// secret and the compressed encodings of the ephemeral and slot keys.
pub open spec fn file_key_unwrap(
    shared: Seq<u8>,
    ephemeral_compressed: Seq<u8>,
    slot_compressed: Seq<u8>,
    body: Seq<u8>,
) -> Result<Seq<u8>, StanzaError> {
    let key = hkdf_sha256(ephemeral_compressed + slot_compressed, p256_label(), shared);
    if body.len() != FILE_KEY_BYTES + TAG_BYTES {
        Err(StanzaError::BadBodyLength)
    } else {
        match chacha20poly1305_open(key, Seq::new(12, |i: int| 0u8), body) {
            None => Err(StanzaError::UnwrapFailed),
            Some(p) => Ok(p),
        }
    }
}

/// Unwraps the file key from a `piv-p256` stanza body.
pub fn unwrap_file_key(
    shared: &[u8],
    ephemeral: &P256Point,
    slot_key: &P256Point,
    body: &[u8],
) -> (r: Result<[u8; 16], StanzaError>)
    ensures
        match file_key_unwrap(shared@, ephemeral.compressed@, slot_key.compressed@, body@) {
            Ok(k) => r is Ok && r->Ok_0@ == k,
            Err(e) => r == Err::<[u8; 16], StanzaError>(e),
        },
{
    let mut salt: Vec<u8> = Vec::new();
    let mut i: usize = 0;
    while i < ephemeral.compressed.len()
        invariant
            i <= ephemeral.compressed@.len(),
            salt@ == ephemeral.compressed@.take(i as int),
        decreases ephemeral.compressed.len() - i,
    {
        salt.push(ephemeral.compressed[i]);
        i += 1;
        proof {
            assert(ephemeral.compressed@.take(i as int) == ephemeral.compressed@.take(i - 1).push(
                ephemeral.compressed@[i - 1],
            ));
        }
    }
    let mut j: usize = 0;
    while j < slot_key.compressed.len()
        invariant
            j <= slot_key.compressed@.len(),
            salt@ == ephemeral.compressed@ + slot_key.compressed@.take(j as int),
            ephemeral.compressed@.take(ephemeral.compressed@.len() as int) == ephemeral.compressed@,
        decreases slot_key.compressed.len() - j,
    {
        salt.push(slot_key.compressed[j]);
        j += 1;
        proof {
            assert(slot_key.compressed@.take(j as int) == slot_key.compressed@.take(j - 1).push(
                slot_key.compressed@[j - 1],
            ));
        }
    }
    proof {
        assert(ephemeral.compressed@.take(ephemeral.compressed@.len() as int) == ephemeral.compressed@);
        assert(slot_key.compressed@.take(slot_key.compressed@.len() as int) == slot_key.compressed@);
    }
    let label = p256_label_bytes();
    let key = hkdf(salt.as_slice(), label.as_slice(), shared);
    if body.len() != FILE_KEY_BYTES + TAG_BYTES {
        return Err(StanzaError::BadBodyLength);
    }
    let nonce: [u8; 12] = [0u8; 12];
    proof {
        assert(nonce@ =~= Seq::new(12, |i: int| 0u8));
    }
    let plain = match chacha_open(&key, &nonce, body) {
        None => {
            return Err(StanzaError::UnwrapFailed);
        },
        Some(p) => p,
    };
    let mut out: [u8; 16] = [0u8; 16];
    let mut k: usize = 0;
    while k < 16
        invariant
            plain@.len() == 16,
            k <= 16,
            forall|m: int| 0 <= m < k ==> out@[m] == plain@[m],
        decreases 16 - k,
    {
        out[k] = plain[k];
        k += 1;
    }
    proof {
        assert(out@ =~= plain@);
    }
    Ok(out)
}

} // verus!
