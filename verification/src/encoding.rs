//! Base64 decoding (through the `base64` crate) and hexadecimal display.
use vstd::prelude::*;

use base64::Engine;

verus! {

/// What the `base64` crate's `STANDARD` engine (standard alphabet, padding
/// required) decodes from a string; the error side is the text of the
/// `DecodeError`.
pub uninterp spec fn base64_standard(s: Seq<char>) -> Result<Seq<u8>, Seq<char>>;

/// What the `base64` crate's `STANDARD_NO_PAD` engine (standard alphabet,
/// no padding) decodes from a string, if anything.
pub uninterp spec fn base64_standard_no_pad(s: Seq<char>) -> Option<Seq<u8>>;

/// Calls `base64::engine::general_purpose::STANDARD.decode`; the bytes, or
/// the text of the decoding error, are named by `base64_standard`.
#[verifier::external_body]
pub(crate) fn decode_base64_standard(s: &str) -> (r: Result<Vec<u8>, String>)
    ensures
        match r {
            Ok(b) => base64_standard(s@) == Ok::<Seq<u8>, Seq<char>>(b@),
            Err(e) => base64_standard(s@) == Err::<Seq<u8>, Seq<char>>(e@),
        },
{
    base64::engine::general_purpose::STANDARD.decode(s).map_err(|e| e.to_string())
}

/// Calls `base64::engine::general_purpose::STANDARD_NO_PAD.decode`; the
/// bytes, if the input decodes, are named by `base64_standard_no_pad`.
#[verifier::external_body]
pub(crate) fn decode_base64_no_pad(s: &str) -> (r: Option<Vec<u8>>)
    ensures
        match r {
            Some(b) => base64_standard_no_pad(s@) == Some(b@),
            None => base64_standard_no_pad(s@) is None,
        },
{
    base64::engine::general_purpose::STANDARD_NO_PAD.decode(s).ok()
}

/// Lower-case hexadecimal digit of `d < 16`.
pub open spec fn hex_digit(d: u8) -> char {
    if d < 10 {
        ((d + 48) as u8) as char
    } else {
        ((d + 87) as u8) as char
    }
}

/// Two lower-case hexadecimal digits per byte (`format!("{x:02x}")`).
pub open spec fn hex(b: Seq<u8>) -> Seq<char>
    decreases b.len(),
{
    if b.len() == 0 {
        seq![]
    } else {
        hex(b.drop_last()) + seq![hex_digit(b.last() / 16), hex_digit(b.last() % 16)]
    }
}

fn hex_char(d: u8) -> (c: char)
    requires
        d < 16,
    ensures
        c == hex_digit(d),
{
    if d < 10 {
        (d + 48) as char
    } else {
        (d + 87) as char
    }
}

/// Hexadecimal text of `b[..n]`.
pub fn hex_prefix(b: &[u8], n: usize) -> (s: String)
    requires
        n <= b@.len(),
    ensures
        s@ == hex(b@.take(n as int)),
{
    let mut s = String::new();
    let mut i: usize = 0;
    while i < n
        invariant
            i <= n <= b@.len(),
            s@ == hex(b@.take(i as int)),
        decreases n - i,
    {
        let x = b[i];
        s.push(hex_char(x / 16));
        s.push(hex_char(x % 16));
        i += 1;
        proof {
            let t = b@.take(i as int);
            assert(t.drop_last() == b@.take(i - 1));
            assert(t.last() == x);
        }
    }
    s
}

/// Hexadecimal text of a 32-byte key (the `public_key` field of a peer's
/// redacted description).
pub fn hex_bytes(b: &[u8; 32]) -> (s: String)
    ensures
        s@ == hex(b@),
{
    let r = hex_prefix(b.as_slice(), 32);
    proof {
        assert(b@.take(32) == b@);
    }
    r
}

/// Fingerprint of a key: the hexadecimal text of its first four bytes.
pub fn hex_short(b: &[u8; 32]) -> (s: String)
    ensures
        s@ == hex(b@.take(4)),
{
    hex_prefix(b.as_slice(), 4)
}

proof fn lemma_hex_len(b: Seq<u8>)
    ensures
        hex(b).len() == 2 * b.len(),
    decreases b.len(),
{
    if b.len() > 0 {
        lemma_hex_len(b.drop_last());
    }
}

proof fn lemma_hex_append(a: Seq<u8>, c: Seq<u8>)
    ensures
        hex(a + c) == hex(a) + hex(c),
    decreases c.len(),
{
    if c.len() == 0 {
        assert(a + c == a);
        assert(hex(a) + hex(c) == hex(a));
    } else {
        let x = a + c;
        assert(x.drop_last() == a + c.drop_last());
        assert(x.last() == c.last());
        lemma_hex_append(a, c.drop_last());
        let tail = seq![hex_digit(c.last() / 16), hex_digit(c.last() % 16)];
        assert(hex(a) + hex(c.drop_last()) + tail == hex(a) + (hex(c.drop_last()) + tail));
    }
}

/// The fingerprint of a key is the start of its full hexadecimal text:
/// `hex_short` gives the first 8 characters of what `hex_bytes` gives.
pub proof fn law_fingerprint_is_prefix(key: Seq<u8>)
    requires
        key.len() == 32,
    ensures
        hex(key.take(4)) == hex(key).take(8),
{
    assert(key == key.take(4) + key.skip(4));
    lemma_hex_append(key.take(4), key.skip(4));
    lemma_hex_len(key.take(4));
    assert((hex(key.take(4)) + hex(key.skip(4))).take(8) == hex(key.take(4)));
}

} // verus!
