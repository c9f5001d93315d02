//! Checks on the decrypted configuration: a bound on its size, and UTF-8.
use vstd::prelude::*;
use vstd::utf8::{decode_utf8, valid_utf8};

use crate::text::string_from;

verus! {

/// Largest accepted decrypted configuration (64 KiB).
pub const MAX_PLAINTEXT_BYTES: u64 = 65536;

/// The text of the `FromUtf8Error` that `String::from_utf8` gives for
/// bytes that are not UTF-8.
pub uninterp spec fn utf8_error_text(b: Seq<u8>) -> Seq<char>;

/// Calls `String::from_utf8`: "Converts a vector of bytes to a String ...
/// If you are sure that the byte slice is valid UTF-8 ... Returns `Err`
/// if the slice is not UTF-8". The text of the error is named by
/// `utf8_error_text`.
#[verifier::external_body]
fn string_from_utf8(b: Vec<u8>) -> (r: Result<String, String>)
    ensures
        match r {
            Ok(s) => valid_utf8(b@) && s@ == decode_utf8(b@),
            Err(e) => !valid_utf8(b@) && e@ == utf8_error_text(b@),
        },
{
    String::from_utf8(b).map_err(|e| e.to_string())
}

/// The verdict on a decrypted configuration, read up to
/// `MAX_PLAINTEXT_BYTES` bytes: `more` tells whether the stream still had
/// bytes after a read that reached the bound.
pub open spec fn plaintext_verdict(b: Seq<u8>, more: bool) -> Result<Seq<char>, Seq<char>> {
    if b.len() == MAX_PLAINTEXT_BYTES && more {
        Err("config déchiffrée > 65536 o : refus"@)
    } else if !valid_utf8(b) {
        Err("config déchiffrée non-UTF-8 : "@ + utf8_error_text(b))
    } else {
        Ok(decode_utf8(b))
    }
}

/// Checks a decrypted configuration and turns it into text.
pub fn finish_plaintext(plaintext: Vec<u8>, more: bool) -> (r: Result<String, String>)
    requires
        plaintext@.len() <= MAX_PLAINTEXT_BYTES,
    ensures
        match plaintext_verdict(plaintext@, more) {
            Ok(t) => r is Ok && r->Ok_0@ == t,
            Err(m) => r is Err && r->Err_0@ == m,
        },
{
    if plaintext.len() as u64 == MAX_PLAINTEXT_BYTES && more {
        return Err(string_from("config déchiffrée > 65536 o : refus"));
    }
    let ghost b = plaintext@;
    match string_from_utf8(plaintext) {
        Ok(s) => Ok(s),
        Err(e) => {
            let mut m = string_from("config déchiffrée non-UTF-8 : ");
            crate::text::push_string(&mut m, &e);
            Err(m)
        },
    }
}

} // verus!
