//! The decisions around decryption: unwrapping the file key of a
//! `piv-p256` stanza, and checking the decrypted plaintext.
pub mod plaintext;
pub mod stanza;
