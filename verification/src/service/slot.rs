//! YubiKey PIV slots and their names on the wire ("authentication",
//! "signature", "key-management", "card-auth", "r1" to "r20").
use vstd::prelude::*;

use crate::text::{
    ascii_lower, chars_of, decimal, lemma_decimal_injective, lemma_decimal_len,
    lower_string_of_range, push_decimal, push_str, string_from,
};

verus! {

/// A PIV slot of a YubiKey (`yubikey::piv::SlotId`); `Retired(n)` is the
/// retired key-management slot `Rn`, for `n` from 1 to 20.
#[derive(Clone, Copy, Debug, PartialEq, Eq)]
pub enum PivSlot {
    Authentication,
    Signature,
    KeyManagement,
    CardAuthentication,
    Retired(u8),
    Attestation,
    Management,
}

/// The wire name of a slot, for the slots that have one.
pub open spec fn slot_name(s: PivSlot) -> Option<Seq<char>> {
    match s {
        PivSlot::Authentication => Some("authentication"@),
        PivSlot::Signature => Some("signature"@),
        PivSlot::KeyManagement => Some("key-management"@),
        PivSlot::CardAuthentication => Some("card-auth"@),
        PivSlot::Retired(n) => if 1 <= n <= 20 {
            Some("r"@ + decimal(n as nat))
        } else {
            None
        },
        _ => None,
    }
}

/// The first retired slot, from `n` up to 20, whose name is `l`.
pub open spec fn retired_named(l: Seq<char>, n: nat) -> Option<u8>
    decreases 21 - n,
{
    if n > 20 {
        None
    } else if l == "r"@ + decimal(n) {
        Some(n as u8)
    } else {
        retired_named(l, n + 1)
    }
}

/// The slot whose wire name is `l`.
pub open spec fn slot_named(l: Seq<char>) -> Option<PivSlot> {
    if l == "authentication"@ {
        Some(PivSlot::Authentication)
    } else if l == "signature"@ {
        Some(PivSlot::Signature)
    } else if l == "key-management"@ {
        Some(PivSlot::KeyManagement)
    } else if l == "card-auth"@ {
        Some(PivSlot::CardAuthentication)
    } else {
        match retired_named(l, 1) {
            Some(n) => Some(PivSlot::Retired(n)),
            None => None,
        }
    }
}

/// The message for an unknown slot name `l` (already lower-cased).
pub open spec fn unknown_slot_message(l: Seq<char>) -> Seq<char> {
    "slot inconnue : '"@ + l + "'"@
}

fn retired_text(n: u8) -> (s: String)
    ensures
        s@ == "r"@ + decimal(n as nat),
{
    let mut s = string_from("r");
    push_decimal(&mut s, n as u64);
    s
}

/// Reads a slot name, without regard to ASCII case.
pub fn parse_slot(slot: &str) -> (r: Result<PivSlot, String>)
    ensures
        match slot_named(ascii_lower(slot@)) {
            Some(s) => r == Ok::<PivSlot, String>(s),
            None => r is Err && r->Err_0@ == unknown_slot_message(ascii_lower(slot@)),
        },
{
    let v = chars_of(slot);
    let lower = lower_string_of_range(&v, 0, v.len());
    proof {
        assert(v@.subrange(0, v@.len() as int) == slot@);
    }
    if lower == string_from("authentication") {
        return Ok(PivSlot::Authentication);
    }
    if lower == string_from("signature") {
        return Ok(PivSlot::Signature);
    }
    if lower == string_from("key-management") {
        return Ok(PivSlot::KeyManagement);
    }
    if lower == string_from("card-auth") {
        return Ok(PivSlot::CardAuthentication);
    }
    let mut n: u8 = 1;
    while n <= 20
        invariant
            1 <= n <= 21,
            lower@ == ascii_lower(slot@),
            lower@ != "authentication"@,
            lower@ != "signature"@,
            lower@ != "key-management"@,
            lower@ != "card-auth"@,
            retired_named(lower@, 1) == retired_named(lower@, n as nat),
        decreases 21 - n,
    {
        if lower == retired_text(n) {
            return Ok(PivSlot::Retired(n));
        }
        n += 1;
    }
    let mut msg = string_from("slot inconnue : '");
    push_str(&mut msg, lower.as_str());
    push_str(&mut msg, "'");
    Err(msg)
}

/// The wire name of a slot; the attestation and management slots have
/// none.
pub fn slot_to_string(slot: PivSlot) -> (r: Result<String, String>)
    ensures
        match slot_name(slot) {
            Some(name) => r is Ok && r->Ok_0@ == name,
            None => r is Err && r->Err_0@ == "slot non supportée"@,
        },
{
    match slot {
        PivSlot::Authentication => Ok(string_from("authentication")),
        PivSlot::Signature => Ok(string_from("signature")),
        PivSlot::KeyManagement => Ok(string_from("key-management")),
        PivSlot::CardAuthentication => Ok(string_from("card-auth")),
        PivSlot::Retired(n) => if 1 <= n && n <= 20 {
            Ok(retired_text(n))
        } else {
            Err(string_from("slot non supportée"))
        },
        _ => Err(string_from("slot non supportée")),
    }
}

proof fn lemma_retired_named(n: nat, m: nat)
    requires
        1 <= m <= n <= 20,
    ensures
        retired_named("r"@ + decimal(n), m) == Some(n as u8),
    decreases n - m,
{
    reveal_strlit("r");
    if m < n {
        if "r"@ + decimal(n) == "r"@ + decimal(m) {
            assert(("r"@ + decimal(n)).skip(1) == decimal(n));
            assert(("r"@ + decimal(m)).skip(1) == decimal(m));
            lemma_decimal_injective(n, m);
        }
        lemma_retired_named(n, m + 1);
    }
}

/// Every slot that has a wire name reads back, through `parse_slot`, as
/// itself.
pub proof fn law_slot_name_roundtrip(s: PivSlot)
    requires
        slot_name(s) is Some,
    ensures
        slot_named(slot_name(s).unwrap()) == Some(s),
{
    reveal_strlit("authentication");
    reveal_strlit("signature");
    reveal_strlit("key-management");
    reveal_strlit("card-auth");
    reveal_strlit("r");
    match s {
        PivSlot::Retired(n) => {
            let l = "r"@ + decimal(n as nat);
            lemma_decimal_len(n as nat);
            assert(l[0] == 'r');
            assert(l != "authentication"@);
            assert(l != "signature"@);
            assert(l != "key-management"@);
            assert(l != "card-auth"@);
            lemma_retired_named(n as nat, 1);
            assert(retired_named(l, 1) == Some(n));
            assert(slot_named(l) == Some(PivSlot::Retired(n)));
            assert(slot_name(s).unwrap() == l);
        },
        PivSlot::Signature => {
            assert("signature"@.len() != "authentication"@.len());
        },
        PivSlot::KeyManagement => {
            assert("key-management"@[0] != "authentication"@[0]);
            assert("key-management"@.len() != "signature"@.len());
        },
        PivSlot::CardAuthentication => {
            assert("card-auth"@[0] != "authentication"@[0]);
            assert("card-auth"@[0] != "signature"@[0]);
            assert("card-auth"@[0] != "key-management"@[0]);
        },
        _ => {},
    }
}

/// Slot names are read without regard to ASCII case: every spelling of a
/// slot's wire name, in any mix of upper and lower case, reads as that
/// slot.
pub proof fn law_slot_case_insensitive(s: PivSlot, t: Seq<char>)
    requires
        slot_name(s) is Some,
        ascii_lower(t) == slot_name(s).unwrap(),
    ensures
        slot_named(ascii_lower(t)) == Some(s),
{
    law_slot_name_roundtrip(s);
}

} // verus!
