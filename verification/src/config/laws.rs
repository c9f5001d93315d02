//! What holds of the parser as a whole.
use vstd::prelude::*;

use crate::config::spec::{
    endpoint_value, iface_set, next_line, parse_config, peer_set, process_line, read_lines,
    start_reading, strip_comment, wg_key, ConfigErrorView, IfaceDraft, PeerDraft, Reading,
    empty_iface, empty_peer,
};
use crate::text::{ascii_lower, find, find_from, trim};

verus! {

/// The value of a result when it is a success.
pub open spec fn success<T, E>(r: Result<T, E>) -> Option<T> {
    match r {
        Ok(x) => Some(x),
        Err(_) => None,
    }
}

proof fn lemma_wg_key_line(name: Seq<char>, n: nat, m: nat, raw: Seq<char>)
    ensures
        success(wg_key(name, n, raw)) == success(wg_key(name, m, raw)),
{
}

proof fn lemma_endpoint_line(n: nat, m: nat, raw: Seq<char>)
    ensures
        success(endpoint_value(n, raw)) == success(endpoint_value(m, raw)),
{
}

proof fn lemma_iface_set_line(b: IfaceDraft, n: nat, m: nat, k: Seq<char>, v: Seq<char>)
    ensures
        success(iface_set(b, n, k, v)) == success(iface_set(b, m, k, v)),
{
    lemma_wg_key_line("PrivateKey"@, n, m, v);
}

proof fn lemma_peer_set_line(p: PeerDraft, n: nat, m: nat, k: Seq<char>, v: Seq<char>)
    ensures
        success(peer_set(p, n, k, v)) == success(peer_set(p, m, k, v)),
{
    lemma_wg_key_line("PublicKey"@, n, m, v);
    lemma_wg_key_line("PresharedKey"@, n, m, v);
    lemma_endpoint_line(n, m, v);
}

proof fn lemma_process_line_line(st: Reading, n: nat, m: nat, l: Seq<char>)
    ensures
        success(process_line(st, n, l)) == success(process_line(st, m, l)),
{
    let t = trim(strip_comment(l));
    if t.len() > 0 && !(t.len() >= 2 && t[0] == '[' && t[t.len() - 1] == ']') {
        if let Some(i) = find(t, '=') {
            let key = trim(t.take(i));
            let value = trim(t.skip(i + 1));
            lemma_iface_set_line(st.iface.unwrap(), n, m, key, value);
            lemma_peer_set_line(st.peers.last(), n, m, key, value);
        }
    }
}

/// Whether reading succeeds, and what it reads, does not depend on how the
/// lines are numbered (line numbers only appear in errors).
proof fn lemma_read_lines_line(s: Seq<char>, n: nat, m: nat, st: Reading)
    ensures
        success(read_lines(s, n, st)) == success(read_lines(s, m, st)),
    decreases s.len(),
{
    if s.len() > 0 {
        crate::text::lemma_find_from_bounds(s, '\n', 0);
        let (l, rest) = next_line(s);
        lemma_process_line_line(st, n, m, l);
        match process_line(st, n, l) {
            Ok(st2) => {
                lemma_read_lines_line(rest, n + 1, m + 1, st2);
            },
            Err(_) => {},
        }
    }
}

proof fn lemma_find_newline_after(l: Seq<char>, s: Seq<char>, i: int)
    requires
        0 <= i <= l.len(),
        !l.contains('\n'),
    ensures
        find_from(l + seq!['\n'] + s, '\n', i) == Some(l.len() as int),
    decreases l.len() - i,
{
    let x = l + seq!['\n'] + s;
    if i < l.len() {
        assert(x[i] == l[i]);
        assert(l[i] != '\n');
        lemma_find_newline_after(l, s, i + 1);
    } else {
        assert(x[i] == '\n');
    }
}

/// A line that is blank or holds only a comment, put before a
/// configuration, changes nothing of what it parses to: the one parses
/// when the other does, to the same configuration.
pub proof fn law_comment_lines_ignored(l: Seq<char>, s: Seq<char>)
    requires
        !l.contains('\n'),
        !l.contains('\r'),
        trim(strip_comment(l)).len() == 0,
    ensures
        success(parse_config(l + seq!['\n'] + s)) == success(parse_config(s)),
{
    let input = l + seq!['\n'] + s;
    lemma_find_newline_after(l, s, 0);
    assert(input.take(l.len() as int) == l);
    assert(input.skip(l.len() as int + 1) == s);
    if l.len() > 0 {
        assert(input[l.len() - 1] == l[l.len() - 1]);
        assert(l.contains(l[l.len() - 1]));
    }
    assert(next_line(input) == (l, s));
    assert(process_line(start_reading(), 1, l) == Ok::<Reading, ConfigErrorView>(start_reading()));
    assert(read_lines(input, 1, start_reading()) == read_lines(s, 2, start_reading()));
    lemma_read_lines_line(s, 2, 1, start_reading());
}

/// Keys of the `[Interface]` section are matched without regard to ASCII
/// case: two spellings of a key that differ only in case have the same
/// effect whenever the line is accepted.
pub proof fn law_interface_keys_case_insensitive(
    b: IfaceDraft,
    line: nat,
    k1: Seq<char>,
    k2: Seq<char>,
    value: Seq<char>,
)
    requires
        ascii_lower(k1) == ascii_lower(k2),
    ensures
        success(iface_set(b, line, k1, value)) == success(iface_set(b, line, k2, value)),
{
}

/// Keys of a `[Peer]` section are matched without regard to ASCII case:
/// two spellings of a key that differ only in case have the same effect
/// whenever the line is accepted.
pub proof fn law_peer_keys_case_insensitive(
    p: PeerDraft,
    line: nat,
    k1: Seq<char>,
    k2: Seq<char>,
    value: Seq<char>,
)
    requires
        ascii_lower(k1) == ascii_lower(k2),
    ensures
        success(peer_set(p, line, k1, value)) == success(peer_set(p, line, k2, value)),
{
}

/// `AllowedIPs` lines add up: an accepted line keeps the networks the
/// peer already had, in front, and appends exactly the networks the same
/// line gives on its own (to a fresh peer); it changes nothing else.
pub proof fn law_allowed_ips_accumulate(p: PeerDraft, line: nat, key: Seq<char>, value: Seq<char>)
    requires
        ascii_lower(key) == "allowedips"@,
        peer_set(p, line, key, value) is Ok,
    ensures
        peer_set(empty_peer(), line, key, value) is Ok,
        peer_set(p, line, key, value)->Ok_0.allowed_ips == p.allowed_ips + peer_set(
            empty_peer(),
            line,
            key,
            value,
        )->Ok_0.allowed_ips,
        peer_set(p, line, key, value)->Ok_0.allowed_ips.take(p.allowed_ips.len() as int)
            == p.allowed_ips,
        peer_set(p, line, key, value)->Ok_0 == (PeerDraft {
            allowed_ips: peer_set(p, line, key, value)->Ok_0.allowed_ips,
            ..p
        }),
{
    reveal_strlit("allowedips");
    reveal_strlit("publickey");
    reveal_strlit("presharedkey");
    assert("allowedips"@.len() == 10);
    assert("publickey"@.len() == 9);
    assert("presharedkey"@.len() == 12);
    assert("allowedips"@ != "publickey"@);
    assert("allowedips"@ != "presharedkey"@);
    let q = peer_set(p, line, key, value)->Ok_0;
    let q0 = peer_set(empty_peer(), line, key, value)->Ok_0;
    assert(q0.allowed_ips =~= Seq::<crate::net::IpNetwork>::empty() + (q0.allowed_ips));
    assert(q.allowed_ips.take(p.allowed_ips.len() as int) =~= p.allowed_ips);
    assert(q.public_key == p.public_key && q.preshared_key == p.preshared_key && q.endpoint
        == p.endpoint && q.persistent_keepalive == p.persistent_keepalive);
}

/// Two accepted `AllowedIPs` lines, one after the other, give the
/// networks of the first line followed by those of the second.
pub proof fn law_two_allowed_ips_lines(
    p: PeerDraft,
    l1: nat,
    k1: Seq<char>,
    v1: Seq<char>,
    l2: nat,
    k2: Seq<char>,
    v2: Seq<char>,
)
    requires
        ascii_lower(k1) == "allowedips"@,
        ascii_lower(k2) == "allowedips"@,
        peer_set(p, l1, k1, v1) is Ok,
        peer_set(peer_set(p, l1, k1, v1)->Ok_0, l2, k2, v2) is Ok,
    ensures
        peer_set(peer_set(p, l1, k1, v1)->Ok_0, l2, k2, v2)->Ok_0.allowed_ips == p.allowed_ips
            + peer_set(empty_peer(), l1, k1, v1)->Ok_0.allowed_ips + peer_set(
            empty_peer(),
            l2,
            k2,
            v2,
        )->Ok_0.allowed_ips,
{
    law_allowed_ips_accumulate(p, l1, k1, v1);
    law_allowed_ips_accumulate(peer_set(p, l1, k1, v1)->Ok_0, l2, k2, v2);
}

/// `Address` lines add up: an accepted line keeps the addresses the
/// interface already had, in front, and appends exactly the networks the
/// same line gives on its own (to a fresh interface); it changes nothing
/// else.
pub proof fn law_addresses_accumulate(b: IfaceDraft, line: nat, key: Seq<char>, value: Seq<char>)
    requires
        ascii_lower(key) == "address"@,
        iface_set(b, line, key, value) is Ok,
    ensures
        iface_set(empty_iface(), line, key, value) is Ok,
        iface_set(b, line, key, value)->Ok_0.addresses == b.addresses + iface_set(
            empty_iface(),
            line,
            key,
            value,
        )->Ok_0.addresses,
        iface_set(b, line, key, value)->Ok_0.addresses.take(b.addresses.len() as int)
            == b.addresses,
        iface_set(b, line, key, value)->Ok_0 == (IfaceDraft {
            addresses: iface_set(b, line, key, value)->Ok_0.addresses,
            ..b
        }),
{
    reveal_strlit("address");
    reveal_strlit("privatekey");
    assert("address"@.len() == 7);
    assert("privatekey"@.len() == 10);
    assert("address"@ != "privatekey"@);
    let q = iface_set(b, line, key, value)->Ok_0;
    let q0 = iface_set(empty_iface(), line, key, value)->Ok_0;
    assert(q0.addresses =~= Seq::<crate::net::IpNetwork>::empty() + (q0.addresses));
    assert(q.addresses.take(b.addresses.len() as int) =~= b.addresses);
    assert(q.private_key == b.private_key && q.listen_port == b.listen_port && q.mtu == b.mtu
        && q.dns == b.dns);
}

/// Two accepted `Address` lines, one after the other, give the networks
/// of the first line followed by those of the second.
pub proof fn law_two_address_lines(
    b: IfaceDraft,
    l1: nat,
    k1: Seq<char>,
    v1: Seq<char>,
    l2: nat,
    k2: Seq<char>,
    v2: Seq<char>,
)
    requires
        ascii_lower(k1) == "address"@,
        ascii_lower(k2) == "address"@,
        iface_set(b, l1, k1, v1) is Ok,
        iface_set(iface_set(b, l1, k1, v1)->Ok_0, l2, k2, v2) is Ok,
    ensures
        iface_set(iface_set(b, l1, k1, v1)->Ok_0, l2, k2, v2)->Ok_0.addresses == b.addresses
            + iface_set(empty_iface(), l1, k1, v1)->Ok_0.addresses + iface_set(
            empty_iface(),
            l2,
            k2,
            v2,
        )->Ok_0.addresses,
{
    law_addresses_accumulate(b, l1, k1, v1);
    law_addresses_accumulate(iface_set(b, l1, k1, v1)->Ok_0, l2, k2, v2);
}

} // verus!
