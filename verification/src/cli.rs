//! What the diagnostic command line computes from a decrypted
//! configuration: a summary of its sections, and the report of `inspect`,
//! which shows no secret.
use vstd::prelude::*;

use crate::config::parser::{parse, ConfigError};
use crate::config::spec::{next_line, parse_config};
use crate::config::{ConfigView, EndpointSpec, EndpointView, InterfaceView, PeerConfig, PeerView};
use crate::encoding::{hex, hex_short};
use crate::net::{
    addrs_text, addrs_to_string, nets_text, nets_to_string, socket_addr_display,
    socket_addr_display_text,
};
use crate::text::{
    chars_of, decimal, find_in, lemma_find_from_bounds, push_decimal, push_str, push_string, range_eq,
    string_from, string_of_range, trim, trim_in,
};

verus! {

/// The section headers of a text: its lines, trimmed, that start with `[`
/// and end with `]`, in order.
pub open spec fn section_lines(s: Seq<char>) -> Seq<Seq<char>>
    decreases s.len(),
{
    if s.len() == 0 {
        seq![]
    } else {
        proof {
            lemma_find_from_bounds(s, '\n', 0);
        }
        let (l, rest) = next_line(s);
        let t = trim(l);
        let head: Seq<Seq<char>> = if t.len() > 0 && t[0] == '[' && t[t.len() - 1] == ']' {
            seq![t]
        } else {
            seq![]
        };
        head + section_lines(rest)
    }
}

/// How many times `x` occurs in `s`.
pub open spec fn count_of(s: Seq<Seq<char>>, x: Seq<char>) -> nat
    decreases s.len(),
{
    if s.len() == 0 {
        0
    } else {
        count_of(s.drop_last(), x) + if s.last() == x {
            1nat
        } else {
            0nat
        }
    }
}

/// The sections of a decrypted configuration.
pub struct SectionSummary {
    /// The section headers, in order.
    pub sections: Vec<String>,
    /// How many of them are `[Peer]`.
    pub peer_count: usize,
    /// Whether one of them is `[Interface]`.
    pub has_interface: bool,
}

/// Summarizes the sections of a decrypted configuration.
pub fn section_summary(plaintext: &str) -> (r: SectionSummary)
    ensures
        r.sections@.map_values(|s: String| s@) == section_lines(plaintext@),
        r.peer_count == count_of(section_lines(plaintext@), "[Peer]"@),
        r.has_interface == section_lines(plaintext@).contains("[Interface]"@),
{
    let v = chars_of(plaintext);
    let n = v.len();
    let peer = chars_of("[Peer]");
    let iface = chars_of("[Interface]");
    let mut sections: Vec<String> = Vec::new();
    let mut peer_count: usize = 0;
    let mut has_interface = false;
    let mut pos: usize = 0;
    proof {
        assert(v@.skip(0) == v@);
        assert(sections@.map_values(|s: String| s@) =~= Seq::<Seq<char>>::empty());
    }
    while pos < n
        invariant
            v@ == plaintext@,
            n == v.len(),
            pos <= n,
            peer@ == "[Peer]"@,
            iface@ == "[Interface]"@,
            peer_count <= sections@.len(),
            section_lines(plaintext@) == sections@.map_values(|s: String| s@) + section_lines(
                v@.skip(pos as int),
            ),
            peer_count == count_of(sections@.map_values(|s: String| s@), "[Peer]"@),
            has_interface == sections@.map_values(|s: String| s@).contains("[Interface]"@),
        decreases n - pos,
    {
        let ghost s = v@.skip(pos as int);
        let ghost done = sections@.map_values(|x: String| x@);
        let nl = find_in(&v, pos, pos, n, '\n');
        proof {
            assert(v@.subrange(pos as int, n as int) == s);
        }
        let end: usize;
        let next: usize;
        if nl < n {
            if nl > pos && v[nl - 1] == '\r' {
                end = nl - 1;
            } else {
                end = nl;
            }
            next = nl + 1;
        } else {
            end = n;
            next = n;
        }
        proof {
            let (l, rest) = next_line(s);
            assert(l == v@.subrange(pos as int, end as int));
            assert(rest == v@.skip(next as int));
        }
        let (a, b) = trim_in(&v, pos, end, false);
        if a < b && v[a] == '[' && v[b - 1] == ']' {
            let is_peer = range_eq(&v, a, b, &peer);
            let is_iface = range_eq(&v, a, b, &iface);
            sections.push(string_of_range(&v, a, b));
            if is_peer {
                assert(peer_count < sections.len());
                peer_count += 1;
            }
            if is_iface {
                has_interface = true;
            }
            proof {
                let t = v@.subrange(a as int, b as int);
                let now = sections@.map_values(|x: String| x@);
                assert(now =~= done.push(t));
                assert(now.drop_last() =~= done);
                assert(seq![t] + section_lines(v@.skip(next as int)) == section_lines(s));
                assert(done + section_lines(s) =~= now + section_lines(v@.skip(next as int)));
                if has_interface && !is_iface {
                    assert(done.contains("[Interface]"@));
                    let k = choose|k: int| 0 <= k < done.len() && done[k] == "[Interface]"@;
                    assert(now[k] == "[Interface]"@);
                }
                if is_iface {
                    assert(now[now.len() - 1] == "[Interface]"@);
                }
                if !has_interface {
                    assert forall|k: int| 0 <= k < now.len() implies now[k] != "[Interface]"@ by {
                        if k < done.len() {
                            assert(now[k] == done[k]);
                        }
                    }
                }
            }
        } else {
            proof {
                assert(section_lines(s) == section_lines(v@.skip(next as int)));
            }
        }
        pos = next;
    }
    proof {
        assert(v@.skip(n as int) =~= Seq::<char>::empty());
        assert(sections@.map_values(|s: String| s@) + Seq::<Seq<char>>::empty() =~= sections@.map_values(
            |s: String| s@,
        ));
    }
    SectionSummary { sections, peer_count, has_interface }
}

// ───────────────────────── the `inspect` report ─────────────────────────

/// The `[Interface]` part of the report. The private key is never shown.
pub open spec fn interface_lines(i: InterfaceView) -> Seq<Seq<char>> {
    seq![
        "[Interface]"@,
        "  PrivateKey  : <32 octets, scellés>"@,
        "  Address     : "@ + nets_text(i.addresses),
    ] + match i.listen_port {
        Some(p) => seq!["  ListenPort  : "@ + decimal(p as nat)],
        None => seq![],
    } + match i.mtu {
        Some(m) => seq!["  MTU         : "@ + decimal(m as nat)],
        None => seq![],
    } + if i.dns.len() > 0 {
        seq!["  DNS         : "@ + addrs_text(i.dns)]
    } else {
        seq![]
    }
}

/// The part of the report on peer number `k` (from 1). Its public key is
/// shown by a fingerprint; a pre-shared key only by its presence.
pub open spec fn peer_lines(k: nat, p: PeerView) -> Seq<Seq<char>> {
    seq![
        Seq::<char>::empty(),
        "[Peer #"@ + decimal(k) + "]"@,
        "  PublicKey   : "@ + hex(p.public_key.take(4)) + "…  (fingerprint)"@,
        "  AllowedIPs  : "@ + nets_text(p.allowed_ips),
    ] + match p.endpoint {
        Some(EndpointView::Resolved(a)) => seq![
            "  Endpoint    : "@ + socket_addr_display_text(a) + " (résolu)"@,
        ],
        Some(EndpointView::Hostname { host, port }) => seq![
            "  Endpoint    : "@ + host + ":"@ + decimal(port as nat) + " (DNS à résoudre)"@,
        ],
        None => seq![],
    } + match p.persistent_keepalive {
        Some(k) => seq!["  Keepalive   : "@ + decimal(k as nat) + "s"@],
        None => seq![],
    } + if p.preshared_key is Some {
        seq!["  PSK         : <présente, scellée>"@]
    } else {
        seq![]
    }
}

/// The parts of the report on the peers, numbered from 1.
pub open spec fn peers_lines(peers: Seq<PeerView>) -> Seq<Seq<char>>
    decreases peers.len(),
{
    if peers.len() == 0 {
        seq![]
    } else {
        peers_lines(peers.drop_last()) + peer_lines(peers.len(), peers.last())
    }
}

/// The report on a configuration of `n` bytes.
pub open spec fn inspect_lines(n: nat, c: ConfigView) -> Seq<Seq<char>> {
    seq!["✓ Config valide ("@ + decimal(n) + " octets en RAM, parsée)."@, Seq::<char>::empty()]
        + interface_lines(c.interface) + peers_lines(c.peers)
}

fn push_line(lines: &mut Vec<String>, line: String)
    ensures
        final(lines)@.map_values(|t: String| t@) == old(lines)@.map_values(|t: String| t@).push(
            line@,
        ),
{
    lines.push(line);
    proof {
        assert(final(lines)@.map_values(|t: String| t@) =~= old(lines)@.map_values(|t: String| t@).push(
            line@,
        ));
    }
}

fn line_of(prefix: &str, rest: String) -> (r: String)
    ensures
        r@ == prefix@ + rest@,
{
    let mut s = string_from(prefix);
    push_string(&mut s, &rest);
    s
}

fn decimal_string(n: u64) -> (s: String)
    ensures
        s@ == decimal(n as nat),
{
    let mut s = String::new();
    push_decimal(&mut s, n);
    s
}

fn push_peer_lines(lines: &mut Vec<String>, k: usize, p: &PeerConfig)
    requires
        forall|j: int| 0 <= j < p.allowed_ips@.len() ==> (#[trigger] p.allowed_ips@[j]).wf(),
    ensures
        final(lines)@.map_values(|t: String| t@) == old(lines)@.map_values(|t: String| t@) + peer_lines(
            k as nat,
            p@,
        ),
{
    let ghost start = lines@.map_values(|t: String| t@);
    push_line(lines, String::new());
    let mut h = string_from("[Peer #");
    push_decimal(&mut h, k as u64);
    push_str(&mut h, "]");
    push_line(lines, h);
    let mut f = line_of("  PublicKey   : ", hex_short(&p.public_key));
    push_str(&mut f, "…  (fingerprint)");
    push_line(lines, f);
    push_line(lines, line_of("  AllowedIPs  : ", nets_to_string(&p.allowed_ips)));
    let ghost head = lines@.map_values(|t: String| t@);
    match &p.endpoint {
        Some(EndpointSpec::Resolved(a)) => {
            let mut l = line_of("  Endpoint    : ", socket_addr_display(a));
            push_str(&mut l, " (résolu)");
            push_line(lines, l);
        },
        Some(EndpointSpec::Hostname { host, port }) => {
            let mut l = line_of("  Endpoint    : ", host.clone());
            push_str(&mut l, ":");
            push_decimal(&mut l, *port as u64);
            push_str(&mut l, " (DNS à résoudre)");
            push_line(lines, l);
        },
        None => {},
    }
    let ghost mid = lines@.map_values(|t: String| t@);
    match p.persistent_keepalive {
        Some(ka) => {
            let mut l = line_of("  Keepalive   : ", decimal_string(ka as u64));
            push_str(&mut l, "s");
            push_line(lines, l);
        },
        None => {},
    }
    let ghost mid2 = lines@.map_values(|t: String| t@);
    if p.preshared_key.is_some() {
        push_line(lines, string_from("  PSK         : <présente, scellée>"));
    }
    proof {
        let pv = p@;
        let e: Seq<Seq<char>> = match pv.endpoint {
            Some(EndpointView::Resolved(a)) => seq![
                "  Endpoint    : "@ + socket_addr_display_text(a) + " (résolu)"@,
            ],
            Some(EndpointView::Hostname { host, port }) => seq![
                "  Endpoint    : "@ + host + ":"@ + decimal(port as nat) + " (DNS à résoudre)"@,
            ],
            None => seq![],
        };
        assert(mid =~= head + e);
        assert(head =~= start + seq![
            Seq::<char>::empty(),
            "[Peer #"@ + decimal(k as nat) + "]"@,
            "  PublicKey   : "@ + hex(pv.public_key.take(4)) + "…  (fingerprint)"@,
            "  AllowedIPs  : "@ + nets_text(pv.allowed_ips),
        ]);
        assert(lines@.map_values(|t: String| t@) =~= start + peer_lines(k as nat, pv));
    }
}

/// The report that `inspect` prints on a decrypted configuration, or the
/// parse error.
pub fn inspect_report(plaintext: &str) -> (r: Result<Vec<String>, ConfigError>)
    ensures
        match parse_config(plaintext@) {
            Err(e) => r is Err && r->Err_0@ == e,
            Ok(c) => r is Ok && r->Ok_0@.map_values(|t: String| t@) == inspect_lines(
                plaintext.len() as nat,
                c,
            ),
        },
{
    let n = plaintext.len();
    let config = match parse(plaintext) {
        Err(e) => {
            return Err(e);
        },
        Ok(c) => c,
    };
    let mut lines: Vec<String> = Vec::new();
    let mut first = string_from("✓ Config valide (");
    push_decimal(&mut first, n as u64);
    push_str(&mut first, " octets en RAM, parsée).");
    push_line(&mut lines, first);
    push_line(&mut lines, String::new());
    let i = &config.interface;
    push_line(&mut lines, string_from("[Interface]"));
    push_line(&mut lines, string_from("  PrivateKey  : <32 octets, scellés>"));
    push_line(&mut lines, line_of("  Address     : ", nets_to_string(&i.addresses)));
    match i.listen_port {
        Some(p) => push_line(&mut lines, line_of("  ListenPort  : ", decimal_string(p as u64))),
        None => {},
    }
    match i.mtu {
        Some(m) => push_line(&mut lines, line_of("  MTU         : ", decimal_string(m as u64))),
        None => {},
    }
    if i.dns.len() > 0 {
        push_line(&mut lines, line_of("  DNS         : ", addrs_to_string(&i.dns)));
    }
    let ghost cv = config@;
    proof {
        let iv = cv.interface;
        assert(lines@.map_values(|t: String| t@) =~= seq![
            "✓ Config valide ("@ + decimal(n as nat) + " octets en RAM, parsée)."@,
            Seq::<char>::empty(),
        ] + interface_lines(iv));
    }
    let ghost before = lines@.map_values(|t: String| t@);
    let mut k: usize = 0;
    while k < config.peers.len()
        invariant
            k <= config.peers@.len(),
            cv == config@,
            config.nets_wf(),
            lines@.map_values(|t: String| t@) == before + peers_lines(cv.peers.take(k as int)),
        decreases config.peers.len() - k,
    {
        proof {
            assert forall|j: int| 0 <= j < config.peers@[k as int].allowed_ips@.len() implies (
            #[trigger] config.peers@[k as int].allowed_ips@[j]).wf() by {
                assert(config.peers@[k as int].allowed_ips@[j] == config.peers@[k as int].allowed_ips@[j]);
            }
        }
        push_peer_lines(&mut lines, k + 1, &config.peers[k]);
        proof {
            assert(cv.peers.take(k + 1).drop_last() =~= cv.peers.take(k as int));
            assert(cv.peers.take(k + 1).last() == config.peers@[k as int]@);
            assert(before + peers_lines(cv.peers.take(k as int)) + peer_lines((k + 1) as nat, config.peers@[k as int]@)
                =~= before + peers_lines(cv.peers.take(k + 1)));
        }
        k += 1;
    }
    proof {
        assert(cv.peers.take(config.peers@.len() as int) =~= cv.peers);
        assert(lines@.map_values(|t: String| t@) =~= inspect_lines(n as nat, cv));
    }
    Ok(lines)
}

/// Two peers that differ at most in the value of their pre-shared key.
pub open spec fn same_peer_but_secret(a: PeerView, b: PeerView) -> bool {
    &&& a.public_key == b.public_key
    &&& a.preshared_key is Some == b.preshared_key is Some
    &&& a.allowed_ips == b.allowed_ips
    &&& a.endpoint == b.endpoint
    &&& a.persistent_keepalive == b.persistent_keepalive
}

/// Two configurations that differ at most in their secrets: the private
/// key, and the values of the pre-shared keys.
pub open spec fn same_but_secrets(a: ConfigView, b: ConfigView) -> bool {
    &&& a.interface.addresses == b.interface.addresses
    &&& a.interface.listen_port == b.interface.listen_port
    &&& a.interface.mtu == b.interface.mtu
    &&& a.interface.dns == b.interface.dns
    &&& a.peers.len() == b.peers.len()
    &&& forall|i: int| 0 <= i < a.peers.len() ==> same_peer_but_secret(#[trigger] a.peers[i], b.peers[i])
}

proof fn lemma_peers_lines_hide_secrets(a: Seq<PeerView>, b: Seq<PeerView>)
    requires
        a.len() == b.len(),
        forall|i: int| 0 <= i < a.len() ==> same_peer_but_secret(#[trigger] a[i], b[i]),
    ensures
        peers_lines(a) == peers_lines(b),
    decreases a.len(),
{
    if a.len() > 0 {
        let k = a.len() - 1;
        assert(same_peer_but_secret(a[k], b[k]));
        lemma_peers_lines_hide_secrets(a.drop_last(), b.drop_last());
        assert(peer_lines(a.len(), a.last()) == peer_lines(b.len(), b.last()));
    }
}

/// The `inspect` report shows nothing of the secrets: two configurations
/// that differ only in their private key and in the values of their
/// pre-shared keys get the same report.
pub proof fn law_report_hides_secrets(n: nat, a: ConfigView, b: ConfigView)
    requires
        same_but_secrets(a, b),
    ensures
        inspect_lines(n, a) == inspect_lines(n, b),
{
    lemma_peers_lines_hide_secrets(a.peers, b.peers);
    assert(interface_lines(a.interface) == interface_lines(b.interface));
}

} // verus!
