//! What parsing a configuration means, line by line, over sequences of
//! characters.
use vstd::prelude::*;

use crate::config::{ConfigView, EndpointView, InterfaceView, PeerView};
use crate::encoding::base64_standard;
use crate::net::{
    ip_addr_parse, ip_net_error_text, ip_net_parse, socket_addr_parse, IpAddress, IpNetwork,
};
use crate::text::{
    ascii_lower, bracket, decimal, find, find2_from, find_from, lemma_find_from_bounds, rfind,
    trim, trim_by,
};

verus! {

/// A parse error, with its texts as character sequences.
pub enum ConfigErrorView {
    UnknownSection { line: nat, name: Seq<char> },
    MalformedLine { line: nat, raw: Seq<char> },
    UnknownKey { line: nat, key: Seq<char>, section: Seq<char> },
    InvalidValue { line: nat, key: Seq<char>, detail: Seq<char> },
    MissingInterface,
    MissingPrivateKey,
    NoPeers,
    PeerMissingPublicKey,
    DuplicateKey { line: nat, key: Seq<char> },
}

/// The section that the lines being read belong to.
#[derive(Clone, Copy)]
pub enum Section {
    Outside,
    Interface,
    Peer,
}

/// An `[Interface]` section being read.
pub struct IfaceDraft {
    pub private_key: Option<Seq<u8>>,
    pub addresses: Seq<IpNetwork>,
    pub listen_port: Option<u16>,
    pub mtu: Option<u16>,
    pub dns: Seq<IpAddress>,
}

/// A `[Peer]` section being read.
pub struct PeerDraft {
    pub public_key: Option<Seq<u8>>,
    pub preshared_key: Option<Seq<u8>>,
    pub allowed_ips: Seq<IpNetwork>,
    pub endpoint: Option<EndpointView>,
    pub persistent_keepalive: Option<u16>,
}

/// What has been read so far.
pub struct Reading {
    pub iface: Option<IfaceDraft>,
    pub peers: Seq<PeerDraft>,
    pub section: Section,
}

pub open spec fn empty_iface() -> IfaceDraft {
    IfaceDraft {
        private_key: None,
        addresses: seq![],
        listen_port: None,
        mtu: None,
        dns: seq![],
    }
}

pub open spec fn empty_peer() -> PeerDraft {
    PeerDraft {
        public_key: None,
        preshared_key: None,
        allowed_ips: seq![],
        endpoint: None,
        persistent_keepalive: None,
    }
}

pub open spec fn start_reading() -> Reading {
    Reading { iface: None, peers: seq![], section: Section::Outside }
}

// ───────────────────────── numbers ─────────────────────────

pub open spec fn is_digit(c: char) -> bool {
    '0' <= c && c <= '9'
}

pub open spec fn digits_value(d: Seq<char>) -> nat
    decreases d.len(),
{
    if d.len() == 0 {
        0
    } else {
        digits_value(d.drop_last()) * 10 + ((d.last() as int) - 48) as nat
    }
}

/// `s` without one leading `+`.
pub open spec fn sign_stripped(s: Seq<char>) -> Seq<char> {
    if s.len() > 0 && s[0] == '+' {
        s.drop_first()
    } else {
        s
    }
}

pub open spec fn all_digits(d: Seq<char>) -> bool {
    forall|i: int| 0 <= i < d.len() ==> is_digit(#[trigger] d[i])
}

/// `<u16 as FromStr>::from_str`: an optional `+`, then one or more ASCII
/// digits whose value fits in 16 bits.
pub open spec fn u16_text(s: Seq<char>) -> Option<u16> {
    let d = sign_stripped(s);
    if d.len() > 0 && all_digits(d) && digits_value(d) <= 65535 {
        Some(digits_value(d) as u16)
    } else {
        None
    }
}

// ───────────────────────── values ─────────────────────────

/// A WireGuard key: standard base64 of exactly 32 bytes.
pub open spec fn wg_key(key_name: Seq<char>, line: nat, raw: Seq<char>) -> Result<
    Seq<u8>,
    ConfigErrorView,
> {
    match base64_standard(raw) {
        Err(m) => Err(
            ConfigErrorView::InvalidValue {
                line,
                key: key_name,
                detail: "base64 invalide : "@ + m,
            },
        ),
        Ok(b) => if b.len() != 32 {
            Err(
                ConfigErrorView::InvalidValue {
                    line,
                    key: key_name,
                    detail: "attendu 32 octets, trouvé "@ + decimal(b.len()),
                },
            )
        } else {
            Ok(b)
        },
    }
}

/// End of the comma-separated item of `s` that starts at `i`.
pub open spec fn item_end(s: Seq<char>, i: int) -> int {
    match find_from(s, ',', i) {
        Some(k) => k,
        None => s.len() as int,
    }
}

/// The IP networks of a comma-separated list, empty items skipped; the
/// error side is the text of the first failure.
pub open spec fn net_items(s: Seq<char>, i: int) -> Result<Seq<IpNetwork>, Seq<char>>
    decreases s.len() - i,
{
    if i < 0 || i > s.len() {
        Ok(seq![])
    } else {
        let j = item_end(s, i);
        let part = trim(s.subrange(i, j));
        let head: Result<Seq<IpNetwork>, Seq<char>> = if part.len() == 0 {
            Ok(seq![])
        } else {
            match ip_net_parse(part) {
                Some(n) => Ok(seq![n]),
                None => Err(ip_net_error_text()),
            }
        };
        match head {
            Err(e) => Err(e),
            Ok(h) => if j >= s.len() {
                Ok(h)
            } else {
                proof {
                    lemma_find_from_bounds(s, ',', i);
                }
                match net_items(s, j + 1) {
                    Ok(t) => Ok(h + t),
                    Err(e) => Err(e),
                }
            },
        }
    }
}

/// The IP addresses of a comma-separated list, empty items skipped; the
/// error side is the text of the first failure.
pub open spec fn addr_items(s: Seq<char>, i: int) -> Result<Seq<IpAddress>, Seq<char>>
    decreases s.len() - i,
{
    if i < 0 || i > s.len() {
        Ok(seq![])
    } else {
        let j = item_end(s, i);
        let part = trim(s.subrange(i, j));
        let head: Result<Seq<IpAddress>, Seq<char>> = if part.len() == 0 {
            Ok(seq![])
        } else {
            match ip_addr_parse(part) {
                Ok(a) => Ok(seq![a]),
                Err(e) => Err(e),
            }
        };
        match head {
            Err(e) => Err(e),
            Ok(h) => if j >= s.len() {
                Ok(h)
            } else {
                proof {
                    lemma_find_from_bounds(s, ',', i);
                }
                match addr_items(s, j + 1) {
                    Ok(t) => Ok(h + t),
                    Err(e) => Err(e),
                }
            },
        }
    }
}

/// A peer's endpoint: a socket address, else `host:port` split at the
/// last `:` with `[`/`]` trimmed from the host.
pub open spec fn endpoint_value(line: nat, raw: Seq<char>) -> Result<EndpointView, ConfigErrorView> {
    match socket_addr_parse(raw) {
        Some(a) => Ok(EndpointView::Resolved(a)),
        None => match rfind(raw, ':') {
            None => Err(
                ConfigErrorView::InvalidValue {
                    line,
                    key: "Endpoint"@,
                    detail: "format attendu : host:port"@,
                },
            ),
            Some(i) => {
                let port_text = raw.skip(i + 1);
                match u16_text(port_text) {
                    None => Err(
                        ConfigErrorView::InvalidValue {
                            line,
                            key: "Endpoint"@,
                            detail: "port invalide : '"@ + port_text + "'"@,
                        },
                    ),
                    Some(port) => Ok(
                        EndpointView::Hostname { host: trim_by(raw.take(i), bracket()), port },
                    ),
                }
            },
        },
    }
}

pub open spec fn quoted(prefix: Seq<char>, value: Seq<char>) -> Seq<char> {
    prefix + value + "'"@
}

// ───────────────────────── keys ─────────────────────────

/// `PostUp`, `PostDown`, `PreUp`, `PreDown`, `Table`, `SaveConfig`: read and
/// ignored.
pub open spec fn ignored_key(lk: Seq<char>) -> bool {
    ||| lk == "postup"@
    ||| lk == "postdown"@
    ||| lk == "preup"@
    ||| lk == "predown"@
    ||| lk == "table"@
    ||| lk == "saveconfig"@
}

/// One `key = value` line of the `[Interface]` section.
pub open spec fn iface_set(b: IfaceDraft, line: nat, key: Seq<char>, value: Seq<char>) -> Result<
    IfaceDraft,
    ConfigErrorView,
> {
    let lk = ascii_lower(key);
    if lk == "privatekey"@ {
        if b.private_key is Some {
            Err(ConfigErrorView::DuplicateKey { line, key })
        } else {
            match wg_key("PrivateKey"@, line, value) {
                Ok(k) => Ok(IfaceDraft { private_key: Some(k), ..b }),
                Err(e) => Err(e),
            }
        }
    } else if lk == "address"@ {
        match net_items(value, 0) {
            Ok(ns) => Ok(IfaceDraft { addresses: b.addresses + ns, ..b }),
            Err(d) => Err(ConfigErrorView::InvalidValue { line, key: "Address"@, detail: d }),
        }
    } else if lk == "listenport"@ {
        match u16_text(value) {
            Some(p) => Ok(IfaceDraft { listen_port: Some(p), ..b }),
            None => Err(
                ConfigErrorView::InvalidValue {
                    line,
                    key: "ListenPort"@,
                    detail: quoted("port invalide : '"@, value),
                },
            ),
        }
    } else if lk == "mtu"@ {
        match u16_text(value) {
            Some(m) => Ok(IfaceDraft { mtu: Some(m), ..b }),
            None => Err(
                ConfigErrorView::InvalidValue {
                    line,
                    key: "MTU"@,
                    detail: quoted("MTU invalide : '"@, value),
                },
            ),
        }
    } else if lk == "dns"@ {
        match addr_items(value, 0) {
            Ok(a) => Ok(IfaceDraft { dns: b.dns + a, ..b }),
            Err(d) => Err(ConfigErrorView::InvalidValue { line, key: "DNS"@, detail: d }),
        }
    } else if ignored_key(lk) {
        Ok(b)
    } else {
        Err(ConfigErrorView::UnknownKey { line, key: lk, section: "Interface"@ })
    }
}

/// One `key = value` line of a `[Peer]` section.
pub open spec fn peer_set(p: PeerDraft, line: nat, key: Seq<char>, value: Seq<char>) -> Result<
    PeerDraft,
    ConfigErrorView,
> {
    let lk = ascii_lower(key);
    if lk == "publickey"@ {
        if p.public_key is Some {
            Err(ConfigErrorView::DuplicateKey { line, key })
        } else {
            match wg_key("PublicKey"@, line, value) {
                Ok(k) => Ok(PeerDraft { public_key: Some(k), ..p }),
                Err(e) => Err(e),
            }
        }
    } else if lk == "presharedkey"@ {
        match wg_key("PresharedKey"@, line, value) {
            Ok(k) => Ok(PeerDraft { preshared_key: Some(k), ..p }),
            Err(e) => Err(e),
        }
    } else if lk == "allowedips"@ {
        match net_items(value, 0) {
            Ok(ns) => Ok(PeerDraft { allowed_ips: p.allowed_ips + ns, ..p }),
            Err(d) => Err(ConfigErrorView::InvalidValue { line, key: "AllowedIPs"@, detail: d }),
        }
    } else if lk == "endpoint"@ {
        match endpoint_value(line, value) {
            Ok(e) => Ok(PeerDraft { endpoint: Some(e), ..p }),
            Err(e) => Err(e),
        }
    } else if lk == "persistentkeepalive"@ {
        match u16_text(value) {
            Some(k) => Ok(PeerDraft { persistent_keepalive: Some(k), ..p }),
            None => Err(
                ConfigErrorView::InvalidValue {
                    line,
                    key: "PersistentKeepalive"@,
                    detail: quoted("entier attendu : '"@, value),
                },
            ),
        }
    } else {
        Err(ConfigErrorView::UnknownKey { line, key: lk, section: "Peer"@ })
    }
}

// ───────────────────────── lines ─────────────────────────

/// A line without its comment: everything from the first `#` or `;` on is
/// dropped.
pub open spec fn strip_comment(l: Seq<char>) -> Seq<char> {
    match find2_from(l, '#', ';', 0) {
        Some(i) => l.take(i),
        None => l,
    }
}

/// `[name]`, with at least the two brackets.
pub open spec fn is_header(l: Seq<char>) -> bool {
    l.len() >= 2 && l[0] == '[' && l[l.len() - 1] == ']'
}

/// The effect of one line on what has been read.
pub open spec fn process_line(st: Reading, line: nat, raw: Seq<char>) -> Result<
    Reading,
    ConfigErrorView,
> {
    let l = trim(strip_comment(raw));
    if l.len() == 0 {
        Ok(st)
    } else if is_header(l) {
        let name = trim(l.subrange(1, l.len() - 1));
        if name == "Interface"@ {
            if st.iface is Some {
                Err(ConfigErrorView::DuplicateKey { line, key: "[Interface] dupliquée"@ })
            } else {
                Ok(Reading { iface: Some(empty_iface()), section: Section::Interface, ..st })
            }
        } else if name == "Peer"@ {
            Ok(Reading { peers: st.peers.push(empty_peer()), section: Section::Peer, ..st })
        } else {
            Err(ConfigErrorView::UnknownSection { line, name })
        }
    } else {
        match find(l, '=') {
            None => Err(ConfigErrorView::MalformedLine { line, raw: l }),
            Some(i) => {
                let key = trim(l.take(i));
                let value = trim(l.skip(i + 1));
                match st.section {
                    Section::Outside => Err(
                        ConfigErrorView::UnknownSection { line, name: "(racine)"@ },
                    ),
                    Section::Interface => match iface_set(st.iface.unwrap(), line, key, value) {
                        Ok(b) => Ok(Reading { iface: Some(b), ..st }),
                        Err(e) => Err(e),
                    },
                    Section::Peer => match peer_set(st.peers.last(), line, key, value) {
                        Ok(p) => Ok(Reading { peers: st.peers.update(st.peers.len() - 1, p), ..st }),
                        Err(e) => Err(e),
                    },
                }
            },
        }
    }
}

/// The first line of `s` (without its `\n` or `\r\n` ending) and the text
/// after it (`str::lines`).
pub open spec fn next_line(s: Seq<char>) -> (Seq<char>, Seq<char>) {
    match find(s, '\n') {
        None => (s, seq![]),
        Some(i) => (
            if i > 0 && s[i - 1] == '\r' {
                s.take(i - 1)
            } else {
                s.take(i)
            },
            s.skip(i + 1),
        ),
    }
}

/// Reads the lines of `s`, the first one numbered `line`.
pub open spec fn read_lines(s: Seq<char>, line: nat, st: Reading) -> Result<
    Reading,
    ConfigErrorView,
>
    decreases s.len(),
{
    if s.len() == 0 {
        Ok(st)
    } else {
        proof {
            lemma_find_from_bounds(s, '\n', 0);
        }
        let (l, rest) = next_line(s);
        match process_line(st, line, l) {
            Ok(st2) => read_lines(rest, line + 1, st2),
            Err(e) => Err(e),
        }
    }
}

pub open spec fn finish_peer(p: PeerDraft) -> PeerView {
    PeerView {
        public_key: p.public_key.unwrap(),
        preshared_key: p.preshared_key,
        allowed_ips: p.allowed_ips,
        endpoint: p.endpoint,
        persistent_keepalive: p.persistent_keepalive,
    }
}

/// The configuration that the whole text describes, once every line is
/// read.
pub open spec fn finish(st: Reading) -> Result<ConfigView, ConfigErrorView> {
    match st.iface {
        None => Err(ConfigErrorView::MissingInterface),
        Some(b) => match b.private_key {
            None => Err(ConfigErrorView::MissingPrivateKey),
            Some(k) => if st.peers.len() == 0 {
                Err(ConfigErrorView::NoPeers)
            } else if exists|i: int| 0 <= i < st.peers.len() && st.peers[i].public_key is None {
                Err(ConfigErrorView::PeerMissingPublicKey)
            } else {
                Ok(
                    ConfigView {
                        interface: InterfaceView {
                            private_key: k,
                            addresses: b.addresses,
                            listen_port: b.listen_port,
                            mtu: b.mtu,
                            dns: b.dns,
                        },
                        peers: st.peers.map_values(|p: PeerDraft| finish_peer(p)),
                    },
                )
            },
        },
    }
}

/// The result of parsing a whole configuration text.
pub open spec fn parse_config(input: Seq<char>) -> Result<ConfigView, ConfigErrorView> {
    match read_lines(input, 1, start_reading()) {
        Ok(st) => finish(st),
        Err(e) => Err(e),
    }
}

} // verus!
