//! Parser for the `wg-quick` INI format.
//!
//! Sections `[Interface]` and `[Peer]` (several `[Peer]` sections are
//! allowed), `Key = Value` pairs with keys matched without regard to ASCII
//! case, comments started by `#` or `;`.
use vstd::prelude::*;

use crate::config::spec::{
    addr_items, empty_iface, empty_peer, endpoint_value, finish, iface_set, net_items,
    parse_config, peer_set, process_line, read_lines, start_reading, strip_comment, u16_text,
    wg_key, ConfigErrorView, IfaceDraft, PeerDraft, Reading, Section, digits_value, is_digit,
    next_line,
};
use crate::config::{
    ConfigView, EndpointSpec, EndpointView, InterfaceConfig, PeerConfig, WgConfig,
    WgKeyBytes, WgPrivateKey,
};
use crate::encoding::decode_base64_standard;
use crate::net::{parse_ip_addr, parse_ip_net, parse_socket_addr, IpAddress, IpNetwork};
use crate::text::{
    chars_of, decimal, find_in, find2_in, lemma_rfind_before_bounds, push_decimal, push_str,
    push_string, range_eq, range_lower_eq, rfind_in, string_from, string_of_range,
    lower_string_of_range, trim, trim_in,
};

verus! {

/// Parse errors. They name the line and the key at fault without quoting
/// a value, so that reporting one never reveals a secret.
#[derive(Debug)]
pub enum ConfigError {
    UnknownSection { line: usize, name: String },
    MalformedLine { line: usize, raw: String },
    UnknownKey { line: usize, key: String, section: &'static str },
    InvalidValue { line: usize, key: String, detail: String },
    MissingInterface,
    MissingPrivateKey,
    NoPeers,
    PeerMissingPublicKey,
    DuplicateKey { line: usize, key: String },
}

impl View for ConfigError {
    type V = ConfigErrorView;

    open spec fn view(&self) -> ConfigErrorView {
        match self {
            ConfigError::UnknownSection { line, name } => ConfigErrorView::UnknownSection {
                line: *line as nat,
                name: name@,
            },
            ConfigError::MalformedLine { line, raw } => ConfigErrorView::MalformedLine {
                line: *line as nat,
                raw: raw@,
            },
            ConfigError::UnknownKey { line, key, section } => ConfigErrorView::UnknownKey {
                line: *line as nat,
                key: key@,
                section: section@,
            },
            ConfigError::InvalidValue { line, key, detail } => ConfigErrorView::InvalidValue {
                line: *line as nat,
                key: key@,
                detail: detail@,
            },
            ConfigError::MissingInterface => ConfigErrorView::MissingInterface,
            ConfigError::MissingPrivateKey => ConfigErrorView::MissingPrivateKey,
            ConfigError::NoPeers => ConfigErrorView::NoPeers,
            ConfigError::PeerMissingPublicKey => ConfigErrorView::PeerMissingPublicKey,
            ConfigError::DuplicateKey { line, key } => ConfigErrorView::DuplicateKey {
                line: *line as nat,
                key: key@,
            },
        }
    }
}

/// The text of a parse error (what `Display` shows).
pub open spec fn config_error_text(e: ConfigErrorView) -> Seq<char> {
    match e {
        ConfigErrorView::UnknownSection { line, name } => "ligne "@ + decimal(line)
            + ": section inconnue : '"@ + name + "'"@,
        ConfigErrorView::MalformedLine { line, raw } => "ligne "@ + decimal(line)
            + ": clé/valeur attendues, trouvé : '"@ + raw + "'"@,
        ConfigErrorView::UnknownKey { line, key, section } => "ligne "@ + decimal(line)
            + ": clé '"@ + key + "' inattendue dans la section ["@ + section + "]"@,
        ConfigErrorView::InvalidValue { line, key, detail } => "ligne "@ + decimal(line)
            + ": valeur invalide pour '"@ + key + "' : "@ + detail,
        ConfigErrorView::MissingInterface => "section [Interface] manquante"@,
        ConfigErrorView::MissingPrivateKey => "section [Interface] : clé 'PrivateKey' obligatoire manquante"@,
        ConfigErrorView::NoPeers => "aucun [Peer] défini — la config n'a pas de destination"@,
        ConfigErrorView::PeerMissingPublicKey => "[Peer]: clé 'PublicKey' obligatoire manquante"@,
        ConfigErrorView::DuplicateKey { line, key } => "ligne "@ + decimal(line) + ": clé '"@ + key
            + "' présente plusieurs fois dans la même section"@,
    }
}

impl ConfigError {
    /// The text of the error, naming the line and key at fault.
    pub fn message(&self) -> (s: String)
        ensures
            s@ == config_error_text(self@),
    {
        match self {
            ConfigError::UnknownSection { line, name } => {
                let mut s = string_from("ligne ");
                push_decimal(&mut s, *line as u64);
                push_str(&mut s, ": section inconnue : '");
                push_string(&mut s, name);
                push_str(&mut s, "'");
                s
            },
            ConfigError::MalformedLine { line, raw } => {
                let mut s = string_from("ligne ");
                push_decimal(&mut s, *line as u64);
                push_str(&mut s, ": clé/valeur attendues, trouvé : '");
                push_string(&mut s, raw);
                push_str(&mut s, "'");
                s
            },
            ConfigError::UnknownKey { line, key, section } => {
                let mut s = string_from("ligne ");
                push_decimal(&mut s, *line as u64);
                push_str(&mut s, ": clé '");
                push_string(&mut s, key);
                push_str(&mut s, "' inattendue dans la section [");
                push_str(&mut s, section);
                push_str(&mut s, "]");
                s
            },
            ConfigError::InvalidValue { line, key, detail } => {
                let mut s = string_from("ligne ");
                push_decimal(&mut s, *line as u64);
                push_str(&mut s, ": valeur invalide pour '");
                push_string(&mut s, key);
                push_str(&mut s, "' : ");
                push_string(&mut s, detail);
                s
            },
            ConfigError::MissingInterface => string_from("section [Interface] manquante"),
            ConfigError::MissingPrivateKey => string_from(
                "section [Interface] : clé 'PrivateKey' obligatoire manquante",
            ),
            ConfigError::NoPeers => string_from(
                "aucun [Peer] défini — la config n'a pas de destination",
            ),
            ConfigError::PeerMissingPublicKey => string_from(
                "[Peer]: clé 'PublicKey' obligatoire manquante",
            ),
            ConfigError::DuplicateKey { line, key } => {
                let mut s = string_from("ligne ");
                push_decimal(&mut s, *line as u64);
                push_str(&mut s, ": clé '");
                push_string(&mut s, key);
                push_str(&mut s, "' présente plusieurs fois dans la même section");
                s
            },
        }
    }
}

/// The view of a parse result.
pub open spec fn parse_result_view(r: Result<WgConfig, ConfigError>) -> Result<
    ConfigView,
    ConfigErrorView,
> {
    match r {
        Ok(c) => Ok(c@),
        Err(e) => Err(e@),
    }
}

/// Prefixes the items of a list result with `h`.
pub open spec fn prefixed<T>(h: Seq<T>, r: Result<Seq<T>, Seq<char>>) -> Result<Seq<T>, Seq<char>> {
    match r {
        Ok(t) => Ok(h + t),
        Err(e) => Err(e),
    }
}

fn invalid_value(line: usize, key: &str, detail: String) -> (e: ConfigError)
    ensures
        e@ == (ConfigErrorView::InvalidValue { line: line as nat, key: key@, detail: detail@ }),
{
    ConfigError::InvalidValue { line, key: string_from(key), detail }
}

/// `prefix`, then `v[lo..hi]`, then a closing quote.
fn quoted_range(prefix: &str, v: &Vec<char>, lo: usize, hi: usize) -> (s: String)
    requires
        lo <= hi <= v.len(),
    ensures
        s@ == prefix@ + v@.subrange(lo as int, hi as int) + "'"@,
{
    let mut s = string_from(prefix);
    let part = string_of_range(v, lo, hi);
    push_string(&mut s, &part);
    push_str(&mut s, "'");
    s
}

// ───────────────────────── numbers ─────────────────────────

proof fn lemma_digits_value_grows(d: Seq<char>, k: int)
    requires
        0 <= k <= d.len(),
    ensures
        digits_value(d.take(k)) <= digits_value(d),
    decreases d.len() - k,
{
    if k < d.len() {
        lemma_digits_value_grows(d, k + 1);
        let t = d.take(k + 1);
        assert(t.drop_last() == d.take(k));
        assert(digits_value(t) == digits_value(t.drop_last()) * 10 + ((t.last() as int)
            - 48) as nat);
    } else {
        assert(d.take(k) == d);
    }
}

/// `<u16 as FromStr>::from_str` on `v[lo..hi]`.
pub fn parse_u16_in(v: &Vec<char>, lo: usize, hi: usize) -> (r: Option<u16>)
    requires
        lo <= hi <= v.len(),
    ensures
        r == u16_text(v@.subrange(lo as int, hi as int)),
{
    let ghost s = v@.subrange(lo as int, hi as int);
    let start: usize = if lo < hi && v[lo] == '+' {
        lo + 1
    } else {
        lo
    };
    let ghost d = v@.subrange(start as int, hi as int);
    assert(d == crate::config::spec::sign_stripped(s));
    if start == hi {
        return None;
    }
    let mut acc: u32 = 0;
    let mut i: usize = start;
    while i < hi
        invariant
            lo <= start <= i <= hi <= v.len(),
            d == v@.subrange(start as int, hi as int),
            s == v@.subrange(lo as int, hi as int),
            d == crate::config::spec::sign_stripped(s),
            acc as nat == digits_value(d.take(i - start)),
            acc <= 65535,
            forall|k: int| 0 <= k < i - start ==> is_digit(#[trigger] d[k]),
        decreases hi - i,
    {
        let c = v[i];
        if !('0' <= c && c <= '9') {
            proof {
                assert(!is_digit(d[i - start]));
                assert(!crate::config::spec::all_digits(d));
            }
            return None;
        }
        let dv: u32 = (c as u32) - 48;
        proof {
            assert(d.take(i - start + 1).drop_last() == d.take(i - start));
            assert(d.take(i - start + 1).last() == c);
        }
        if acc > 6553 || (acc == 6553 && dv > 5) {
            proof {
                assert(digits_value(d.take(i - start + 1)) > 65535);
                lemma_digits_value_grows(d, i - start + 1);
                assert(d.take(d.len() as int) == d);
            }
            return None;
        }
        acc = acc * 10 + dv;
        i += 1;
    }
    proof {
        assert(d.take(d.len() as int) == d);
        assert(crate::config::spec::all_digits(d));
    }
    Some(acc as u16)
}

// ───────────────────────── values ─────────────────────────

/// A WireGuard key in `v[lo..hi]`: standard base64 of exactly 32 bytes.
fn parse_wg_key(key_name: &str, line: usize, v: &Vec<char>, lo: usize, hi: usize) -> (r: Result<
    WgKeyBytes,
    ConfigError,
>)
    requires
        lo <= hi <= v.len(),
    ensures
        match r {
            Ok(k) => wg_key(key_name@, line as nat, v@.subrange(lo as int, hi as int)) == Ok::<
                Seq<u8>,
                ConfigErrorView,
            >(k@),
            Err(e) => wg_key(key_name@, line as nat, v@.subrange(lo as int, hi as int)) == Err::<
                Seq<u8>,
                ConfigErrorView,
            >(e@),
        },
{
    let raw = string_of_range(v, lo, hi);
    match decode_base64_standard(raw.as_str()) {
        Err(m) => {
            let mut d = string_from("base64 invalide : ");
            push_string(&mut d, &m);
            Err(invalid_value(line, key_name, d))
        },
        Ok(bytes) => {
            if bytes.len() != 32 {
                let mut d = string_from("attendu 32 octets, trouvé ");
                push_decimal(&mut d, bytes.len() as u64);
                Err(invalid_value(line, key_name, d))
            } else {
                let mut out: WgKeyBytes = [0u8; 32];
                let mut i: usize = 0;
                while i < 32
                    invariant
                        bytes@.len() == 32,
                        i <= 32,
                        forall|k: int| 0 <= k < i ==> out@[k] == bytes@[k],
                    decreases 32 - i,
                {
                    out[i] = bytes[i];
                    i += 1;
                }
                proof {
                    assert(out@ =~= bytes@);
                }
                Ok(out)
            }
        },
    }
}

/// The IP networks of the comma-separated list `v[lo..hi]`.
fn parse_net_items(v: &Vec<char>, lo: usize, hi: usize) -> (r: Result<Vec<IpNetwork>, String>)
    requires
        lo <= hi <= v.len(),
    ensures
        match r {
            Ok(ns) => net_items(v@.subrange(lo as int, hi as int), 0) == Ok::<
                Seq<IpNetwork>,
                Seq<char>,
            >(ns@) && forall|k: int| 0 <= k < ns@.len() ==> (#[trigger] ns@[k]).wf(),
            Err(e) => net_items(v@.subrange(lo as int, hi as int), 0) == Err::<
                Seq<IpNetwork>,
                Seq<char>,
            >(e@),
        },
{
    let ghost s = v@.subrange(lo as int, hi as int);
    let mut out: Vec<IpNetwork> = Vec::new();
    let mut i: usize = lo;
    loop
        invariant
            lo <= i <= hi <= v.len(),
            s == v@.subrange(lo as int, hi as int),
            net_items(s, 0) == prefixed(out@, net_items(s, i - lo)),
            forall|k: int| 0 <= k < out@.len() ==> (#[trigger] out@[k]).wf(),
        decreases hi - i,
    {
        let j = find_in(v, lo, i, hi, ',');
        let (a, b) = trim_in(v, i, j, false);
        proof {
            assert(v@.subrange(i as int, j as int) == s.subrange(i - lo, j - lo));
        }
        let ghost before = out@;
        let ghost mut h = Seq::<IpNetwork>::empty();
        if a < b {
            let part = string_of_range(v, a, b);
            match parse_ip_net(part.as_str()) {
                Ok(n) => {
                    out.push(n);
                    proof {
                        h = seq![n];
                    }
                },
                Err(e) => {
                    return Err(e);
                },
            }
        }
        proof {
            assert(out@ =~= before + h);
            assert(crate::config::spec::item_end(s, i - lo) == j - lo);
        }
        if j >= hi {
            proof {
                assert(net_items(s, i - lo) == Ok::<Seq<IpNetwork>, Seq<char>>(h));
            }
            return Ok(out);
        }
        proof {
            assert(net_items(s, i - lo) == prefixed(h, net_items(s, j + 1 - lo)));
            match net_items(s, j + 1 - lo) {
                Ok(t) => {
                    assert(before + (h + t) =~= out@ + t);
                },
                Err(_) => {},
            }
        }
        i = j + 1;
    }
}

/// The IP addresses of the comma-separated list `v[lo..hi]`.
fn parse_addr_items(v: &Vec<char>, lo: usize, hi: usize) -> (r: Result<Vec<IpAddress>, String>)
    requires
        lo <= hi <= v.len(),
    ensures
        match r {
            Ok(ns) => addr_items(v@.subrange(lo as int, hi as int), 0) == Ok::<
                Seq<IpAddress>,
                Seq<char>,
            >(ns@),
            Err(e) => addr_items(v@.subrange(lo as int, hi as int), 0) == Err::<
                Seq<IpAddress>,
                Seq<char>,
            >(e@),
        },
{
    let ghost s = v@.subrange(lo as int, hi as int);
    let mut out: Vec<IpAddress> = Vec::new();
    let mut i: usize = lo;
    loop
        invariant
            lo <= i <= hi <= v.len(),
            s == v@.subrange(lo as int, hi as int),
            addr_items(s, 0) == prefixed(out@, addr_items(s, i - lo)),
        decreases hi - i,
    {
        let j = find_in(v, lo, i, hi, ',');
        let (a, b) = trim_in(v, i, j, false);
        proof {
            assert(v@.subrange(i as int, j as int) == s.subrange(i - lo, j - lo));
        }
        let ghost before = out@;
        let ghost mut h = Seq::<IpAddress>::empty();
        if a < b {
            let part = string_of_range(v, a, b);
            match parse_ip_addr(part.as_str()) {
                Ok(n) => {
                    out.push(n);
                    proof {
                        h = seq![n];
                    }
                },
                Err(e) => {
                    return Err(e);
                },
            }
        }
        proof {
            assert(out@ =~= before + h);
            assert(crate::config::spec::item_end(s, i - lo) == j - lo);
        }
        if j >= hi {
            proof {
                assert(addr_items(s, i - lo) == Ok::<Seq<IpAddress>, Seq<char>>(h));
            }
            return Ok(out);
        }
        proof {
            assert(addr_items(s, i - lo) == prefixed(h, addr_items(s, j + 1 - lo)));
            match addr_items(s, j + 1 - lo) {
                Ok(t) => {
                    assert(before + (h + t) =~= out@ + t);
                },
                Err(_) => {},
            }
        }
        i = j + 1;
    }
}

/// A peer's endpoint in `v[lo..hi]`: a socket address, else `host:port`
/// split at the last `:`, with `[` and `]` trimmed from the host.
fn parse_endpoint(line: usize, v: &Vec<char>, lo: usize, hi: usize) -> (r: Result<
    EndpointSpec,
    ConfigError,
>)
    requires
        lo <= hi <= v.len(),
    ensures
        match r {
            Ok(e) => endpoint_value(line as nat, v@.subrange(lo as int, hi as int)) == Ok::<
                EndpointView,
                ConfigErrorView,
            >(e@),
            Err(e) => endpoint_value(line as nat, v@.subrange(lo as int, hi as int)) == Err::<
                EndpointView,
                ConfigErrorView,
            >(e@),
        },
{
    let ghost s = v@.subrange(lo as int, hi as int);
    let raw = string_of_range(v, lo, hi);
    if let Some(a) = parse_socket_addr(raw.as_str()) {
        return Ok(EndpointSpec::Resolved(a));
    }
    let colon = rfind_in(v, lo, hi, ':');
    if colon == hi {
        return Err(invalid_value(line, "Endpoint", string_from("format attendu : host:port")));
    }
    proof {
        lemma_rfind_before_bounds(s, ':', s.len() as int);
        assert(v@.subrange(colon + 1, hi as int) == s.skip(colon + 1 - lo));
        assert(v@.subrange(lo as int, colon as int) == s.take(colon - lo));
    }
    match parse_u16_in(v, colon + 1, hi) {
        None => Err(invalid_value(line, "Endpoint", quoted_range("port invalide : '", v, colon + 1, hi))),
        Some(port) => {
            let (a, b) = trim_in(v, lo, colon, true);
            Ok(EndpointSpec::Hostname { host: string_of_range(v, a, b), port })
        },
    }
}

// ───────────────────────── sections ─────────────────────────

/// An `[Interface]` section being read.
struct InterfaceBuilder {
    private_key: Option<WgKeyBytes>,
    addresses: Vec<IpNetwork>,
    listen_port: Option<u16>,
    mtu: Option<u16>,
    dns: Vec<IpAddress>,
}

pub open spec fn bytes_opt_view(k: Option<WgKeyBytes>) -> Option<Seq<u8>> {
    match k {
        Some(k) => Some(k@),
        None => None,
    }
}

impl View for InterfaceBuilder {
    type V = IfaceDraft;

    closed spec fn view(&self) -> IfaceDraft {
        IfaceDraft {
            private_key: bytes_opt_view(self.private_key),
            addresses: self.addresses@,
            listen_port: self.listen_port,
            mtu: self.mtu,
            dns: self.dns@,
        }
    }
}

/// Appends `more` to `v`.
fn append_all<T: Copy>(v: &mut Vec<T>, more: Vec<T>)
    ensures
        final(v)@ == old(v)@ + more@,
{
    let mut i: usize = 0;
    let ghost v0 = v@;
    while i < more.len()
        invariant
            i <= more.len(),
            v@ == v0 + more@.take(i as int),
        decreases more.len() - i,
    {
        v.push(more[i]);
        i += 1;
        proof {
            assert(more@.take(i as int) == more@.take(i - 1).push(more@[i - 1]));
        }
    }
    proof {
        assert(more@.take(more.len() as int) == more@);
    }
}

impl InterfaceBuilder {
    /// Every network read so far has a prefix within its family's width.
    closed spec fn nets_wf(&self) -> bool {
        forall|k: int| 0 <= k < self.addresses@.len() ==> (#[trigger] self.addresses@[k]).wf()
    }

    fn new() -> (b: Self)
        ensures
            b@ == empty_iface(),
            b.nets_wf(),
    {
        InterfaceBuilder {
            private_key: None,
            addresses: Vec::new(),
            listen_port: None,
            mtu: None,
            dns: Vec::new(),
        }
    }

    /// Applies the line `key = value`, with the key in `v[ka..kb]` and the
    /// value in `v[va..vb]`.
    fn set(&mut self, line: usize, v: &Vec<char>, ka: usize, kb: usize, va: usize, vb: usize) -> (r:
        Result<(), ConfigError>)
        requires
            ka <= kb <= v.len(),
            va <= vb <= v.len(),
            old(self).nets_wf(),
        ensures
            final(self).nets_wf(),
            r is Err ==> final(self)@ == old(self)@,
            match r {
                Ok(()) => iface_set(
                    old(self)@,
                    line as nat,
                    v@.subrange(ka as int, kb as int),
                    v@.subrange(va as int, vb as int),
                ) == Ok::<IfaceDraft, ConfigErrorView>(final(self)@),
                Err(e) => iface_set(
                    old(self)@,
                    line as nat,
                    v@.subrange(ka as int, kb as int),
                    v@.subrange(va as int, vb as int),
                ) == Err::<IfaceDraft, ConfigErrorView>(e@),
            },
    {
        if range_lower_eq(v, ka, kb, &chars_of("privatekey")) {
            if self.private_key.is_some() {
                return Err(ConfigError::DuplicateKey { line, key: string_of_range(v, ka, kb) });
            }
            let k = parse_wg_key("PrivateKey", line, v, va, vb)?;
            self.private_key = Some(k);
            Ok(())
        } else if range_lower_eq(v, ka, kb, &chars_of("address")) {
            match parse_net_items(v, va, vb) {
                Ok(ns) => {
                    append_all(&mut self.addresses, ns);
                    Ok(())
                },
                Err(d) => Err(invalid_value(line, "Address", d)),
            }
        } else if range_lower_eq(v, ka, kb, &chars_of("listenport")) {
            match parse_u16_in(v, va, vb) {
                Some(p) => {
                    self.listen_port = Some(p);
                    Ok(())
                },
                None => Err(invalid_value(line, "ListenPort", quoted_range("port invalide : '", v, va, vb))),
            }
        } else if range_lower_eq(v, ka, kb, &chars_of("mtu")) {
            match parse_u16_in(v, va, vb) {
                Some(m) => {
                    self.mtu = Some(m);
                    Ok(())
                },
                None => Err(invalid_value(line, "MTU", quoted_range("MTU invalide : '", v, va, vb))),
            }
        } else if range_lower_eq(v, ka, kb, &chars_of("dns")) {
            match parse_addr_items(v, va, vb) {
                Ok(a) => {
                    append_all(&mut self.dns, a);
                    Ok(())
                },
                Err(d) => Err(invalid_value(line, "DNS", d)),
            }
        } else if range_lower_eq(v, ka, kb, &chars_of("postup")) || range_lower_eq(v, ka, kb, &chars_of("postdown"))
            || range_lower_eq(v, ka, kb, &chars_of("preup")) || range_lower_eq(v, ka, kb, &chars_of("predown"))
            || range_lower_eq(v, ka, kb, &chars_of("table")) || range_lower_eq(v, ka, kb, &chars_of("saveconfig")) {
            Ok(())
        } else {
            Err(ConfigError::UnknownKey { line, key: lower_string_of_range(v, ka, kb), section: "Interface" })
        }
    }

    fn build(self) -> (r: Result<InterfaceConfig, ConfigError>)
        ensures
            match r {
                Ok(c) => self@.private_key == Some(c@.private_key) && c@.addresses == self@.addresses
                    && c@.listen_port == self@.listen_port && c@.mtu == self@.mtu && c@.dns == self@.dns
                    && (self.nets_wf() ==> forall|k: int| 0 <= k < c.addresses@.len() ==> (#[trigger] c.addresses@[k]).wf()),
                Err(e) => self@.private_key is None && e@ == ConfigErrorView::MissingPrivateKey,
            },
    {
        match self.private_key {
            None => Err(ConfigError::MissingPrivateKey),
            Some(pk) => Ok(InterfaceConfig {
                private_key: WgPrivateKey(pk),
                addresses: self.addresses,
                listen_port: self.listen_port,
                mtu: self.mtu,
                dns: self.dns,
            }),
        }
    }
}

/// A `[Peer]` section being read.
struct PeerBuilder {
    public_key: Option<WgKeyBytes>,
    preshared_key: Option<WgKeyBytes>,
    allowed_ips: Vec<IpNetwork>,
    endpoint: Option<EndpointSpec>,
    persistent_keepalive: Option<u16>,
}

impl View for PeerBuilder {
    type V = PeerDraft;

    closed spec fn view(&self) -> PeerDraft {
        PeerDraft {
            public_key: bytes_opt_view(self.public_key),
            preshared_key: bytes_opt_view(self.preshared_key),
            allowed_ips: self.allowed_ips@,
            endpoint: crate::config::endpoint_opt_view(self.endpoint),
            persistent_keepalive: self.persistent_keepalive,
        }
    }
}

impl PeerBuilder {
    /// Every network read so far has a prefix within its family's width.
    closed spec fn nets_wf(&self) -> bool {
        forall|k: int| 0 <= k < self.allowed_ips@.len() ==> (#[trigger] self.allowed_ips@[k]).wf()
    }

    fn new() -> (b: Self)
        ensures
            b@ == empty_peer(),
            b.nets_wf(),
    {
        PeerBuilder {
            public_key: None,
            preshared_key: None,
            allowed_ips: Vec::new(),
            endpoint: None,
            persistent_keepalive: None,
        }
    }

    /// Applies the line `key = value`, with the key in `v[ka..kb]` and the
    /// value in `v[va..vb]`.
    fn set(&mut self, line: usize, v: &Vec<char>, ka: usize, kb: usize, va: usize, vb: usize) -> (r:
        Result<(), ConfigError>)
        requires
            ka <= kb <= v.len(),
            va <= vb <= v.len(),
            old(self).nets_wf(),
        ensures
            final(self).nets_wf(),
            r is Err ==> final(self)@ == old(self)@,
            match r {
                Ok(()) => peer_set(
                    old(self)@,
                    line as nat,
                    v@.subrange(ka as int, kb as int),
                    v@.subrange(va as int, vb as int),
                ) == Ok::<PeerDraft, ConfigErrorView>(final(self)@),
                Err(e) => peer_set(
                    old(self)@,
                    line as nat,
                    v@.subrange(ka as int, kb as int),
                    v@.subrange(va as int, vb as int),
                ) == Err::<PeerDraft, ConfigErrorView>(e@),
            },
    {
        if range_lower_eq(v, ka, kb, &chars_of("publickey")) {
            if self.public_key.is_some() {
                return Err(ConfigError::DuplicateKey { line, key: string_of_range(v, ka, kb) });
            }
            let k = parse_wg_key("PublicKey", line, v, va, vb)?;
            self.public_key = Some(k);
            Ok(())
        } else if range_lower_eq(v, ka, kb, &chars_of("presharedkey")) {
            let k = parse_wg_key("PresharedKey", line, v, va, vb)?;
            self.preshared_key = Some(k);
            Ok(())
        } else if range_lower_eq(v, ka, kb, &chars_of("allowedips")) {
            match parse_net_items(v, va, vb) {
                Ok(ns) => {
                    append_all(&mut self.allowed_ips, ns);
                    Ok(())
                },
                Err(d) => Err(invalid_value(line, "AllowedIPs", d)),
            }
        } else if range_lower_eq(v, ka, kb, &chars_of("endpoint")) {
            let e = parse_endpoint(line, v, va, vb)?;
            self.endpoint = Some(e);
            Ok(())
        } else if range_lower_eq(v, ka, kb, &chars_of("persistentkeepalive")) {
            match parse_u16_in(v, va, vb) {
                Some(k) => {
                    self.persistent_keepalive = Some(k);
                    Ok(())
                },
                None => Err(invalid_value(line, "PersistentKeepalive", quoted_range("entier attendu : '", v, va, vb))),
            }
        } else {
            Err(ConfigError::UnknownKey { line, key: lower_string_of_range(v, ka, kb), section: "Peer" })
        }
    }

    fn build(self) -> (r: Result<PeerConfig, ConfigError>)
        ensures
            match r {
                Ok(c) => self@.public_key is Some && c@ == crate::config::spec::finish_peer(self@)
                    && (self.nets_wf() ==> forall|k: int| 0 <= k < c.allowed_ips@.len() ==> (#[trigger] c.allowed_ips@[k]).wf()),
                Err(e) => self@.public_key is None && e@ == ConfigErrorView::PeerMissingPublicKey,
            },
    {
        match self.public_key {
            None => Err(ConfigError::PeerMissingPublicKey),
            Some(pk) => Ok(PeerConfig {
                public_key: pk,
                preshared_key: match self.preshared_key {
                    Some(k) => Some(WgPrivateKey(k)),
                    None => None,
                },
                allowed_ips: self.allowed_ips,
                endpoint: self.endpoint,
                persistent_keepalive: self.persistent_keepalive,
            }),
        }
    }
}

// ───────────────────────── lines ─────────────────────────

/// What has been read so far.
struct ParseState {
    iface: Option<InterfaceBuilder>,
    peers: Vec<PeerBuilder>,
    section: Section,
}

impl View for ParseState {
    type V = Reading;

    closed spec fn view(&self) -> Reading {
        Reading {
            iface: match self.iface {
                Some(b) => Some(b@),
                None => None,
            },
            peers: self.peers@.map_values(|p: PeerBuilder| p@),
            section: self.section,
        }
    }
}

impl ParseState {
    /// The current section has been opened.
    closed spec fn wf(&self) -> bool {
        &&& (self.section matches Section::Interface ==> self.iface is Some)
        &&& (self.section matches Section::Peer ==> self.peers.len() > 0)
        &&& (self.iface matches Some(b) ==> b.nets_wf())
        &&& forall|k: int| 0 <= k < self.peers@.len() ==> (#[trigger] self.peers@[k]).nets_wf()
    }
}

/// Reads the line `v[lo..hi]`, numbered `line`.
fn read_line(st: &mut ParseState, line: usize, v: &Vec<char>, lo: usize, hi: usize) -> (r: Result<
    (),
    ConfigError,
>)
    requires
        old(st).wf(),
        lo <= hi <= v.len(),
    ensures
        final(st).wf(),
        match r {
            Ok(()) => process_line(old(st)@, line as nat, v@.subrange(lo as int, hi as int))
                == Ok::<Reading, ConfigErrorView>(final(st)@),
            Err(e) => process_line(old(st)@, line as nat, v@.subrange(lo as int, hi as int))
                == Err::<Reading, ConfigErrorView>(e@),
        },
{
    let ghost raw = v@.subrange(lo as int, hi as int);
    let c = find2_in(v, lo, hi, '#', ';');
    proof {
        assert(strip_comment(raw) == v@.subrange(lo as int, c as int));
    }
    let (a, b) = trim_in(v, lo, c, false);
    let ghost l = v@.subrange(a as int, b as int);
    assert(l == trim(strip_comment(raw)));
    if a == b {
        return Ok(());
    }
    if b - a >= 2 && v[a] == '[' && v[b - 1] == ']' {
        let (na, nb) = trim_in(v, a + 1, b - 1, false);
        proof {
            assert(v@.subrange(a + 1, b - 1) == l.subrange(1, l.len() - 1));
        }
        if range_eq(v, na, nb, &chars_of("Interface")) {
            if st.iface.is_some() {
                return Err(ConfigError::DuplicateKey { line, key: string_from("[Interface] dupliquée") });
            }
            st.iface = Some(InterfaceBuilder::new());
            st.section = Section::Interface;
            return Ok(());
        } else if range_eq(v, na, nb, &chars_of("Peer")) {
            st.peers.push(PeerBuilder::new());
            st.section = Section::Peer;
            proof {
                assert(st@.peers =~= old(st)@.peers.push(empty_peer()));
            }
            return Ok(());
        } else {
            return Err(ConfigError::UnknownSection { line, name: string_of_range(v, na, nb) });
        }
    }
    let e = find_in(v, a, a, b, '=');
    if e == b {
        return Err(ConfigError::MalformedLine { line, raw: string_of_range(v, a, b) });
    }
    let (ka, kb) = trim_in(v, a, e, false);
    let (va, vb) = trim_in(v, e + 1, b, false);
    proof {
        assert(v@.subrange(a as int, e as int) == l.take(e - a));
        assert(v@.subrange(e + 1, b as int) == l.skip(e - a + 1));
    }
    match st.section {
        Section::Outside => Err(ConfigError::UnknownSection { line, name: string_from("(racine)") }),
        Section::Interface => {
            let mut ib = st.iface.take().unwrap();
            let r = ib.set(line, v, ka, kb, va, vb);
            st.iface = Some(ib);
            r
        },
        Section::Peer => {
            let mut pb = st.peers.pop().unwrap();
            let r = pb.set(line, v, ka, kb, va, vb);
            st.peers.push(pb);
            proof {
                assert(st@.peers =~= old(st)@.peers.update(old(st)@.peers.len() - 1, pb@));
            }
            r
        },
    }
}

/// Builds the configuration once every line has been read.
fn finish_reading(st: ParseState) -> (r: Result<WgConfig, ConfigError>)
    requires
        st.wf(),
    ensures
        parse_result_view(r) == finish(st@),
        r matches Ok(c) ==> c.nets_wf(),
{
    let ghost whole = st@;
    let iface = match st.iface {
        None => return Err(ConfigError::MissingInterface),
        Some(b) => b,
    };
    assert(st@.iface == Some(iface@));
    let interface = iface.build()?;
    assert(st@.iface.unwrap().private_key is Some);
    if st.peers.len() == 0 {
        return Err(ConfigError::NoPeers);
    }
    let ghost drafts = st@.peers;
    let mut rest = st.peers;
    let mut peers: Vec<PeerConfig> = Vec::new();
    let mut i: usize = 0;
    let n = rest.len();
    assert(rest@.map_values(|p: PeerBuilder| p@) == drafts);
    // Builds the peers in order; the builders are taken from the front.
    let mut taken: Vec<PeerBuilder> = Vec::new();
    while rest.len() > 0
        invariant
            whole == st@,
            drafts == whole.peers,
            drafts.len() > 0,
            whole.iface is Some,
            whole.iface.unwrap().private_key is Some,
            n == drafts.len(),
            i + rest.len() == n,
            peers.len() == i,
            forall|k: int| 0 <= k < rest.len() ==> #[trigger] rest@[k]@ == drafts[i + k],
            forall|k: int| 0 <= k < rest.len() ==> (#[trigger] rest@[k]).nets_wf(),
            forall|k: int, m: int| 0 <= k < i && 0 <= m < peers@[k].allowed_ips@.len() ==> (#[trigger] peers@[k].allowed_ips@[m]).wf(),
            forall|m: int| 0 <= m < interface.addresses@.len() ==> (#[trigger] interface.addresses@[m]).wf(),
            forall|k: int| 0 <= k < i ==> (#[trigger] drafts[k]).public_key is Some,
            forall|k: int| 0 <= k < i ==> #[trigger] peers@[k]@
                == crate::config::spec::finish_peer(drafts[k]),
        decreases rest.len(),
    {
        let pb = rest.remove(0);
        proof {
            assert(pb@ == drafts[i as int]);
            assert(pb.nets_wf());
        }
        match pb.build() {
            Ok(p) => {
                peers.push(p);
            },
            Err(e) => {
                proof {
                    assert(drafts[i as int].public_key is None);
                    assert(exists|k: int| 0 <= k < drafts.len() && drafts[k].public_key is None);
                }
                return Err(e);
            },
        }
        i += 1;
    }
    proof {
        assert(peers@.map_values(|p: PeerConfig| p@) =~= drafts.map_values(
            |p: PeerDraft| crate::config::spec::finish_peer(p),
        ));
        assert(!(exists|k: int| 0 <= k < drafts.len() && drafts[k].public_key is None));
    }
    let r = WgConfig { interface, peers };
    proof {
        assert(r@.interface == (crate::config::InterfaceView {
            private_key: st@.iface.unwrap().private_key.unwrap(),
            addresses: st@.iface.unwrap().addresses,
            listen_port: st@.iface.unwrap().listen_port,
            mtu: st@.iface.unwrap().mtu,
            dns: st@.iface.unwrap().dns,
        }));
    }
    Ok(r)
}

/// Parses a WireGuard configuration in the `wg-quick` INI format.
pub fn parse(input: &str) -> (r: Result<WgConfig, ConfigError>)
    ensures
        parse_result_view(r) == parse_config(input@),
        r matches Ok(c) ==> c.nets_wf(),
{
    let v = chars_of(input);
    let n = v.len();
    let mut st = ParseState { iface: None, peers: Vec::new(), section: Section::Outside };
    assert(st.wf());
    let mut pos: usize = 0;
    let mut count: usize = 0;
    proof {
        assert(st@.peers =~= seq![]);
        assert(v@.skip(0) == v@);
    }
    while pos < n
        invariant
            v@ == input@,
            n == v.len(),
            pos <= n,
            count <= pos,
            st.wf(),
            read_lines(v@, 1, start_reading()) == read_lines(v@.skip(pos as int), (count + 1) as nat, st@),
        decreases n - pos,
    {
        let ghost s = v@.skip(pos as int);
        let nl = find_in(&v, pos, pos, n, '\n');
        proof {
            assert(v@.subrange(pos as int, n as int) == s);
        }
        let end: usize;
        let next: usize;
        if nl < n {
            if nl > pos && v[nl - 1] == '\r' {
                end = nl - 1;
            } else {
                end = nl;
            }
            next = nl + 1;
        } else {
            end = n;
            next = n;
        }
        proof {
            let (l, rest) = next_line(s);
            assert(l == v@.subrange(pos as int, end as int));
            assert(rest == v@.skip(next as int));
        }
        let line = count + 1;
        let ghost before = st@;
        match read_line(&mut st, line, &v, pos, end) {
            Err(e) => {
                proof {
                    assert(s.len() > 0);
                    assert(read_lines(s, line as nat, before) == Err::<Reading, ConfigErrorView>(
                        e@,
                    ));
                    assert(read_lines(v@, 1, start_reading()) == Err::<Reading, ConfigErrorView>(
                        e@,
                    ));
                    assert(parse_config(input@) == Err::<ConfigView, ConfigErrorView>(e@));
                }
                return Err(e);
            },
            Ok(()) => {},
        }
        pos = next;
        count += 1;
    }
    proof {
        assert(v@.skip(n as int) =~= Seq::<char>::empty());
    }
    finish_reading(st)
}

} // verus!
