//! Network values read from a configuration: IP addresses, IP networks and
//! socket addresses, held as plain octets and numbers.
use vstd::prelude::*;

use crate::text::{joined, push_str, push_string};


verus! {

/// An IPv4 or IPv6 address.
#[derive(Clone, Copy, Debug, PartialEq, Eq)]
pub enum IpAddress {
    V4([u8; 4]),
    V6([u8; 16]),
}

/// An IP network: an address and a prefix length (`ipnet::IpNet`).
#[derive(Clone, Copy, Debug, PartialEq, Eq)]
pub struct IpNetwork {
    pub addr: IpAddress,
    pub prefix_len: u8,
}

/// A socket address (`core::net::SocketAddr`).
#[derive(Clone, Copy, Debug, PartialEq, Eq)]
pub enum SocketAddress {
    V4 { ip: [u8; 4], port: u16 },
    V6 { ip: [u8; 16], port: u16, flowinfo: u32, scope_id: u32 },
}

impl IpNetwork {
    /// The prefix length fits the address family (at most 32 bits for
    /// IPv4, 128 for IPv6), as every `ipnet::IpNet` keeps it.
    pub open spec fn wf(self) -> bool {
        match self.addr {
            IpAddress::V4(_) => self.prefix_len <= 32,
            IpAddress::V6(_) => self.prefix_len <= 128,
        }
    }
}

impl SocketAddress {
    pub open spec fn port_of(self) -> u16 {
        match self {
            SocketAddress::V4 { port, .. } => port,
            SocketAddress::V6 { port, .. } => port,
        }
    }

    /// The port number.
    pub fn port(&self) -> (p: u16)
        ensures
            p == self.port_of(),
    {
        match self {
            SocketAddress::V4 { port, .. } => *port,
            SocketAddress::V6 { port, .. } => *port,
        }
    }
}

/// What `<ipnet::IpNet as FromStr>::from_str` gives for a string.
pub uninterp spec fn ip_net_parse(s: Seq<char>) -> Option<IpNetwork>;

/// What `<core::net::IpAddr as FromStr>::from_str` gives for a string; the
/// error side is the text of the parse error.
pub uninterp spec fn ip_addr_parse(s: Seq<char>) -> Result<IpAddress, Seq<char>>;

/// What `<core::net::SocketAddr as FromStr>::from_str` gives for a string.
pub uninterp spec fn socket_addr_parse(s: Seq<char>) -> Option<SocketAddress>;

/// What `Display` of `ipnet::IpNet` writes for a network.
pub uninterp spec fn ip_net_text(n: IpNetwork) -> Seq<char>;

/// What `Debug` of `core::net::SocketAddr` writes for an address.
pub uninterp spec fn socket_addr_text(a: SocketAddress) -> Seq<char>;

/// What `Display` of `core::net::IpAddr` writes for an address.
pub uninterp spec fn ip_addr_text(a: IpAddress) -> Seq<char>;

/// What `Display` of `core::net::SocketAddr` writes for an address.
pub uninterp spec fn socket_addr_display_text(a: SocketAddress) -> Seq<char>;

/// The text of `ipnet::AddrParseError`, the one error of `IpNet::from_str`.
pub open spec fn ip_net_error_text() -> Seq<char> {
    "invalid IP address syntax"@
}

/// Calls `<ipnet::IpNet as FromStr>::from_str`. The result is named by
/// `ip_net_parse`; a parsed network keeps its prefix within the family's
/// width (ipnet only builds `Ipv4Net`/`Ipv6Net` through checked
/// constructors), and the error's text is ipnet's fixed
/// "invalid IP address syntax".
#[verifier::external_body]
pub(crate) fn parse_ip_net(s: &str) -> (r: Result<IpNetwork, String>)
    ensures
        match r {
            Ok(n) => ip_net_parse(s@) == Some(n) && n.wf(),
            Err(e) => ip_net_parse(s@) is None && e@ == ip_net_error_text(),
        },
{
    match s.parse::<ipnet::IpNet>() {
        Ok(ipnet::IpNet::V4(n)) => Ok(IpNetwork { addr: IpAddress::V4(n.addr().octets()), prefix_len: n.prefix_len() }),
        Ok(ipnet::IpNet::V6(n)) => Ok(IpNetwork { addr: IpAddress::V6(n.addr().octets()), prefix_len: n.prefix_len() }),
        Err(e) => Err(e.to_string()),
    }
}

/// Calls `<core::net::IpAddr as FromStr>::from_str`; the result, with the
/// error's text on failure, is named by `ip_addr_parse`.
#[verifier::external_body]
pub(crate) fn parse_ip_addr(s: &str) -> (r: Result<IpAddress, String>)
    ensures
        match r {
            Ok(a) => ip_addr_parse(s@) == Ok::<IpAddress, Seq<char>>(a),
            Err(e) => ip_addr_parse(s@) == Err::<IpAddress, Seq<char>>(e@),
        },
{
    match s.parse::<core::net::IpAddr>() {
        Ok(core::net::IpAddr::V4(a)) => Ok(IpAddress::V4(a.octets())),
        Ok(core::net::IpAddr::V6(a)) => Ok(IpAddress::V6(a.octets())),
        Err(e) => Err(e.to_string()),
    }
}

/// Calls `<core::net::SocketAddr as FromStr>::from_str`; the result is named
/// by `socket_addr_parse`.
#[verifier::external_body]
pub(crate) fn parse_socket_addr(s: &str) -> (r: Option<SocketAddress>)
    ensures
        r == socket_addr_parse(s@),
{
    match s.parse::<core::net::SocketAddr>() {
        Ok(core::net::SocketAddr::V4(a)) => Some(SocketAddress::V4 { ip: a.ip().octets(), port: a.port() }),
        Ok(core::net::SocketAddr::V6(a)) => Some(SocketAddress::V6 { ip: a.ip().octets(), port: a.port(), flowinfo: a.flowinfo(), scope_id: a.scope_id() }),
        Err(_) => None,
    }
}

/// Calls `Display` of `ipnet::IpNet` (through `ToString`) on the network
/// rebuilt from its parts; the text is named by `ip_net_text`.
#[verifier::external_body]
pub(crate) fn ip_net_to_string(n: &IpNetwork) -> (s: String)
    requires
        n.wf(),
    ensures
        s@ == ip_net_text(*n),
{
    let net = match n.addr {
        IpAddress::V4(o) => ipnet::IpNet::V4(ipnet::Ipv4Net::new(core::net::Ipv4Addr::from(o), n.prefix_len).unwrap()),
        IpAddress::V6(o) => ipnet::IpNet::V6(ipnet::Ipv6Net::new(core::net::Ipv6Addr::from(o), n.prefix_len).unwrap()),
    };
    net.to_string()
}

/// Calls `Debug` of `core::net::SocketAddr` (through `format!`) on the
/// address rebuilt from its parts; the text is named by `socket_addr_text`.
#[verifier::external_body]
pub(crate) fn socket_addr_to_string(a: &SocketAddress) -> (s: String)
    ensures
        s@ == socket_addr_text(*a),
{
    let addr = match *a {
        SocketAddress::V4 { ip, port } => core::net::SocketAddr::V4(core::net::SocketAddrV4::new(ip.into(), port)),
        SocketAddress::V6 { ip, port, flowinfo, scope_id } => core::net::SocketAddr::V6(core::net::SocketAddrV6::new(ip.into(), port, flowinfo, scope_id)),
    };
    format!("{addr:?}")
}

/// Calls `Display` of `core::net::IpAddr` (through `ToString`) on the
/// address rebuilt from its octets; the text is named by `ip_addr_text`.
#[verifier::external_body]
pub(crate) fn ip_addr_to_string(a: &IpAddress) -> (s: String)
    ensures
        s@ == ip_addr_text(*a),
{
    match *a {
        IpAddress::V4(o) => core::net::IpAddr::V4(o.into()).to_string(),
        IpAddress::V6(o) => core::net::IpAddr::V6(o.into()).to_string(),
    }
}

/// Calls `Display` of `core::net::SocketAddr` (through `ToString`) on the
/// address rebuilt from its parts; the text is named by
/// `socket_addr_display_text`.
#[verifier::external_body]
pub(crate) fn socket_addr_display(a: &SocketAddress) -> (s: String)
    ensures
        s@ == socket_addr_display_text(*a),
{
    let addr = match *a {
        SocketAddress::V4 { ip, port } => core::net::SocketAddr::V4(core::net::SocketAddrV4::new(ip.into(), port)),
        SocketAddress::V6 { ip, port, flowinfo, scope_id } => core::net::SocketAddr::V6(core::net::SocketAddrV6::new(ip.into(), port, flowinfo, scope_id)),
    };
    addr.to_string()
}

/// The networks, as ipnet writes them, joined by ", ".
pub open spec fn nets_text(nets: Seq<IpNetwork>) -> Seq<char> {
    joined(nets.map_values(|n: IpNetwork| ip_net_text(n)))
}

/// The addresses, as std writes them, joined by ", ".
pub open spec fn addrs_text(addrs: Seq<IpAddress>) -> Seq<char> {
    joined(addrs.map_values(|a: IpAddress| ip_addr_text(a)))
}

pub(crate) fn nets_to_string(nets: &Vec<IpNetwork>) -> (s: String)
    requires
        forall|k: int| 0 <= k < nets@.len() ==> (#[trigger] nets@[k]).wf(),
    ensures
        s@ == nets_text(nets@),
{
    let ghost texts = nets@.map_values(|n: IpNetwork| ip_net_text(n));
    let mut s = String::new();
    let mut i: usize = 0;
    while i < nets.len()
        invariant
            i <= nets@.len(),
            texts == nets@.map_values(|n: IpNetwork| ip_net_text(n)),
            forall|k: int| 0 <= k < nets@.len() ==> (#[trigger] nets@[k]).wf(),
            s@ == joined(texts.take(i as int)),
        decreases nets.len() - i,
    {
        if i > 0 {
            push_str(&mut s, ", ");
        }
        let t = ip_net_to_string(&nets[i]);
        push_string(&mut s, &t);
        proof {
            assert(texts.take(i + 1).drop_last() =~= texts.take(i as int));
            if i == 0 {
                assert(texts.take(1) =~= seq![texts[0]]);
            }
        }
        i += 1;
    }
    proof {
        assert(texts.take(nets@.len() as int) =~= texts);
    }
    s
}

pub(crate) fn addrs_to_string(addrs: &Vec<IpAddress>) -> (s: String)
    ensures
        s@ == addrs_text(addrs@),
{
    let ghost texts = addrs@.map_values(|a: IpAddress| ip_addr_text(a));
    let mut s = String::new();
    let mut i: usize = 0;
    while i < addrs.len()
        invariant
            i <= addrs@.len(),
            texts == addrs@.map_values(|a: IpAddress| ip_addr_text(a)),
            s@ == joined(texts.take(i as int)),
        decreases addrs.len() - i,
    {
        if i > 0 {
            push_str(&mut s, ", ");
        }
        let t = ip_addr_to_string(&addrs[i]);
        push_string(&mut s, &t);
        proof {
            assert(texts.take(i + 1).drop_last() =~= texts.take(i as int));
            if i == 0 {
                assert(texts.take(1) =~= seq![texts[0]]);
            }
        }
        i += 1;
    }
    proof {
        assert(texts.take(addrs@.len() as int) =~= texts);
    }
    s
}

} // verus!
