//! A WireGuard configuration in the `wg-quick` INI format, held as typed
//! values, and its parser.
//!
//! The parser does no I/O: it turns the decrypted text into a `WgConfig`.
//! Peer public keys are public identifiers of the protocol; the private
//! key and the pre-shared keys are the only secrets.
use vstd::prelude::*;

use crate::net::{IpAddress, IpNetwork, SocketAddress};

pub mod describe;
pub mod laws;
pub mod parser;
pub mod spec;

verus! {

/// The 32 bytes of a WireGuard key.
pub type WgKeyBytes = [u8; 32];

/// A WireGuard private (or pre-shared) key. It has no `Debug` and no
/// `Display`, so that it cannot reach a log.
#[derive(Clone)]
pub struct WgPrivateKey(pub WgKeyBytes);

impl WgPrivateKey {
    /// The key's bytes.
    pub fn as_bytes(&self) -> (b: &WgKeyBytes)
        ensures
            b@ == self.0@,
    {
        &self.0
    }
}

/// The `[Interface]` section.
#[derive(Clone)]
pub struct InterfaceConfig {
    pub private_key: WgPrivateKey,
    pub addresses: Vec<IpNetwork>,
    pub listen_port: Option<u16>,
    pub mtu: Option<u16>,
    pub dns: Vec<IpAddress>,
}

/// A `[Peer]` section.
#[derive(Clone)]
pub struct PeerConfig {
    pub public_key: WgKeyBytes,
    pub preshared_key: Option<WgPrivateKey>,
    pub allowed_ips: Vec<IpNetwork>,
    pub endpoint: Option<EndpointSpec>,
    pub persistent_keepalive: Option<u16>,
}

/// A peer's endpoint: a socket address, or a host name still to resolve.
#[derive(Clone, Debug, PartialEq, Eq)]
pub enum EndpointSpec {
    Resolved(SocketAddress),
    Hostname { host: String, port: u16 },
}

/// A whole tunnel configuration.
#[derive(Clone)]
pub struct WgConfig {
    pub interface: InterfaceConfig,
    pub peers: Vec<PeerConfig>,
}

impl WgConfig {
    /// Every network of the configuration has a prefix within its
    /// family's width.
    pub open spec fn nets_wf(&self) -> bool {
        &&& forall|k: int| 0 <= k < self.interface.addresses@.len() ==> (#[trigger] self.interface.addresses@[k]).wf()
        &&& forall|p: int, k: int| 0 <= p < self.peers@.len() && 0 <= k < self.peers@[p].allowed_ips@.len()
            ==> (#[trigger] self.peers@[p].allowed_ips@[k]).wf()
    }
}

// ───────────────────────── mathematical views ─────────────────────────

pub struct InterfaceView {
    pub private_key: Seq<u8>,
    pub addresses: Seq<IpNetwork>,
    pub listen_port: Option<u16>,
    pub mtu: Option<u16>,
    pub dns: Seq<IpAddress>,
}

pub enum EndpointView {
    Resolved(SocketAddress),
    Hostname { host: Seq<char>, port: u16 },
}

pub struct PeerView {
    pub public_key: Seq<u8>,
    pub preshared_key: Option<Seq<u8>>,
    pub allowed_ips: Seq<IpNetwork>,
    pub endpoint: Option<EndpointView>,
    pub persistent_keepalive: Option<u16>,
}

pub struct ConfigView {
    pub interface: InterfaceView,
    pub peers: Seq<PeerView>,
}

impl View for WgPrivateKey {
    type V = Seq<u8>;

    open spec fn view(&self) -> Seq<u8> {
        self.0@
    }
}

impl View for InterfaceConfig {
    type V = InterfaceView;

    open spec fn view(&self) -> InterfaceView {
        InterfaceView {
            private_key: self.private_key@,
            addresses: self.addresses@,
            listen_port: self.listen_port,
            mtu: self.mtu,
            dns: self.dns@,
        }
    }
}

impl View for EndpointSpec {
    type V = EndpointView;

    open spec fn view(&self) -> EndpointView {
        match self {
            EndpointSpec::Resolved(a) => EndpointView::Resolved(*a),
            EndpointSpec::Hostname { host, port } => EndpointView::Hostname {
                host: host@,
                port: *port,
            },
        }
    }
}

pub open spec fn key_opt_view(k: Option<WgPrivateKey>) -> Option<Seq<u8>> {
    match k {
        Some(k) => Some(k@),
        None => None,
    }
}

pub open spec fn endpoint_opt_view(e: Option<EndpointSpec>) -> Option<EndpointView> {
    match e {
        Some(e) => Some(e@),
        None => None,
    }
}

impl View for PeerConfig {
    type V = PeerView;

    open spec fn view(&self) -> PeerView {
        PeerView {
            public_key: self.public_key@,
            preshared_key: key_opt_view(self.preshared_key),
            allowed_ips: self.allowed_ips@,
            endpoint: endpoint_opt_view(self.endpoint),
            persistent_keepalive: self.persistent_keepalive,
        }
    }
}

impl View for WgConfig {
    type V = ConfigView;

    open spec fn view(&self) -> ConfigView {
        ConfigView {
            interface: self.interface@,
            peers: self.peers@.map_values(|p: PeerConfig| p@),
        }
    }
}

} // verus!
