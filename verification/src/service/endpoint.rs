//! Where the tunnel sends a peer's packets: its endpoint, as an address,
//! or as a `host:port` text still to resolve.
use vstd::prelude::*;

use crate::config::{EndpointSpec, EndpointView, PeerConfig};
use crate::net::SocketAddress;
use crate::text::{decimal, push_decimal, push_str, push_string, string_from};

verus! {

/// A peer's endpoint, ready to be handed to the driver.
#[derive(Debug, Clone, PartialEq, Eq)]
pub enum PeerEndpoint {
    /// A socket address, used as it is.
    Known(SocketAddress),
    /// A `host:port` text to resolve through DNS first.
    Lookup(String),
}

pub enum PeerEndpointView {
    Known(SocketAddress),
    Lookup(Seq<char>),
}

impl View for PeerEndpoint {
    type V = PeerEndpointView;

    open spec fn view(&self) -> PeerEndpointView {
        match self {
            PeerEndpoint::Known(a) => PeerEndpointView::Known(*a),
            PeerEndpoint::Lookup(q) => PeerEndpointView::Lookup(q@),
        }
    }
}

/// The endpoint of a peer, or why the tunnel cannot use the peer: a client
/// must know where its peers are.
pub open spec fn endpoint_plan(e: Option<EndpointView>) -> Result<PeerEndpointView, Seq<char>> {
    match e {
        None => Err("peer sans endpoint — non supporté en mode client"@),
        Some(EndpointView::Resolved(a)) => Ok(PeerEndpointView::Known(a)),
        Some(EndpointView::Hostname { host, port }) => Ok(
            PeerEndpointView::Lookup(host + ":"@ + decimal(port as nat)),
        ),
    }
}

/// The endpoint of a peer, as `endpoint_plan` gives it.
pub fn peer_endpoint(p: &PeerConfig) -> (r: Result<PeerEndpoint, String>)
    ensures
        match endpoint_plan(p@.endpoint) {
            Ok(e) => r is Ok && r->Ok_0@ == e,
            Err(m) => r is Err && r->Err_0@ == m,
        },
{
    match &p.endpoint {
        None => Err(string_from("peer sans endpoint — non supporté en mode client")),
        Some(EndpointSpec::Resolved(a)) => Ok(PeerEndpoint::Known(*a)),
        Some(EndpointSpec::Hostname { host, port }) => {
            let mut q = String::new();
            push_string(&mut q, host);
            push_str(&mut q, ":");
            push_decimal(&mut q, *port as u64);
            Ok(PeerEndpoint::Lookup(q))
        },
    }
}

} // verus!
