//! Descriptions of the configuration sections for logs and diagnostics,
//! with every secret redacted: the private key and the pre-shared keys
//! are never written, only `"<redacted>"` in their place.
use vstd::prelude::*;

use crate::config::{EndpointSpec, EndpointView, InterfaceConfig, InterfaceView, PeerConfig, PeerView};
use crate::encoding::{hex, hex_bytes};
use crate::net::{addrs_text, addrs_to_string, nets_text, nets_to_string, socket_addr_text, socket_addr_to_string};
use crate::text::{debug_string, debug_text, decimal, push_decimal, push_str, push_string, string_from};

verus! {

/// `Debug` text of an endpoint, as the service reports it.
pub open spec fn endpoint_text(e: EndpointView) -> Seq<char> {
    match e {
        EndpointView::Resolved(a) => "Resolved("@ + socket_addr_text(a) + ")"@,
        EndpointView::Hostname { host, port } => "Hostname { host: "@ + debug_text(host)
            + ", port: "@ + decimal(port as nat) + " }"@,
    }
}

pub(crate) fn endpoint_to_string(e: &EndpointSpec) -> (s: String)
    ensures
        s@ == endpoint_text(e@),
{
    match e {
        EndpointSpec::Resolved(a) => {
            let mut s = string_from("Resolved(");
            let t = socket_addr_to_string(a);
            push_string(&mut s, &t);
            push_str(&mut s, ")");
            s
        },
        EndpointSpec::Hostname { host, port } => {
            let mut s = string_from("Hostname { host: ");
            let h = debug_string(host.as_str());
            push_string(&mut s, &h);
            push_str(&mut s, ", port: ");
            push_decimal(&mut s, *port as u64);
            push_str(&mut s, " }");
            s
        },
    }
}

/// `Some(n)` or `None`, as `Debug` writes an optional number.
pub open spec fn opt_number_text(n: Option<u16>) -> Seq<char> {
    match n {
        Some(v) => "Some("@ + decimal(v as nat) + ")"@,
        None => "None"@,
    }
}

fn push_opt_number(s: &mut String, n: Option<u16>)
    ensures
        final(s)@ == old(s)@ + opt_number_text(n),
{
    match n {
        Some(v) => {
            push_str(s, "Some(");
            push_decimal(s, v as u64);
            push_str(s, ")");
        },
        None => push_str(s, "None"),
    }
}

/// The description of an `[Interface]` section, laid out as `Debug`
/// lays out a struct, with the private key redacted.
pub open spec fn interface_description(i: InterfaceView) -> Seq<char> {
    "InterfaceConfig { private_key: \"<redacted>\", addresses: ["@ + nets_text(i.addresses)
        + "], listen_port: "@ + opt_number_text(i.listen_port) + ", mtu: "@ + opt_number_text(i.mtu)
        + ", dns: ["@ + addrs_text(i.dns) + "] }"@
}

/// The description of a `[Peer]` section, laid out as `Debug` lays out a
/// struct: the public key in hexadecimal, the pre-shared key only by its
/// presence.
pub open spec fn peer_description(p: PeerView) -> Seq<char> {
    "PeerConfig { public_key: \""@ + hex(p.public_key) + "\", preshared_key: "@ + (if p.preshared_key is Some {
        "Some(\"<redacted>\")"@
    } else {
        "None"@
    }) + ", allowed_ips: ["@ + nets_text(p.allowed_ips) + "], endpoint: "@ + (match p.endpoint {
        Some(e) => "Some("@ + endpoint_text(e) + ")"@,
        None => "None"@,
    }) + ", persistent_keepalive: "@ + opt_number_text(p.persistent_keepalive) + " }"@
}

impl InterfaceConfig {
    /// The section's description, with the private key redacted.
    pub fn redacted(&self) -> (s: String)
        requires
            forall|k: int| 0 <= k < self.addresses@.len() ==> (#[trigger] self.addresses@[k]).wf(),
        ensures
            s@ == interface_description(self@),
    {
        let mut s = string_from("InterfaceConfig { private_key: \"<redacted>\", addresses: [");
        let n = nets_to_string(&self.addresses);
        push_string(&mut s, &n);
        push_str(&mut s, "], listen_port: ");
        push_opt_number(&mut s, self.listen_port);
        push_str(&mut s, ", mtu: ");
        push_opt_number(&mut s, self.mtu);
        push_str(&mut s, ", dns: [");
        let a = addrs_to_string(&self.dns);
        push_string(&mut s, &a);
        push_str(&mut s, "] }");
        s
    }
}

impl PeerConfig {
    /// The section's description, with the pre-shared key redacted.
    pub fn redacted(&self) -> (s: String)
        requires
            forall|k: int| 0 <= k < self.allowed_ips@.len() ==> (#[trigger] self.allowed_ips@[k]).wf(),
        ensures
            s@ == peer_description(self@),
    {
        let mut s = string_from("PeerConfig { public_key: \"");
        let h = hex_bytes(&self.public_key);
        push_string(&mut s, &h);
        push_str(&mut s, "\", preshared_key: ");
        if self.preshared_key.is_some() {
            push_str(&mut s, "Some(\"<redacted>\")");
        } else {
            push_str(&mut s, "None");
        }
        push_str(&mut s, ", allowed_ips: [");
        let n = nets_to_string(&self.allowed_ips);
        push_string(&mut s, &n);
        push_str(&mut s, "], endpoint: ");
        match &self.endpoint {
            Some(e) => {
                push_str(&mut s, "Some(");
                let t = endpoint_to_string(e);
                push_string(&mut s, &t);
                push_str(&mut s, ")");
            },
            None => push_str(&mut s, "None"),
        }
        push_str(&mut s, ", persistent_keepalive: ");
        push_opt_number(&mut s, self.persistent_keepalive);
        push_str(&mut s, " }");
        s
    }
}

/// The descriptions reveal nothing of the secrets: two `[Interface]`
/// sections that differ only in their private key get the same
/// description, and so do two `[Peer]` sections that differ only in the
/// value of their pre-shared key.
pub proof fn law_descriptions_hide_secrets(i1: InterfaceView, i2: InterfaceView, p1: PeerView, p2: PeerView)
    requires
        i1.addresses == i2.addresses,
        i1.listen_port == i2.listen_port,
        i1.mtu == i2.mtu,
        i1.dns == i2.dns,
        p1.public_key == p2.public_key,
        p1.preshared_key is Some == p2.preshared_key is Some,
        p1.allowed_ips == p2.allowed_ips,
        p1.endpoint == p2.endpoint,
        p1.persistent_keepalive == p2.persistent_keepalive,
    ensures
        interface_description(i1) == interface_description(i2),
        peer_description(p1) == peer_description(p2),
{
}

} // verus!
