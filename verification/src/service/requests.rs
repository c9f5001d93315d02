//! How the service answers each request.
//!
//! `Ping`, `Status` and `Disconnect` are answered at once. `Connect` goes
//! through steps with outside work between them: the rate limit and the
//! form of the path; then, once the file's metadata is read, the file and
//! the slot; then, once the file is decrypted, the configuration; then,
//! once the tunnel is started, its registration.
use vstd::prelude::*;

use crate::config::parser::{config_error_text, parse};
use crate::config::spec::parse_config;
use crate::config::describe::{endpoint_text, endpoint_to_string};
use crate::config::{ConfigView, WgConfig};
use crate::ipc::messages::{Request, Response, ResponseView, TunnelStatus, TunnelStatusView};
use crate::net::{ip_net_text, ip_net_to_string};
use crate::service::path::{age_extension, has_extension, relative_form, check_config_metadata, metadata_verdict, path_form_verdict, validate_config_path_form};
use crate::service::rate_limit::{check_connect_rate_limit, rate_limit_message, rate_step, recent};
use crate::service::registry::TunnelRegistry;
use crate::service::slot::{parse_slot, slot_named, unknown_slot_message, PivSlot};
use crate::text::{ascii_lower, joined, push_str, push_string, string_from};

verus! {

/// Name of the interface the service brings up.
pub const DEFAULT_INTERFACE: &'static str = "GhostWire";

/// What the service does with a request.
pub enum Dispatch {
    /// Answer at once.
    Reply(Response),
    /// Read the metadata of `config_path`, then go on with
    /// `after_file_check`.
    CheckConfigFile { config_path: String, slot: String, pin: String },
}

/// `Error { message: prefix + detail }`.
pub open spec fn error_reply(prefix: Seq<char>, detail: Seq<char>) -> ResponseView {
    ResponseView::Error { message: prefix + detail }
}

fn error_response(prefix: &str, detail: &String) -> (r: Response)
    ensures
        r@ == error_reply(prefix@, detail@),
{
    let mut m = string_from(prefix);
    push_string(&mut m, detail);
    Response::Error { message: m }
}

/// The answer to `Disconnect` of `name` when `tunnels` are active.
pub open spec fn disconnect_reply<T>(tunnels: Map<Seq<char>, T>, name: Seq<char>) -> ResponseView {
    if tunnels.dom().contains(name) {
        ResponseView::Disconnected { interface: name }
    } else {
        ResponseView::Error { message: "aucun tunnel '"@ + name + "' actif"@ }
    }
}

/// The answer to `Disconnect` that names no interface, which cuts every
/// tunnel, when `names` are active: the names cut, joined by ", ", or an
/// error when there was none.
pub open spec fn disconnect_all_reply(names: Seq<Seq<char>>) -> ResponseView {
    if names.len() > 0 {
        ResponseView::Disconnected { interface: joined(names) }
    } else {
        ResponseView::Error { message: "aucun tunnel actif"@ }
    }
}

/// The answer to `Status`: every registered tunnel, connected, with empty
/// address and endpoint.
pub open spec fn status_reply(names: Seq<Seq<char>>) -> ResponseView {
    ResponseView::Status {
        tunnels: names.map_values(
            |n: Seq<char>|
                TunnelStatusView {
                    interface: n,
                    address: Seq::empty(),
                    peer_endpoint: Seq::empty(),
                    connected: true,
                },
        ),
    }
}

/// Answers a request: `Ping`, `Status` and `Disconnect` at once; for
/// `Connect`, the rate limit at `now` (nanoseconds of a monotonic clock)
/// and the form of the path decide whether to go on.
pub fn handle_request<T>(
    request: Request,
    registry: &mut TunnelRegistry<T>,
    attempts: &mut Vec<u64>,
    now: u64,
) -> (d: Dispatch)
    requires
        old(registry).wf(),
    ensures
        final(registry).wf(),
        match request {
            Request::Ping => d matches Dispatch::Reply(r) && r@ == ResponseView::Pong
                && final(registry).tunnels() == old(registry).tunnels()
                && final(attempts)@ == old(attempts)@,
            Request::Status => d matches Dispatch::Reply(r) && r@ == status_reply(
                old(registry).names(),
            ) && final(registry).tunnels() == old(registry).tunnels()
                && final(attempts)@ == old(attempts)@,
            Request::Disconnect { interface: Some(name) } => {
                &&& final(registry).tunnels() == old(registry).tunnels().remove(name@)
                &&& final(attempts)@ == old(attempts)@
                &&& d matches Dispatch::Reply(r) && r@ == disconnect_reply(old(registry).tunnels(), name@)
            },
            Request::Disconnect { interface: None } => {
                &&& final(registry).tunnels() == Map::<Seq<char>, T>::empty()
                &&& final(attempts)@ == old(attempts)@
                &&& d matches Dispatch::Reply(r) && r@ == disconnect_all_reply(old(registry).names())
            },
            Request::Connect { config_path, slot, pin } => {
                &&& final(registry).tunnels() == old(registry).tunnels()
                &&& final(attempts)@ == rate_step(old(attempts)@, now).1
                &&& if !rate_step(old(attempts)@, now).0 {
                    d matches Dispatch::Reply(r) && r@ == (ResponseView::Error {
                        message: rate_limit_message(recent(old(attempts)@, now).len()),
                    })
                } else if relative_form(config_path@) {
                    d matches Dispatch::Reply(r) && r@ == error_reply(
                        "chemin de config invalide : "@,
                        "le chemin doit être absolu"@,
                    )
                } else {
                    &&& (d is CheckConfigFile ==> age_extension(config_path@))
                    &&& exists|abs: bool, ext: Option<Seq<char>>|
                        (ext matches Some(e) ==> has_extension(config_path@, e)) && match #[trigger] path_form_verdict(
                            config_path@,
                            abs,
                            ext,
                        ) {
                            Err(m) => d matches Dispatch::Reply(r) && r@ == error_reply(
                                "chemin de config invalide : "@,
                                m,
                            ),
                            Ok(()) => d matches Dispatch::CheckConfigFile {
                                config_path: p2,
                                slot: s2,
                                pin: n2,
                            } && p2@ == config_path@ && s2@ == slot@ && n2@ == pin@,
                        }
                }
            },
        },
{
    match request {
        Request::Ping => Dispatch::Reply(Response::Pong),
        Request::Status => {
            let tunnels = registry.status_list();
            proof {
                assert(tunnels@.map_values(|t: TunnelStatus| t@) =~= registry.names().map_values(
                    |n: Seq<char>|
                        TunnelStatusView {
                            interface: n,
                            address: Seq::empty(),
                            peer_endpoint: Seq::empty(),
                            connected: true,
                        },
                ));
            }
            Dispatch::Reply(Response::Status { tunnels })
        },
        Request::Disconnect { interface: None } => {
            if registry.len() == 0 {
                proof {
                    registry.law_names_are_the_tunnels();
                    assert forall|k: Seq<char>| !registry.tunnels().dom().contains(k) by {
                        if registry.tunnels().dom().contains(k) {
                            assert(registry.names().contains(k));
                        }
                    }
                    assert(registry.tunnels().dom() =~= Set::<Seq<char>>::empty());
                    assert(registry.tunnels() =~= Map::<Seq<char>, T>::empty());
                }
                return Dispatch::Reply(Response::Error { message: string_from("aucun tunnel actif") });
            }
            let cut = registry.joined_names();
            registry.clear();
            Dispatch::Reply(Response::Disconnected { interface: cut })
        },
        Request::Disconnect { interface: Some(name) } => {
            match registry.remove(&name) {
                Some(_tunnel) => Dispatch::Reply(Response::Disconnected { interface: name }),
                None => {
                    let mut m = string_from("aucun tunnel '");
                    push_string(&mut m, &name);
                    push_str(&mut m, "' actif");
                    Dispatch::Reply(Response::Error { message: m })
                },
            }
        },
        Request::Connect { config_path, slot, pin } => {
            match check_connect_rate_limit(attempts, now) {
                Err(m) => {
                    return Dispatch::Reply(Response::Error { message: m });
                },
                Ok(()) => {},
            }
            match validate_config_path_form(config_path.as_str()) {
                Err(e) => Dispatch::Reply(error_response("chemin de config invalide : ", &e)),
                Ok(()) => Dispatch::CheckConfigFile { config_path, slot, pin },
            }
        },
    }
}

/// What the service decrypts once a `Connect` passes its checks.
pub struct DecryptJob {
    pub config_path: String,
    pub slot: PivSlot,
    pub pin: String,
}

/// Goes on with a `Connect` once the metadata of its file is read: the
/// file must be a regular file of less than 64 KiB, and the slot name must
/// be known.
pub fn after_file_check(
    config_path: String,
    slot: String,
    pin: String,
    metadata: Result<(bool, u64), String>,
) -> (r: Result<DecryptJob, Response>)
    ensures
        match metadata_verdict(
            match metadata {
                Ok(m) => Ok(m),
                Err(e) => Err(e@),
            },
        ) {
            Err(m) => r is Err && r->Err_0@ == error_reply("chemin de config invalide : "@, m),
            Ok(()) => match slot_named(ascii_lower(slot@)) {
                None => r is Err && r->Err_0@ == error_reply(
                    "slot invalide '"@ + slot@ + "' : "@,
                    unknown_slot_message(ascii_lower(slot@)),
                ),
                Some(s) => r is Ok && r->Ok_0.slot == s && r->Ok_0.config_path@ == config_path@
                    && r->Ok_0.pin@ == pin@,
            },
        },
{
    match check_config_metadata(metadata) {
        Err(e) => {
            return Err(error_response("chemin de config invalide : ", &e));
        },
        Ok(()) => {},
    }
    match parse_slot(slot.as_str()) {
        Err(e) => {
            let mut m = string_from("slot invalide '");
            push_string(&mut m, &slot);
            push_str(&mut m, "' : ");
            push_string(&mut m, &e);
            Err(Response::Error { message: m })
        },
        Ok(s) => Ok(DecryptJob { config_path, slot: s, pin }),
    }
}

/// The address the service reports for a configuration: its first
/// interface address, or nothing.
pub open spec fn summary_address(c: ConfigView) -> Seq<char> {
    if c.interface.addresses.len() > 0 {
        ip_net_text(c.interface.addresses[0])
    } else {
        Seq::empty()
    }
}

/// The endpoint the service reports for a configuration: that of its
/// first peer, or nothing.
pub open spec fn summary_endpoint(c: ConfigView) -> Seq<char> {
    if c.peers.len() > 0 && c.peers[0].endpoint is Some {
        endpoint_text(c.peers[0].endpoint.unwrap())
    } else {
        Seq::empty()
    }
}

/// A configuration ready to be pushed to the kernel, with what the
/// service reports of it.
pub struct TunnelPlan {
    pub config: WgConfig,
    pub address: String,
    pub peer_endpoint: String,
}

/// Goes on with a `Connect` once its file is decrypted (or failed to be):
/// parses the configuration and prepares what the service reports.
pub fn prepare_tunnel(decrypted: Result<&str, String>) -> (r: Result<TunnelPlan, Response>)
    ensures
        match decrypted {
            Err(e) => r is Err && r->Err_0@ == error_reply("déchiffrement échoué : "@, e@),
            Ok(text) => match parse_config(text@) {
                Err(ce) => r is Err && r->Err_0@ == error_reply(
                    "parsing config échoué : "@,
                    config_error_text(ce),
                ),
                Ok(c) => r is Ok && r->Ok_0.config@ == c && r->Ok_0.config.nets_wf()
                    && r->Ok_0.address@ == summary_address(c) && r->Ok_0.peer_endpoint@
                    == summary_endpoint(c),
            },
        },
{
    let text = match decrypted {
        Err(e) => {
            return Err(error_response("déchiffrement échoué : ", &e));
        },
        Ok(t) => t,
    };
    let config = match parse(text) {
        Err(ce) => {
            let m = ce.message();
            return Err(error_response("parsing config échoué : ", &m));
        },
        Ok(c) => c,
    };
    let address = if config.interface.addresses.len() > 0 {
        ip_net_to_string(&config.interface.addresses[0])
    } else {
        String::new()
    };
    let peer_endpoint = if config.peers.len() > 0 {
        match &config.peers[0].endpoint {
            Some(e) => endpoint_to_string(e),
            None => String::new(),
        }
    } else {
        String::new()
    };
    proof {
        if config.peers@.len() > 0 {
            assert(config@.peers[0] == config.peers@[0]@);
        }
    }
    Ok(TunnelPlan { config, address, peer_endpoint })
}

/// Ends a `Connect` once the tunnel is started (or failed to start): a
/// started tunnel is registered under the default interface name.
pub fn finish_connect<T>(
    registry: &mut TunnelRegistry<T>,
    started: Result<T, String>,
    address: String,
    peer_endpoint: String,
) -> (r: Response)
    requires
        old(registry).wf(),
    ensures
        final(registry).wf(),
        match started {
            Ok(t) => final(registry).tunnels() == old(registry).tunnels().insert(
                DEFAULT_INTERFACE@,
                t,
            ) && r@ == (ResponseView::Connected {
                interface: DEFAULT_INTERFACE@,
                address: address@,
                peer_endpoint: peer_endpoint@,
            }),
            Err(e) => final(registry).tunnels() == old(registry).tunnels() && r@ == error_reply(
                "tunnel échoué : "@,
                e@,
            ),
        },
{
    match started {
        Ok(t) => {
            let iface = string_from(DEFAULT_INTERFACE);
            let _previous = registry.insert(iface.clone(), t);
            Response::Connected { interface: iface, address, peer_endpoint }
        },
        Err(e) => error_response("tunnel échoué : ", &e),
    }
}

proof fn lemma_single_name(names: Seq<Seq<char>>, n: Seq<char>)
    requires
        names.no_duplicates(),
        names.contains(n),
        forall|i: int| 0 <= i < names.len() ==> names[i] == n,
    ensures
        names == seq![n],
{
    if names.len() >= 2 {
        assert(names[0] == names[1]);
    }
    assert(names =~= seq![n]);
}

/// A `Disconnect` that names no interface, sent after a `Connect` whose
/// tunnel started, is answered `Disconnected` and leaves no tunnel at all;
/// when that tunnel was the only one, the answer names the default
/// interface.
pub proof fn law_disconnect_after_connect<T>(
    before: TunnelRegistry<T>,
    connected: TunnelRegistry<T>,
    tunnel: T,
)
    requires
        connected.wf(),
        connected.tunnels() == before.tunnels().insert(DEFAULT_INTERFACE@, tunnel),
    ensures
        disconnect_all_reply(connected.names()) is Disconnected,
        before.tunnels().dom() =~= Set::<Seq<char>>::empty() ==> disconnect_all_reply(
            connected.names(),
        ) == (ResponseView::Disconnected { interface: DEFAULT_INTERFACE@ }),
{
    connected.law_names_are_the_tunnels();
    assert(connected.tunnels().dom().contains(DEFAULT_INTERFACE@));
    assert(connected.names().contains(DEFAULT_INTERFACE@));
    if before.tunnels().dom() =~= Set::<Seq<char>>::empty() {
        let names = connected.names();
        assert forall|i: int| 0 <= i < names.len() implies names[i] == DEFAULT_INTERFACE@ by {
            assert(names.contains(names[i]));
            assert(connected.tunnels().dom().contains(names[i]));
        }
        lemma_single_name(names, DEFAULT_INTERFACE@);
        assert(joined(names) == DEFAULT_INTERFACE@);
    }
}

/// The endpoint a `Connect` reports is that of the first peer: it is the
/// endpoint text of a configuration's first peer when that peer has one,
/// nothing when it has none, and the peers after the first never change
/// it; the reported address is likewise the first interface address.
pub proof fn law_summary_follows_first_peer(c1: ConfigView, c2: ConfigView)
    requires
        c1.peers.len() > 0,
        c2.peers.len() > 0,
        c1.peers[0] == c2.peers[0],
        c1.interface.addresses.len() > 0,
        c2.interface.addresses.len() > 0,
        c1.interface.addresses[0] == c2.interface.addresses[0],
    ensures
        summary_endpoint(c1) == summary_endpoint(c2),
        summary_endpoint(c1) == match c1.peers[0].endpoint {
            Some(e) => endpoint_text(e),
            None => Seq::<char>::empty(),
        },
        summary_address(c1) == summary_address(c2),
        summary_address(c1) == ip_net_text(c1.interface.addresses[0]),
{
}

} // verus!
