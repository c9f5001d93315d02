//! Requests sent to the service, and its responses.
use vstd::prelude::*;

verus! {

/// Requests from a client (UI or CLI) to the service.
#[derive(Debug, Clone)]
pub enum Request {
    /// Brings a WireGuard tunnel up.
    Connect {
        /// Path of the `.conf.age` file on disk.
        config_path: String,
        /// YubiKey PIV slot (e.g. "r1", "authentication").
        slot: String,
        /// YubiKey PIN.
        pin: String,
    },
    /// Takes the named tunnel down; `None` takes every tunnel down.
    Disconnect { interface: Option<String> },
    /// Lists the active tunnels.
    Status,
    /// Liveness check, answered by `Pong`.
    Ping,
}

/// Responses from the service to a client.
#[derive(Debug, Clone)]
pub enum Response {
    /// The tunnel is up.
    Connected { interface: String, address: String, peer_endpoint: String },
    /// The tunnel is down.
    Disconnected { interface: String },
    /// The active tunnels.
    Status { tunnels: Vec<TunnelStatus> },
    /// Answer to `Ping`.
    Pong,
    /// Something failed in the service.
    Error { message: String },
}

/// One active tunnel.
#[derive(Debug, Clone)]
pub struct TunnelStatus {
    pub interface: String,
    pub address: String,
    pub peer_endpoint: String,
    pub connected: bool,
}

pub struct TunnelStatusView {
    pub interface: Seq<char>,
    pub address: Seq<char>,
    pub peer_endpoint: Seq<char>,
    pub connected: bool,
}

pub enum ResponseView {
    Connected { interface: Seq<char>, address: Seq<char>, peer_endpoint: Seq<char> },
    Disconnected { interface: Seq<char> },
    Status { tunnels: Seq<TunnelStatusView> },
    Pong,
    Error { message: Seq<char> },
}

impl View for TunnelStatus {
    type V = TunnelStatusView;

    open spec fn view(&self) -> TunnelStatusView {
        TunnelStatusView {
            interface: self.interface@,
            address: self.address@,
            peer_endpoint: self.peer_endpoint@,
            connected: self.connected,
        }
    }
}

impl View for Response {
    type V = ResponseView;

    open spec fn view(&self) -> ResponseView {
        match self {
            Response::Connected { interface, address, peer_endpoint } => ResponseView::Connected {
                interface: interface@,
                address: address@,
                peer_endpoint: peer_endpoint@,
            },
            Response::Disconnected { interface } => ResponseView::Disconnected {
                interface: interface@,
            },
            Response::Status { tunnels } => ResponseView::Status {
                tunnels: tunnels@.map_values(|t: TunnelStatus| t@),
            },
            Response::Pong => ResponseView::Pong,
            Response::Error { message } => ResponseView::Error { message: message@ },
        }
    }
}

} // verus!
