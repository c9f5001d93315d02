//! State shared between the window and the threads that talk to the
//! service.
use vstd::prelude::*;

use crate::ipc::messages::TunnelStatus;
use crate::text::string_from;

verus! {

/// The tunnel as the window shows it.
#[derive(Debug, Clone, Copy, PartialEq, Eq, Structural)]
pub enum TunnelState {
    Disconnected,
    Connecting,
    Connected,
}

/// What the window shows of an active tunnel.
#[derive(Debug, Clone)]
pub struct TunnelInfo {
    pub interface: String,
    pub address: String,
    pub peer_endpoint: String,
}

/// The state of the window.
#[derive(Debug)]
pub struct UiState {
    pub tunnel: TunnelState,
    pub last_error: Option<String>,
    pub config_path: Option<String>,
    pub tunnel_info: Option<TunnelInfo>,
    /// When set, the application quits as soon as a disconnection is
    /// confirmed.
    pub quit_after_disconnect: bool,
}

/// The outcome of a request made on behalf of the window.
#[derive(Debug, Clone)]
pub enum IpcResult {
    Connected { interface: String, address: String, peer_endpoint: String },
    Disconnected { interface: String },
    Error { message: String },
}

pub open spec fn opt_text(s: Option<String>) -> Option<Seq<char>> {
    match s {
        Some(t) => Some(t@),
        None => None,
    }
}

impl UiState {
    /// Disconnected, with no error, no file and no tunnel information.
    pub fn new() -> (s: Self)
        ensures
            s.tunnel == TunnelState::Disconnected,
            s.last_error is None,
            s.config_path is None,
            s.tunnel_info is None,
            !s.quit_after_disconnect,
    {
        UiState {
            tunnel: TunnelState::Disconnected,
            last_error: None,
            config_path: None,
            tunnel_info: None,
            quit_after_disconnect: false,
        }
    }

    /// A connection to the file at `path` is under way.
    pub fn begin_connect(&mut self, path: String)
        ensures
            final(self).tunnel == TunnelState::Connecting,
            opt_text(final(self).config_path) == Some(path@),
            opt_text(final(self).last_error) == opt_text(old(self).last_error),
            final(self).quit_after_disconnect == old(self).quit_after_disconnect,
    {
        self.tunnel = TunnelState::Connecting;
        self.config_path = Some(path);
    }

    /// Takes in the outcome of a request; answers whether the application
    /// should now quit (a confirmed disconnection that was asked for on
    /// quitting).
    pub fn apply_ipc_result(&mut self, result: IpcResult) -> (quit: bool)
        ensures
            match result {
                IpcResult::Connected { interface, address, peer_endpoint } => {
                    &&& final(self).tunnel == TunnelState::Connected
                    &&& final(self).last_error is None
                    &&& final(self).tunnel_info matches Some(i) && i.interface@ == interface@
                        && i.address@ == address@ && i.peer_endpoint@ == peer_endpoint@
                    &&& !quit
                },
                IpcResult::Disconnected { .. } => {
                    &&& final(self).tunnel == TunnelState::Disconnected
                    &&& final(self).tunnel_info is None
                    &&& final(self).last_error is None
                    &&& quit == old(self).quit_after_disconnect
                },
                IpcResult::Error { message } => {
                    &&& final(self).tunnel == TunnelState::Disconnected
                    &&& opt_text(final(self).last_error) == Some(message@)
                    &&& opt_text(final(self).config_path) == opt_text(old(self).config_path)
                    &&& !quit
                },
            },
            final(self).quit_after_disconnect == old(self).quit_after_disconnect,
    {
        match result {
            IpcResult::Connected { interface, address, peer_endpoint } => {
                self.tunnel = TunnelState::Connected;
                self.last_error = None;
                self.tunnel_info = Some(TunnelInfo { interface, address, peer_endpoint });
                false
            },
            IpcResult::Disconnected { interface: _ } => {
                self.tunnel = TunnelState::Disconnected;
                self.tunnel_info = None;
                self.last_error = None;
                self.quit_after_disconnect
            },
            IpcResult::Error { message } => {
                self.tunnel = TunnelState::Disconnected;
                self.last_error = Some(message);
                false
            },
        }
    }

    /// At start-up, shows a tunnel that the service already runs: the first
    /// one it reports, if any.
    pub fn resume(&mut self, tunnels: &Vec<TunnelStatus>)
        ensures
            tunnels@.len() == 0 ==> final(self).tunnel == old(self).tunnel && opt_text(
                final(self).last_error,
            ) == opt_text(old(self).last_error) && final(self).tunnel_info is None == old(
                self,
            ).tunnel_info is None,
            tunnels@.len() > 0 ==> {
                &&& final(self).tunnel == TunnelState::Connected
                &&& final(self).tunnel_info matches Some(i) && i.interface@ == tunnels@[0]@.interface
                    && i.address@ == "(tunnel pré-existant)"@ && i.peer_endpoint@
                    == "(repris au démarrage)"@
            },
    {
        if tunnels.len() > 0 {
            self.tunnel = TunnelState::Connected;
            self.tunnel_info = Some(
                TunnelInfo {
                    interface: tunnels[0].interface.clone(),
                    address: string_from("(tunnel pré-existant)"),
                    peer_endpoint: string_from("(repris au démarrage)"),
                },
            );
        }
    }
}

/// `std::sync::Mutex`, declared so that the shared state can hold one.
#[verifier::external_type_specification]
#[verifier::external_body]
#[verifier::reject_recursive_types(T)]
pub struct ExMutex<T: ?Sized>(std::sync::Mutex<T>);

/// Calls `std::sync::Mutex::new`. Nothing is claimed of the mutex: its
/// contents are out of reach of the proofs.
#[verifier::external_body]
fn mutex_new(s: UiState) -> std::sync::Mutex<UiState> {
    std::sync::Mutex::new(s)
}

/// A fresh state (as `UiState::new` makes it), shared between threads.
pub fn new_shared_state() -> std::sync::Arc<std::sync::Mutex<UiState>> {
    std::sync::Arc::new(mutex_new(UiState::new()))
}

} // verus!
