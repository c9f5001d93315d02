//! The window's own decisions, apart from drawing: the PIN dialog, the
//! file choice, and what closing the window does while a tunnel is up.
use vstd::prelude::*;

use crate::ui::config::UserConfig;
use crate::ui::state::{opt_text, TunnelState, UiState};

verus! {

/// The window's state.
pub struct GhostWireApp {
    pub show_pin_dialog: bool,
    pub pin_buffer: String,
    pub pin_focus_requested: bool,
    pub pending_config_path: Option<String>,
    pub user_config: UserConfig,
    pub selected_config: Option<String>,
    pub show_quit_confirm: bool,
}

/// The choices of the close confirmation.
#[derive(Debug, Clone, Copy, PartialEq, Eq)]
pub enum QuitChoice {
    /// Stay in the application.
    Cancel,
    /// Take the tunnel down, then quit.
    DisconnectAndQuit,
    /// Quit and leave the tunnel up.
    KeepTunnel,
}

/// What the application does after a close confirmation.
#[derive(Debug, Clone, Copy, PartialEq, Eq)]
pub enum QuitAction {
    Nothing,
    Disconnect,
    Exit,
}

impl GhostWireApp {
    /// The window at start-up: the remembered file is selected when it
    /// still exists.
    pub fn new(user_config: UserConfig, last_path_exists: bool) -> (app: Self)
        ensures
            !app.show_pin_dialog,
            app.pin_buffer@ == Seq::<char>::empty(),
            app.pending_config_path is None,
            !app.show_quit_confirm,
            opt_text(app.selected_config) == if last_path_exists {
                opt_text(user_config.last_config_path)
            } else {
                None
            },
            opt_text(app.user_config.last_config_path) == opt_text(user_config.last_config_path),
    {
        let selected_config = if last_path_exists {
            match &user_config.last_config_path {
                Some(p) => Some(p.clone()),
                None => None,
            }
        } else {
            None
        };
        GhostWireApp {
            show_pin_dialog: false,
            pin_buffer: String::new(),
            pin_focus_requested: false,
            pending_config_path: None,
            user_config,
            selected_config,
            show_quit_confirm: false,
        }
    }

    /// A file was chosen: it is selected and remembered.
    pub fn choose_config(&mut self, path: String)
        ensures
            opt_text(final(self).selected_config) == Some(path@),
            opt_text(final(self).user_config.last_config_path) == Some(path@),
    {
        self.selected_config = Some(path.clone());
        self.user_config.last_config_path = Some(path);
    }

    /// Whether the Connect button is enabled.
    pub fn can_connect(&self, tunnel: TunnelState) -> (b: bool)
        ensures
            b == (tunnel == TunnelState::Disconnected && self.selected_config is Some),
    {
        tunnel == TunnelState::Disconnected && self.selected_config.is_some()
    }

    /// Connect clicked: when it is enabled, the PIN dialog opens for the
    /// selected file.
    pub fn connect_clicked(&mut self, tunnel: TunnelState)
        ensures
            (tunnel == TunnelState::Disconnected && old(self).selected_config is Some) ==> {
                &&& final(self).show_pin_dialog
                &&& final(self).pin_focus_requested
                &&& final(self).pin_buffer@ == Seq::<char>::empty()
                &&& opt_text(final(self).pending_config_path) == opt_text(old(self).selected_config)
            },
            !(tunnel == TunnelState::Disconnected && old(self).selected_config is Some)
                ==> final(self).show_pin_dialog == old(self).show_pin_dialog && opt_text(
                final(self).pending_config_path,
            ) == opt_text(old(self).pending_config_path),
    {
        if self.can_connect(tunnel) {
            match &self.selected_config {
                Some(p) => {
                    self.pending_config_path = Some(p.clone());
                    self.pin_buffer = String::new();
                    self.show_pin_dialog = true;
                    self.pin_focus_requested = true;
                },
                None => {},
            }
        }
    }

    /// OK in the PIN dialog (enabled only with a PIN typed): the dialog
    /// closes and the connection starts, with the file and PIN it hands
    /// out.
    pub fn submit_pin(&mut self) -> (r: Option<(String, String)>)
        ensures
            old(self).pin_buffer@.len() == 0 ==> r is None && final(self).show_pin_dialog == old(
                self,
            ).show_pin_dialog,
            old(self).pin_buffer@.len() > 0 ==> {
                &&& !final(self).show_pin_dialog
                &&& final(self).pin_buffer@ == Seq::<char>::empty()
                &&& final(self).pending_config_path is None
                &&& match old(self).pending_config_path {
                    Some(p) => r matches Some((path, pin)) && path@ == p@ && pin@ == old(
                        self,
                    ).pin_buffer@,
                    None => r is None,
                }
            },
    {
        if self.pin_buffer.as_str().is_empty() {
            return None;
        }
        self.show_pin_dialog = false;
        let mut pin = String::new();
        std::mem::swap(&mut pin, &mut self.pin_buffer);
        let path = self.pending_config_path.take();
        match path {
            Some(p) => Some((p, pin)),
            None => None,
        }
    }

    /// Cancel in the PIN dialog: it closes, forgetting the PIN and the file.
    pub fn cancel_pin(&mut self)
        ensures
            !final(self).show_pin_dialog,
            final(self).pin_buffer@ == Seq::<char>::empty(),
            final(self).pending_config_path is None,
    {
        self.show_pin_dialog = false;
        self.pin_buffer = String::new();
        self.pending_config_path = None;
    }

    /// The window's close button: with a tunnel up, closing is cancelled
    /// and the confirmation shown (answers `true`); otherwise the window
    /// closes.
    pub fn close_requested(&mut self, tunnel: TunnelState) -> (cancel: bool)
        ensures
            cancel == (tunnel == TunnelState::Connected),
            cancel ==> final(self).show_quit_confirm,
            !cancel ==> final(self).show_quit_confirm == old(self).show_quit_confirm,
    {
        if tunnel == TunnelState::Connected {
            self.show_quit_confirm = true;
            true
        } else {
            false
        }
    }

    /// A choice in the close confirmation.
    pub fn resolve_quit(&mut self, choice: QuitChoice, state: &mut UiState) -> (a: QuitAction)
        ensures
            match choice {
                QuitChoice::Cancel => a == QuitAction::Nothing && !final(self).show_quit_confirm
                    && *final(state) == *old(state),
                QuitChoice::DisconnectAndQuit => a == QuitAction::Disconnect
                    && !final(self).show_quit_confirm && *final(state) == (UiState {
                    quit_after_disconnect: true,
                    ..*old(state)
                }),
                QuitChoice::KeepTunnel => a == QuitAction::Exit && *final(state) == *old(state)
                    && final(self).show_quit_confirm == old(self).show_quit_confirm,
            },
            final(self).show_pin_dialog == old(self).show_pin_dialog,
            final(self).pin_buffer == old(self).pin_buffer,
            final(self).pending_config_path == old(self).pending_config_path,
            final(self).selected_config == old(self).selected_config,
            final(self).user_config == old(self).user_config,
    {
        match choice {
            QuitChoice::Cancel => {
                self.show_quit_confirm = false;
                QuitAction::Nothing
            },
            QuitChoice::DisconnectAndQuit => {
                self.show_quit_confirm = false;
                state.quit_after_disconnect = true;
                QuitAction::Disconnect
            },
            QuitChoice::KeepTunnel => QuitAction::Exit,
        }
    }
}

} // verus!
