use ghostwire::ipc::client::{connect, disconnect, ping, status, ClientError};
use ghostwire::ipc::messages::{Response, TunnelStatus};
use ghostwire::ui::app::{GhostWireApp, QuitAction, QuitChoice};
use ghostwire::ui::config::UserConfig;
use ghostwire::ui::state::{new_shared_state, IpcResult, TunnelState, UiState};

#[test]
fn ui_state_transitions() {
    let mut s = UiState::new();
    assert_eq!(s.tunnel, TunnelState::Disconnected);
    s.begin_connect("/x.age".into());
    assert_eq!(s.tunnel, TunnelState::Connecting);
    assert_eq!(s.config_path.as_deref(), Some("/x.age"));
    let quit = s.apply_ipc_result(IpcResult::Error { message: "non".into() });
    assert!(!quit);
    assert_eq!(s.tunnel, TunnelState::Disconnected);
    assert_eq!(s.last_error.as_deref(), Some("non"));
    let quit = s.apply_ipc_result(IpcResult::Connected { interface: "GhostWire".into(), address: "a".into(), peer_endpoint: "p".into() });
    assert!(!quit);
    assert_eq!(s.tunnel, TunnelState::Connected);
    assert!(s.last_error.is_none());
    assert_eq!(s.tunnel_info.as_ref().unwrap().address, "a");
    s.quit_after_disconnect = true;
    let quit = s.apply_ipc_result(IpcResult::Disconnected { interface: "GhostWire".into() });
    assert!(quit);
    assert!(s.tunnel_info.is_none());
    let shared = new_shared_state();
    assert_eq!(shared.lock().unwrap().tunnel, TunnelState::Disconnected);
}

#[test]
fn ui_resume_existing_tunnel() {
    let mut s = UiState::new();
    s.resume(&vec![]);
    assert_eq!(s.tunnel, TunnelState::Disconnected);
    s.resume(&vec![TunnelStatus { interface: "GhostWire".into(), address: String::new(), peer_endpoint: String::new(), connected: true }]);
    assert_eq!(s.tunnel, TunnelState::Connected);
    let info = s.tunnel_info.unwrap();
    assert_eq!(info.interface, "GhostWire");
    assert_eq!(info.address, "(tunnel pré-existant)");
    assert_eq!(info.peer_endpoint, "(repris au démarrage)");
}

#[test]
fn ui_app_dialogs() {
    let cfg = UserConfig::load(Ok(UserConfig { last_config_path: Some("/c.age".into()), last_slot: None }));
    let mut app = GhostWireApp::new(cfg.clone(), false);
    assert!(app.selected_config.is_none());
    app = GhostWireApp::new(cfg, true);
    assert_eq!(app.selected_config.as_deref(), Some("/c.age"));
    app.connect_clicked(TunnelState::Connected);
    assert!(!app.show_pin_dialog);
    app.connect_clicked(TunnelState::Disconnected);
    assert!(app.show_pin_dialog);
    assert_eq!(app.submit_pin(), None);
    app.pin_buffer = "123456".into();
    assert_eq!(app.submit_pin(), Some(("/c.age".to_string(), "123456".to_string())));
    assert!(!app.show_pin_dialog);
    assert!(app.pin_buffer.is_empty());
    app.connect_clicked(TunnelState::Disconnected);
    app.cancel_pin();
    assert!(app.pending_config_path.is_none());
    app.choose_config("/d.age".into());
    assert_eq!(app.user_config.last_config_path.as_deref(), Some("/d.age"));
    assert!(!app.close_requested(TunnelState::Disconnected));
    assert!(app.close_requested(TunnelState::Connected));
    assert!(app.show_quit_confirm);
    let mut s = UiState::new();
    assert_eq!(app.resolve_quit(QuitChoice::Cancel, &mut s), QuitAction::Nothing);
    assert!(!app.show_quit_confirm);
    assert_eq!(app.resolve_quit(QuitChoice::DisconnectAndQuit, &mut s), QuitAction::Disconnect);
    assert!(s.quit_after_disconnect);
    assert_eq!(app.resolve_quit(QuitChoice::KeepTunnel, &mut s), QuitAction::Exit);
}

#[test]
fn user_config_load_default() {
    let c = UserConfig::load(Err("absent".into()));
    assert!(c.last_config_path.is_none() && c.last_slot.is_none());
}

#[test]
fn client_reads_responses() {
    assert!(ping(Response::Pong).is_ok());
    assert!(matches!(ping(Response::Error { message: "x".into() }), Err(ClientError::ServiceError { message }) if message == "x"));
    assert!(matches!(ping(Response::Disconnected { interface: "i".into() }), Err(ClientError::UnexpectedResponse(_))));
    assert_eq!(disconnect(Response::Disconnected { interface: "i".into() }).unwrap(), "i");
    assert!(matches!(disconnect(Response::Error { message: "m".into() }), Err(ClientError::Refused { message }) if message == "m"));
    let (i, a, p) = connect(Response::Connected { interface: "i".into(), address: "a".into(), peer_endpoint: "p".into() }).unwrap();
    assert_eq!((i.as_str(), a.as_str(), p.as_str()), ("i", "a", "p"));
    assert!(matches!(connect(Response::Pong), Err(ClientError::UnexpectedResponse(Response::Pong))));
    assert_eq!(status(Response::Status { tunnels: vec![] }).unwrap().len(), 0);
    assert!(status(Response::Pong).is_err());
}

#[test]
fn quit_confirm_cancel_keeps_the_state() {
    let mut app = GhostWireApp::new(UserConfig::load(Err("absent".into())), false);
    let mut s = UiState::new();
    s.begin_connect("/x.age".into());
    s.apply_ipc_result(IpcResult::Connected {
        interface: "GhostWire".into(),
        address: "10.0.0.2/32".into(),
        peer_endpoint: "peer".into(),
    });
    s.last_error = Some("ancienne".into());
    assert!(app.close_requested(TunnelState::Connected));
    assert_eq!(app.resolve_quit(QuitChoice::Cancel, &mut s), QuitAction::Nothing);
    assert_eq!(s.tunnel, TunnelState::Connected);
    assert_eq!(s.last_error.as_deref(), Some("ancienne"));
    assert_eq!(s.config_path.as_deref(), Some("/x.age"));
    assert_eq!(s.tunnel_info.as_ref().map(|i| i.interface.as_str()), Some("GhostWire"));
    assert!(!s.quit_after_disconnect);
    assert_eq!(app.resolve_quit(QuitChoice::DisconnectAndQuit, &mut s), QuitAction::Disconnect);
    assert!(s.quit_after_disconnect);
    assert_eq!(s.tunnel, TunnelState::Connected);
    assert_eq!(s.config_path.as_deref(), Some("/x.age"));
}
