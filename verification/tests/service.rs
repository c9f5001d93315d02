use ghostwire::ipc::messages::{Request, Response};
use ghostwire::config::parser::parse;
use ghostwire::net::SocketAddress;
use ghostwire::service::admission::{ClientSlots, MAX_CONCURRENT_CLIENTS};
use ghostwire::service::control::{handle_control, ControlAnswer, ServiceControlKind};
use ghostwire::service::dll::{wireguard_dll_choice, DllLocation};
use ghostwire::service::endpoint::{peer_endpoint, PeerEndpoint};
use ghostwire::service::path::{check_config_metadata, check_path_form, validate_config_path_form};
use ghostwire::service::rate_limit::{check_connect_rate_limit, CONNECT_WINDOW_NANOS};
use ghostwire::service::registry::TunnelRegistry;
use ghostwire::service::requests::{after_file_check, finish_connect, handle_request, prepare_tunnel, Dispatch};
use ghostwire::service::slot::{parse_slot, slot_to_string, PivSlot};

const SECOND: u64 = 1_000_000_000;

#[test]
fn rate_limit_three_per_window() {
    let mut attempts = Vec::new();
    assert!(check_connect_rate_limit(&mut attempts, 0).is_ok());
    assert!(check_connect_rate_limit(&mut attempts, 10 * SECOND).is_ok());
    assert!(check_connect_rate_limit(&mut attempts, 20 * SECOND).is_ok());
    let err = check_connect_rate_limit(&mut attempts, 30 * SECOND).unwrap_err();
    assert_eq!(
        err,
        "trop de tentatives de connexion (3/3). Attendez 60 secondes avant de réessayer."
    );
    assert_eq!(attempts, vec![0, 10 * SECOND, 20 * SECOND]);
    // The first attempt leaves the window 60 s later.
    assert!(check_connect_rate_limit(&mut attempts, CONNECT_WINDOW_NANOS).is_ok());
    assert_eq!(attempts, vec![10 * SECOND, 20 * SECOND, 60 * SECOND]);
    assert!(check_connect_rate_limit(&mut attempts, 65 * SECOND).is_err());
}

#[test]
fn rate_limit_future_attempts_count_as_now() {
    let mut attempts = vec![100 * SECOND, 100 * SECOND, 100 * SECOND];
    assert!(check_connect_rate_limit(&mut attempts, 0).is_err());
    assert_eq!(attempts.len(), 3);
}

#[test]
fn slot_names() {
    assert_eq!(parse_slot("authentication"), Ok(PivSlot::Authentication));
    assert_eq!(parse_slot("Signature"), Ok(PivSlot::Signature));
    assert_eq!(parse_slot("KEY-MANAGEMENT"), Ok(PivSlot::KeyManagement));
    assert_eq!(parse_slot("card-auth"), Ok(PivSlot::CardAuthentication));
    assert_eq!(parse_slot("r1"), Ok(PivSlot::Retired(1)));
    assert_eq!(parse_slot("R20"), Ok(PivSlot::Retired(20)));
    assert_eq!(parse_slot("r21"), Err("slot inconnue : 'r21'".to_string()));
    assert_eq!(parse_slot("R01"), Err("slot inconnue : 'r01'".to_string()));
    assert_eq!(parse_slot(""), Err("slot inconnue : ''".to_string()));
    for n in 1..=20u8 {
        let name = slot_to_string(PivSlot::Retired(n)).unwrap();
        assert_eq!(name, format!("r{n}"));
        assert_eq!(parse_slot(&name), Ok(PivSlot::Retired(n)));
    }
    assert_eq!(slot_to_string(PivSlot::KeyManagement), Ok("key-management".to_string()));
    assert_eq!(slot_to_string(PivSlot::Attestation), Err("slot non supportée".to_string()));
    assert_eq!(slot_to_string(PivSlot::Retired(0)), Err("slot non supportée".to_string()));
}

#[test]
fn path_form_checks() {
    assert_eq!(check_path_form(r"\\.\COM1", true, Some("age")), Err("chemin device interdit".to_string()));
    assert_eq!(check_path_form(r"\\?\C:\x.age", true, Some("age")), Err("chemin device interdit".to_string()));
    assert_eq!(check_path_form(r"\\server\share\x.age", true, Some("age")), Err("chemins réseau (UNC) interdits".to_string()));
    assert_eq!(check_path_form(r"x.age", false, Some("age")), Err("le chemin doit être absolu".to_string()));
    assert_eq!(check_path_form(r"C:\x.txt", true, Some("txt")), Err("le fichier doit avoir l'extension .age".to_string()));
    assert_eq!(check_path_form(r"C:\x", true, None), Err("le fichier doit avoir l'extension .age".to_string()));
    assert_eq!(check_path_form(r"C:\x.AGE", true, Some("AGE")), Ok(()));
    assert_eq!(validate_config_path_form(r"\\.\pipe\x.age"), Err("chemin device interdit".to_string()));
    assert_eq!(validate_config_path_form("relative.age"), Err("le chemin doit être absolu".to_string()));
}

#[test]
fn metadata_checks() {
    assert_eq!(check_config_metadata(Ok((true, 65535))), Ok(()));
    assert_eq!(check_config_metadata(Ok((true, 65536))), Err("fichier trop gros (65536 octets, max 65536)".to_string()));
    assert_eq!(check_config_metadata(Ok((false, 10))), Err("le chemin ne pointe pas vers un fichier régulier".to_string()));
    assert_eq!(check_config_metadata(Ok((true, 65537))), Err("fichier trop gros (65537 octets, max 65536)".to_string()));
    assert_eq!(check_config_metadata(Err("absent".to_string())), Err("impossible de lire les métadonnées : absent".to_string()));
}

fn reply(d: Dispatch) -> Response {
    match d {
        Dispatch::Reply(r) => r,
        Dispatch::CheckConfigFile { .. } => panic!("expected a reply"),
    }
}

#[test]
fn requests_ping_status_disconnect() {
    let mut reg: TunnelRegistry<u32> = TunnelRegistry::new();
    let mut attempts = Vec::new();
    assert!(matches!(reply(handle_request(Request::Ping, &mut reg, &mut attempts, 0)), Response::Pong));
    match reply(handle_request(Request::Status, &mut reg, &mut attempts, 0)) {
        Response::Status { tunnels } => assert!(tunnels.is_empty()),
        other => panic!("{other:?}"),
    }
    match reply(handle_request(Request::Disconnect { interface: None }, &mut reg, &mut attempts, 0)) {
        Response::Error { message } => assert_eq!(message, "aucun tunnel actif"),
        other => panic!("{other:?}"),
    }
    let r = finish_connect(&mut reg, Ok(7u32), "10.0.0.2/32".to_string(), "peer".to_string());
    match r {
        Response::Connected { interface, address, peer_endpoint } => {
            assert_eq!(interface, "GhostWire");
            assert_eq!(address, "10.0.0.2/32");
            assert_eq!(peer_endpoint, "peer");
        }
        other => panic!("{other:?}"),
    }
    match reply(handle_request(Request::Status, &mut reg, &mut attempts, 0)) {
        Response::Status { tunnels } => {
            assert_eq!(tunnels.len(), 1);
            assert_eq!(tunnels[0].interface, "GhostWire");
            assert_eq!(tunnels[0].address, "");
            assert!(tunnels[0].connected);
        }
        other => panic!("{other:?}"),
    }
    match reply(handle_request(Request::Disconnect { interface: Some("GhostWire".into()) }, &mut reg, &mut attempts, 0)) {
        Response::Disconnected { interface } => assert_eq!(interface, "GhostWire"),
        other => panic!("{other:?}"),
    }
    assert_eq!(reg.len(), 0);
    match finish_connect(&mut reg, Err::<u32, String>("boom".into()), String::new(), String::new()) {
        Response::Error { message } => assert_eq!(message, "tunnel échoué : boom"),
        other => panic!("{other:?}"),
    }
    assert_eq!(reg.len(), 0);
}

#[test]
fn registry_insert_replaces() {
    let mut reg: TunnelRegistry<u32> = TunnelRegistry::new();
    assert_eq!(reg.insert("a".into(), 1), None);
    assert_eq!(reg.insert("b".into(), 2), None);
    assert_eq!(reg.insert("a".into(), 3), Some(1));
    assert_eq!(reg.len(), 2);
    assert_eq!(reg.remove(&"a".to_string()), Some(3));
    assert_eq!(reg.remove(&"a".to_string()), None);
    reg.clear();
    assert_eq!(reg.len(), 0);
}

#[test]
fn connect_steps() {
    let mut reg: TunnelRegistry<u32> = TunnelRegistry::new();
    let mut attempts = Vec::new();
    let req = Request::Connect { config_path: r"\\server\x.age".into(), slot: "r1".into(), pin: "1".into() };
    match reply(handle_request(req, &mut reg, &mut attempts, 0)) {
        Response::Error { message } => assert_eq!(message, "chemin de config invalide : chemins réseau (UNC) interdits"),
        other => panic!("{other:?}"),
    }
    assert_eq!(attempts.len(), 1);
    let req = Request::Connect { config_path: "/etc/x.age".into(), slot: "r1".into(), pin: "1".into() };
    match handle_request(req, &mut reg, &mut attempts, 1) {
        Dispatch::CheckConfigFile { config_path, slot, pin } => {
            assert_eq!(config_path, "/etc/x.age");
            assert_eq!(slot, "r1");
            assert_eq!(pin, "1");
        }
        Dispatch::Reply(r) => panic!("{r:?}"),
    }
    let job = after_file_check("/etc/x.age".into(), "R3".into(), "1".into(), Ok((true, 100))).ok().unwrap();
    assert_eq!(job.slot, PivSlot::Retired(3));
    match after_file_check("/etc/x.age".into(), "bad".into(), "1".into(), Ok((true, 100))) {
        Err(Response::Error { message }) => assert_eq!(message, "slot invalide 'bad' : slot inconnue : 'bad'"),
        _ => panic!("expected an error"),
    }
    match after_file_check("/etc/x.age".into(), "r1".into(), "1".into(), Ok((false, 100))) {
        Err(Response::Error { message }) => assert_eq!(message, "chemin de config invalide : le chemin ne pointe pas vers un fichier régulier"),
        _ => panic!("expected an error"),
    }
    // Third attempt accepted, fourth refused.
    let req = Request::Connect { config_path: "/etc/x.age".into(), slot: "r1".into(), pin: "1".into() };
    assert!(matches!(handle_request(req.clone(), &mut reg, &mut attempts, 2), Dispatch::CheckConfigFile { .. }));
    match reply(handle_request(req, &mut reg, &mut attempts, 3)) {
        Response::Error { message } => assert!(message.starts_with("trop de tentatives")),
        other => panic!("{other:?}"),
    }
}

#[test]
fn prepare_tunnel_reports() {
    match prepare_tunnel(Err("mauvais PIN".into())) {
        Err(Response::Error { message }) => assert_eq!(message, "déchiffrement échoué : mauvais PIN"),
        _ => panic!("expected an error"),
    }
    match prepare_tunnel(Ok("[Interface]\n")) {
        Err(Response::Error { message }) => assert_eq!(message, "parsing config échoué : section [Interface] : clé 'PrivateKey' obligatoire manquante"),
        _ => panic!("expected an error"),
    }
    let text = "[Interface]\nPrivateKey = AAAAAAAAAAAAAAAAAAAAAAAAAAAAAAAAAAAAAAAAAAA=\nAddress = 10.0.0.2/32, fd00::2/128\n[Peer]\nPublicKey = AQAAAAAAAAAAAAAAAAAAAAAAAAAAAAAAAAAAAAAAAAA=\nEndpoint = vpn.example.com:51820\n";
    let plan = prepare_tunnel(Ok(text)).ok().unwrap();
    assert_eq!(plan.address, "10.0.0.2/32");
    assert_eq!(plan.peer_endpoint, "Hostname { host: \"vpn.example.com\", port: 51820 }");
    let text = "[Interface]\nPrivateKey = AAAAAAAAAAAAAAAAAAAAAAAAAAAAAAAAAAAAAAAAAAA=\n[Peer]\nPublicKey = AQAAAAAAAAAAAAAAAAAAAAAAAAAAAAAAAAAAAAAAAAA=\nEndpoint = 203.0.113.1:51820\n";
    let plan = prepare_tunnel(Ok(text)).ok().unwrap();
    assert_eq!(plan.address, "");
    assert_eq!(plan.peer_endpoint, "Resolved(203.0.113.1:51820)");
}

#[test]
fn at_most_four_clients() {
    let mut slots = ClientSlots::new();
    assert_eq!(slots.active(), 0);
    for _ in 0..MAX_CONCURRENT_CLIENTS {
        assert!(slots.try_admit());
    }
    assert_eq!(slots.active(), 4);
    assert!(!slots.try_admit());
    assert_eq!(slots.active(), 4);
    slots.release();
    assert_eq!(slots.active(), 3);
    assert!(slots.try_admit());
    assert!(!slots.try_admit());
}

#[test]
fn disconnect_after_connect_default_interface() {
    let mut reg: TunnelRegistry<u32> = TunnelRegistry::new();
    let mut attempts = Vec::new();
    assert_eq!(reg.insert("other".into(), 1), None);
    let _ = finish_connect(&mut reg, Ok(2u32), String::new(), String::new());
    match reply(handle_request(Request::Disconnect { interface: None }, &mut reg, &mut attempts, 0)) {
        Response::Disconnected { interface } => assert_eq!(interface, "other, GhostWire"),
        other => panic!("{other:?}"),
    }
    assert_eq!(reg.len(), 0);
    let _ = finish_connect(&mut reg, Ok(3u32), String::new(), String::new());
    match reply(handle_request(Request::Disconnect { interface: None }, &mut reg, &mut attempts, 0)) {
        Response::Disconnected { interface } => assert_eq!(interface, "GhostWire"),
        other => panic!("{other:?}"),
    }
    assert_eq!(reg.len(), 0);
}

#[test]
fn peer_endpoints() {
    let key = "AAAAAAAAAAAAAAAAAAAAAAAAAAAAAAAAAAAAAAAAAAA=";
    let text = format!(
        "[Interface]\nPrivateKey = {key}\n\
         [Peer]\nPublicKey = {key}\nEndpoint = 203.0.113.7:51820\n\
         [Peer]\nPublicKey = {key}\nEndpoint = vpn.example.com:443\n\
         [Peer]\nPublicKey = {key}\n"
    );
    let cfg = match parse(&text) {
        Ok(c) => c,
        Err(e) => panic!("{e:?}"),
    };
    assert_eq!(
        peer_endpoint(&cfg.peers[0]),
        Ok(PeerEndpoint::Known(SocketAddress::V4 { ip: [203, 0, 113, 7], port: 51820 }))
    );
    assert_eq!(peer_endpoint(&cfg.peers[1]), Ok(PeerEndpoint::Lookup("vpn.example.com:443".to_string())));
    assert_eq!(
        peer_endpoint(&cfg.peers[2]),
        Err("peer sans endpoint — non supporté en mode client".to_string())
    );
}

#[test]
fn service_control_stop_cuts_every_tunnel() {
    let mut reg: TunnelRegistry<u32> = TunnelRegistry::new();
    assert_eq!(reg.insert("a".into(), 1), None);
    assert_eq!(reg.insert("GhostWire".into(), 2), None);
    assert_eq!(handle_control(ServiceControlKind::Interrogate, &mut reg), (ControlAnswer::NoError, false));
    assert_eq!(reg.len(), 2);
    assert_eq!(handle_control(ServiceControlKind::Other, &mut reg), (ControlAnswer::NotImplemented, false));
    assert_eq!(reg.len(), 2);
    assert_eq!(handle_control(ServiceControlKind::Stop, &mut reg), (ControlAnswer::NoError, true));
    assert_eq!(reg.len(), 0);
}

#[test]
fn dll_only_under_the_executable() {
    assert_eq!(wireguard_dll_choice(true, true), Some(DllLocation::NextToExe));
    assert_eq!(wireguard_dll_choice(true, false), Some(DllLocation::NextToExe));
    assert_eq!(wireguard_dll_choice(false, true), Some(DllLocation::WireguardNtSubdir));
    assert_eq!(wireguard_dll_choice(false, false), None);
}

#[test]
fn relative_config_path_refused() {
    assert_eq!(validate_config_path_form("client.conf.age"), Err("le chemin doit être absolu".to_string()));
    let mut reg: TunnelRegistry<u32> = TunnelRegistry::new();
    let mut attempts = Vec::new();
    let request = Request::Connect {
        config_path: "client.conf.age".into(),
        slot: "r1".into(),
        pin: "123456".into(),
    };
    match reply(handle_request(request, &mut reg, &mut attempts, 0)) {
        Response::Error { message } => {
            assert_eq!(message, "chemin de config invalide : le chemin doit être absolu")
        }
        other => panic!("{other:?}"),
    }
    assert_eq!(attempts, vec![0]);
}
