use ghostwire::config::parser::{parse, ConfigError};
use ghostwire::config::{EndpointSpec, WgConfig};
use ghostwire::net::{IpAddress, IpNetwork, SocketAddress};

// Valid dummy keys: 32 bytes, standard base64 with padding.
const KEY_PRIV: &str = "AAAAAAAAAAAAAAAAAAAAAAAAAAAAAAAAAAAAAAAAAAA=";
const KEY_PUB1: &str = "AQAAAAAAAAAAAAAAAAAAAAAAAAAAAAAAAAAAAAAAAAA=";
const KEY_PUB2: &str = "AgAAAAAAAAAAAAAAAAAAAAAAAAAAAAAAAAAAAAAAAAA=";
const KEY_PSK: &str = "BAAAAAAAAAAAAAAAAAAAAAAAAAAAAAAAAAAAAAAAAAA=";

fn parse_ok(input: &str, what: &str) -> WgConfig {
    match parse(input) {
        Ok(c) => c,
        Err(e) => panic!("{what}: {e:?}"),
    }
}

fn parse_err(input: &str) -> ConfigError {
    match parse(input) {
        Ok(_) => panic!("parse should have failed"),
        Err(e) => e,
    }
}

#[test]
fn parse_full_fixture() {
    let fixture = format!("
[Interface]
PrivateKey = {KEY_PRIV}
Address = 10.0.0.2/32, fd00::2/128
DNS = 1.1.1.1, 8.8.8.8
ListenPort = 51820
MTU = 1420

[Peer]
PublicKey = {KEY_PUB1}
PresharedKey = {KEY_PSK}
AllowedIPs = 0.0.0.0/0, ::/0
Endpoint = vpn.example.com:51820
PersistentKeepalive = 25
");
    let cfg = parse_ok(&fixture, "parse OK");
    assert_eq!(cfg.interface.addresses.len(), 2);
    assert_eq!(cfg.interface.listen_port, Some(51820));
    assert_eq!(cfg.interface.mtu, Some(1420));
    assert_eq!(cfg.interface.dns.len(), 2);
    assert_eq!(cfg.peers.len(), 1);
    assert_eq!(cfg.peers[0].allowed_ips.len(), 2);
    assert_eq!(cfg.peers[0].persistent_keepalive, Some(25));
    assert_eq!(cfg.interface.private_key.as_bytes().len(), 32);
}

#[test]
fn comments_and_blank_lines_ignored() {
    let input = format!("
# c'est un commentaire
; aussi un commentaire

[Interface]
PrivateKey = {KEY_PRIV}  # inline aussi
Address = 10.0.0.2/32

[Peer]
PublicKey = {KEY_PUB1}
AllowedIPs = 10.0.0.0/24
");
    parse_ok(&input, "commentaires OK");
}

#[test]
fn endpoint_ipv4_resolved() {
    let input = format!("
[Interface]
PrivateKey = {KEY_PRIV}
Address = 10.0.0.2/32
[Peer]
PublicKey = {KEY_PUB1}
AllowedIPs = 0.0.0.0/0
Endpoint = 203.0.113.1:51820
");
    let cfg = parse_ok(&input, "ok");
    match &cfg.peers[0].endpoint {
        Some(EndpointSpec::Resolved(addr)) => assert_eq!(addr.port(), 51820),
        other => panic!("attendu Resolved, eu {other:?}"),
    }
}

#[test]
fn endpoint_hostname_unresolved() {
    let input = format!("
[Interface]
PrivateKey = {KEY_PRIV}
Address = 10.0.0.2/32
[Peer]
PublicKey = {KEY_PUB1}
AllowedIPs = 0.0.0.0/0
Endpoint = vpn.example.com:51820
");
    let cfg = parse_ok(&input, "ok");
    match &cfg.peers[0].endpoint {
        Some(EndpointSpec::Hostname { host, port }) => {
            assert_eq!(host, "vpn.example.com");
            assert_eq!(*port, 51820);
        }
        other => panic!("attendu Hostname, eu {other:?}"),
    }
}

#[test]
fn rejects_missing_interface() {
    let input = format!("[Peer]\nPublicKey = {KEY_PUB1}\nAllowedIPs = 0.0.0.0/0\n");
    let err = parse_err(&input);
    assert!(matches!(err, ConfigError::MissingInterface));
}

#[test]
fn rejects_missing_private_key() {
    let input = format!(
        "[Interface]\nAddress = 10.0.0.2/32\n\
         [Peer]\nPublicKey = {KEY_PUB1}\nAllowedIPs = 0.0.0.0/0\n"
    );
    let err = parse_err(&input);
    assert!(matches!(err, ConfigError::MissingPrivateKey));
}

#[test]
fn rejects_unknown_key() {
    let input = format!("
[Interface]
PrivateKey = {KEY_PRIV}
WeirdField = 42
");
    let err = parse_err(&input);
    assert!(matches!(err, ConfigError::UnknownKey { .. }));
}

#[test]
fn multiple_peers() {
    let input = format!("
[Interface]
PrivateKey = {KEY_PRIV}
Address = 10.0.0.2/32
[Peer]
PublicKey = {KEY_PUB1}
AllowedIPs = 10.1.0.0/24
[Peer]
PublicKey = {KEY_PUB2}
AllowedIPs = 10.2.0.0/24
");
    let cfg = parse_ok(&input, "ok");
    assert_eq!(cfg.peers.len(), 2);
    assert_ne!(cfg.peers[0].public_key, cfg.peers[1].public_key);
}

#[test]
fn case_insensitive_keys() {
    let input = format!("
[Interface]
PRIVATEKEY = {KEY_PRIV}
address = 10.0.0.2/32
[Peer]
PublicKey = {KEY_PUB1}
PreSharedKey = {KEY_PSK}
allowedips = 0.0.0.0/0
PersistentKeepalive = 25
");
    let cfg = parse_ok(&input, "casse mixte OK");
    assert!(cfg.peers[0].preshared_key.is_some());
    assert_eq!(cfg.peers[0].persistent_keepalive, Some(25));
}

// ── further cases ────────────────────────────────────────────────────

fn minimal(extra_iface: &str, extra_peer: &str) -> String {
    format!("[Interface]\nPrivateKey = {KEY_PRIV}\n{extra_iface}[Peer]\nPublicKey = {KEY_PUB1}\n{extra_peer}")
}

#[test]
fn parsed_values_are_exact() {
    let input = minimal("Address = 10.0.0.2/32, fd00::2/128\nDNS = 1.1.1.1\n", "AllowedIPs = 0.0.0.0/0\n");
    let cfg = parse_ok(&input, "ok");
    assert_eq!(cfg.interface.addresses[0], IpNetwork { addr: IpAddress::V4([10, 0, 0, 2]), prefix_len: 32 });
    let mut v6 = [0u8; 16];
    v6[0] = 0xfd;
    v6[15] = 2;
    assert_eq!(cfg.interface.addresses[1], IpNetwork { addr: IpAddress::V6(v6), prefix_len: 128 });
    assert_eq!(cfg.interface.dns, vec![IpAddress::V4([1, 1, 1, 1])]);
    assert_eq!(cfg.interface.private_key.as_bytes(), &[0u8; 32]);
    let mut pk = [0u8; 32];
    pk[0] = 1;
    assert_eq!(cfg.peers[0].public_key, pk);
    assert_eq!(cfg.peers[0].allowed_ips, vec![IpNetwork { addr: IpAddress::V4([0, 0, 0, 0]), prefix_len: 0 }]);
    assert!(cfg.peers[0].endpoint.is_none());
    assert_eq!(cfg.interface.listen_port, None);
}

#[test]
fn empty_list_items_are_skipped() {
    let input = minimal("Address = , 10.0.0.2/32,,\n", "AllowedIPs = 0.0.0.0/0,\n");
    let cfg = parse_ok(&input, "ok");
    assert_eq!(cfg.interface.addresses.len(), 1);
    assert_eq!(cfg.peers[0].allowed_ips.len(), 1);
}

#[test]
fn crlf_line_endings() {
    let input = format!("[Interface]\r\nPrivateKey = {KEY_PRIV}\r\n[Peer]\r\nPublicKey = {KEY_PUB1}\r\nListenPort = 1\r\n");
    let err = parse_err(&input);
    match err {
        ConfigError::UnknownKey { line, key, section } => {
            assert_eq!(line, 5);
            assert_eq!(key, "listenport");
            assert_eq!(section, "Peer");
        }
        other => panic!("{other:?}"),
    }
}

#[test]
fn ignored_interface_keys() {
    let input = minimal("PostUp = iptables -A\nTable = off\nSaveConfig = true\n", "");
    parse_ok(&input, "ignored keys");
}

#[test]
fn error_no_peers() {
    let input = format!("[Interface]\nPrivateKey = {KEY_PRIV}\n");
    assert!(matches!(parse_err(&input), ConfigError::NoPeers));
    assert_eq!(parse_err(&input).message(), "aucun [Peer] défini — la config n'a pas de destination");
}

#[test]
fn error_peer_missing_public_key() {
    let input = format!("[Interface]\nPrivateKey = {KEY_PRIV}\n[Peer]\nAllowedIPs = 0.0.0.0/0\n");
    assert!(matches!(parse_err(&input), ConfigError::PeerMissingPublicKey));
}

#[test]
fn error_unknown_section() {
    let err = parse_err("[Interface]\n[Foo]\n");
    match &err {
        ConfigError::UnknownSection { line, name } => {
            assert_eq!(*line, 2);
            assert_eq!(name, "Foo");
        }
        other => panic!("{other:?}"),
    }
    assert_eq!(err.message(), "ligne 2: section inconnue : 'Foo'");
}

#[test]
fn error_key_outside_section() {
    match parse_err("Key = value\n") {
        ConfigError::UnknownSection { line, name } => {
            assert_eq!(line, 1);
            assert_eq!(name, "(racine)");
        }
        other => panic!("{other:?}"),
    }
}

#[test]
fn error_malformed_line() {
    let err = parse_err("[Interface]\n  garbage here  # comment\n");
    match &err {
        ConfigError::MalformedLine { line, raw } => {
            assert_eq!(*line, 2);
            assert_eq!(raw, "garbage here");
        }
        other => panic!("{other:?}"),
    }
    assert_eq!(err.message(), "ligne 2: clé/valeur attendues, trouvé : 'garbage here'");
}

#[test]
fn error_duplicate_interface() {
    match parse_err("[Interface]\n[ Interface ]\n") {
        ConfigError::DuplicateKey { line, key } => {
            assert_eq!(line, 2);
            assert_eq!(key, "[Interface] dupliquée");
        }
        other => panic!("{other:?}"),
    }
}

#[test]
fn error_duplicate_private_key() {
    let input = format!("[Interface]\nPrivateKey = {KEY_PRIV}\nprivateKEY = {KEY_PRIV}\n");
    let err = parse_err(&input);
    match &err {
        ConfigError::DuplicateKey { line, key } => {
            assert_eq!(*line, 3);
            assert_eq!(key, "privateKEY");
        }
        other => panic!("{other:?}"),
    }
    assert_eq!(err.message(), "ligne 3: clé 'privateKEY' présente plusieurs fois dans la même section");
}

#[test]
fn error_invalid_values() {
    let cases: Vec<(String, &str, &str)> = vec![
        (minimal("ListenPort = 70000\n", ""), "ListenPort", "port invalide : '70000'"),
        (minimal("MTU = -1\n", ""), "MTU", "MTU invalide : '-1'"),
        (minimal("Address = 10.0.0.1\n", ""), "Address", "invalid IP address syntax"),
        (minimal("", "PersistentKeepalive = x\n"), "PersistentKeepalive", "entier attendu : 'x'"),
        (minimal("", "Endpoint = nocolon\n"), "Endpoint", "format attendu : host:port"),
        (minimal("", "Endpoint = host:99999\n"), "Endpoint", "port invalide : '99999'"),
    ];
    for (input, key, detail) in cases {
        match parse_err(&input) {
            ConfigError::InvalidValue { key: k, detail: d, .. } => {
                assert_eq!(k, key);
                assert_eq!(d, detail);
            }
            other => panic!("{other:?}"),
        }
    }
}

#[test]
fn error_invalid_key_length() {
    let input = format!("[Interface]\nPrivateKey = AAAA\n[Peer]\nPublicKey = {KEY_PUB1}\n");
    let err = parse_err(&input);
    match &err {
        ConfigError::InvalidValue { line, key, detail } => {
            assert_eq!(*line, 2);
            assert_eq!(key, "PrivateKey");
            assert_eq!(detail, "attendu 32 octets, trouvé 3");
        }
        other => panic!("{other:?}"),
    }
    assert_eq!(err.message(), "ligne 2: valeur invalide pour 'PrivateKey' : attendu 32 octets, trouvé 3");
}

#[test]
fn error_invalid_base64() {
    let input = minimal("", "PresharedKey = !!!!\n");
    match parse_err(&input) {
        ConfigError::InvalidValue { key, detail, .. } => {
            assert_eq!(key, "PresharedKey");
            assert!(detail.starts_with("base64 invalide : "));
        }
        other => panic!("{other:?}"),
    }
}

#[test]
fn error_unknown_key_message() {
    let err = parse_err("[Interface]\nWeirdField = 42\n");
    assert_eq!(err.message(), "ligne 2: clé 'weirdfield' inattendue dans la section [Interface]");
}

#[test]
fn endpoint_ipv6_and_brackets() {
    let input = minimal("", "Endpoint = [2001:db8::1]:51820\n");
    let cfg = parse_ok(&input, "ok");
    match &cfg.peers[0].endpoint {
        Some(EndpointSpec::Resolved(SocketAddress::V6 { port, .. })) => assert_eq!(*port, 51820),
        other => panic!("{other:?}"),
    }
    let input = minimal("", "Endpoint = [vpn.example.com]:443\n");
    let cfg = parse_ok(&input, "ok");
    assert_eq!(
        cfg.peers[0].endpoint,
        Some(EndpointSpec::Hostname { host: "vpn.example.com".to_string(), port: 443 })
    );
}

#[test]
fn port_with_plus_sign_and_leading_zeros() {
    let input = minimal("ListenPort = +0080\nMTU = 65535\n", "");
    let cfg = parse_ok(&input, "ok");
    assert_eq!(cfg.interface.listen_port, Some(80));
    assert_eq!(cfg.interface.mtu, Some(65535));
}

#[test]
fn empty_input_has_no_interface() {
    assert!(matches!(parse_err(""), ConfigError::MissingInterface));
    assert!(matches!(parse_err("\n\n# only comments\n"), ConfigError::MissingInterface));
}
