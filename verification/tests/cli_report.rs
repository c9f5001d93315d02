use ghostwire::cli::inspect_report;
use ghostwire::config::parser::ConfigError;

const KEY_PRIV: &str = "AAAAAAAAAAAAAAAAAAAAAAAAAAAAAAAAAAAAAAAAAAA=";
const KEY_PUB1: &str = "AQIDBAAAAAAAAAAAAAAAAAAAAAAAAAAAAAAAAAAAAAA=";
const KEY_PUB2: &str = "qrvM3QAAAAAAAAAAAAAAAAAAAAAAAAAAAAAAAAAAAAA=";
const KEY_PSK: &str = "BAAAAAAAAAAAAAAAAAAAAAAAAAAAAAAAAAAAAAAAAAA=";

#[test]
fn inspect_report_full() {
    let text = format!(
        "[Interface]\nPrivateKey = {KEY_PRIV}\nAddress = 10.0.0.2/32, fd00::2/128\nDNS = 1.1.1.1, ::1\n\
         ListenPort = 51820\nMTU = 1420\n\n\
         [Peer]\nPublicKey = {KEY_PUB1}\nPresharedKey = {KEY_PSK}\nAllowedIPs = 0.0.0.0/0, ::/0\n\
         Endpoint = vpn.example.com:51820\nPersistentKeepalive = 25\n\n\
         [Peer]\nPublicKey = {KEY_PUB2}\nAllowedIPs = 192.168.1.0/24\nEndpoint = [2001:db8::1]:443\n"
    );
    let lines = match inspect_report(&text) {
        Ok(l) => l,
        Err(e) => panic!("{e:?}"),
    };
    let expected = vec![
        format!("✓ Config valide ({} octets en RAM, parsée).", text.len()),
        String::new(),
        "[Interface]".to_string(),
        "  PrivateKey  : <32 octets, scellés>".to_string(),
        "  Address     : 10.0.0.2/32, fd00::2/128".to_string(),
        "  ListenPort  : 51820".to_string(),
        "  MTU         : 1420".to_string(),
        "  DNS         : 1.1.1.1, ::1".to_string(),
        String::new(),
        "[Peer #1]".to_string(),
        "  PublicKey   : 01020304…  (fingerprint)".to_string(),
        "  AllowedIPs  : 0.0.0.0/0, ::/0".to_string(),
        "  Endpoint    : vpn.example.com:51820 (DNS à résoudre)".to_string(),
        "  Keepalive   : 25s".to_string(),
        "  PSK         : <présente, scellée>".to_string(),
        String::new(),
        "[Peer #2]".to_string(),
        "  PublicKey   : aabbccdd…  (fingerprint)".to_string(),
        "  AllowedIPs  : 192.168.1.0/24".to_string(),
        "  Endpoint    : [2001:db8::1]:443 (résolu)".to_string(),
    ];
    assert_eq!(lines, expected);
    assert!(!lines.iter().any(|l| l.contains(KEY_PRIV) || l.contains(KEY_PSK)));
}

#[test]
fn inspect_report_minimal() {
    let text = format!("[Interface]\nPrivateKey = {KEY_PRIV}\n[Peer]\nPublicKey = {KEY_PUB1}\n");
    let lines = match inspect_report(&text) {
        Ok(l) => l,
        Err(e) => panic!("{e:?}"),
    };
    assert_eq!(
        lines,
        vec![
            format!("✓ Config valide ({} octets en RAM, parsée).", text.len()),
            String::new(),
            "[Interface]".to_string(),
            "  PrivateKey  : <32 octets, scellés>".to_string(),
            "  Address     : ".to_string(),
            String::new(),
            "[Peer #1]".to_string(),
            "  PublicKey   : 01020304…  (fingerprint)".to_string(),
            "  AllowedIPs  : ".to_string(),
        ]
    );
}

#[test]
fn inspect_report_parse_error() {
    assert!(matches!(inspect_report(""), Err(ConfigError::MissingInterface)));
    let text = format!("[Interface]\nPrivateKey = {KEY_PRIV}\n");
    assert!(matches!(inspect_report(&text), Err(ConfigError::NoPeers)));
}

#[test]
fn inspect_report_secrets_do_not_change_it() {
    let a = format!("[Interface]\nPrivateKey = {KEY_PRIV}\n[Peer]\nPublicKey = {KEY_PUB1}\nPresharedKey = {KEY_PSK}\n");
    let b = format!("[Interface]\nPrivateKey = {KEY_PSK}\n[Peer]\nPublicKey = {KEY_PUB1}\nPresharedKey = {KEY_PRIV}\n");
    let (ra, rb) = match (inspect_report(&a), inspect_report(&b)) {
        (Ok(x), Ok(y)) => (x, y),
        _ => panic!("parse failed"),
    };
    assert_eq!(ra, rb);
}

#[test]
fn redacted_descriptions() {
    let text = format!(
        "[Interface]\nPrivateKey = {KEY_PRIV}\nAddress = 10.0.0.2/32\nDNS = 1.1.1.1, ::1\nMTU = 1420\n\
         [Peer]\nPublicKey = {KEY_PUB1}\nPresharedKey = {KEY_PSK}\nAllowedIPs = 0.0.0.0/0, ::/0\n\
         Endpoint = vpn.example.com:51820\nPersistentKeepalive = 25\n\
         [Peer]\nPublicKey = {KEY_PUB2}\nEndpoint = 203.0.113.7:51820\n"
    );
    let cfg = match ghostwire::config::parser::parse(&text) {
        Ok(c) => c,
        Err(e) => panic!("{e:?}"),
    };
    assert_eq!(
        cfg.interface.redacted(),
        "InterfaceConfig { private_key: \"<redacted>\", addresses: [10.0.0.2/32], listen_port: None, mtu: Some(1420), dns: [1.1.1.1, ::1] }"
    );
    let mut pk1 = String::from("0102030400");
    pk1.push_str(&"0".repeat(54));
    assert_eq!(
        cfg.peers[0].redacted(),
        format!("PeerConfig {{ public_key: \"{pk1}\", preshared_key: Some(\"<redacted>\"), allowed_ips: [0.0.0.0/0, ::/0], endpoint: Some(Hostname {{ host: \"vpn.example.com\", port: 51820 }}), persistent_keepalive: Some(25) }}")
    );
    let d = cfg.peers[1].redacted();
    assert!(d.contains("preshared_key: None, allowed_ips: [], endpoint: Some(Resolved(203.0.113.7:51820)), persistent_keepalive: None }"));
    assert!(!d.contains(KEY_PSK) && !cfg.interface.redacted().contains(KEY_PRIV));
}
