use draytek_vpn::addr::{ipv4_to_string, parse_ip, parse_ipv4, Ipv4};
use draytek_vpn::config::{clear_migrated, default_port, default_true, delete_password, passwords_to_migrate, AppConfig, ProfileConfig};
use draytek_vpn::connection::{
    check_connect_reply, connect_request, first_line, parse_http_status, response_state, status_from_capture,
    HttpError, ResponseRead,
};
use draytek_vpn::constants::KEEPALIVE_MAX_MISSED;
use draytek_vpn::engine_common::{build_icmp_echo, internet_checksum};
use draytek_vpn::keepalive::KeepaliveTracker;
use draytek_vpn::logging::{LogBuffer, LogBufferWriter};
use draytek_vpn::messages::{parse_stat, TunnelStatus};
use draytek_vpn::status_view::{address_texts, elapsed_text, packet_texts, routes_text, routing_text, status_texts};
use draytek_vpn::routing::{nm_address, parse_cidr, parse_route, remote_network_route};
use draytek_vpn::types::{need_secrets, parse_settings, route_list, ConnectionProfile, SettingsError, VpnSettings};

#[test]
fn test_parse_http_status() {
    assert_eq!(parse_http_status("HTTP/1.0 200 OK").unwrap(), 200);
    assert_eq!(parse_http_status("HTTP/1.1 403 Forbidden").unwrap(), 403);
    assert_eq!(parse_http_status("HTTP/1.0 500 Internal Server Error").unwrap(), 500);
    assert!(parse_http_status("garbage").is_err());
}

#[test]
fn test_new_tracker_not_dead() {
    let tracker = KeepaliveTracker::new();
    assert!(!tracker.is_dead());
}

#[test]
fn test_reply_resets_count() {
    let mut tracker = KeepaliveTracker::new();
    tracker.no_reply_count = 3;
    tracker.received_reply();
    assert_eq!(tracker.no_reply_count, 0);
    assert!(!tracker.is_dead());
}

#[test]
fn test_dead_after_max_missed() {
    let mut tracker = KeepaliveTracker::new();
    tracker.no_reply_count = KEEPALIVE_MAX_MISSED + 1;
    assert!(tracker.is_dead());
}

#[test]
fn test_parse_ip() {
    assert_eq!(parse_ip(&[10, 0, 0, 1]), Some(Ipv4::new(10, 0, 0, 1)));
    assert_eq!(parse_ip(&[192, 168, 1, 1]), Some(Ipv4::new(192, 168, 1, 1)));
    assert_eq!(parse_ip(&[0, 0, 0, 0]), Some(Ipv4::new(0, 0, 0, 0)));
    assert_eq!(parse_ip(&[1, 2]), None);
}

#[test]
fn test_parse_cidr() {
    let (ip, prefix) = parse_cidr("10.0.0.0/8").unwrap();
    assert_eq!(ip, "10.0.0.0");
    assert_eq!(prefix, 8);

    let (ip, prefix) = parse_cidr("192.168.1.0/24").unwrap();
    assert_eq!(ip, "192.168.1.0");
    assert_eq!(prefix, 24);

    assert!(parse_cidr("invalid").is_err());
    assert!(parse_cidr("10.0.0.0/abc").is_err());
}

#[test]
fn test_profile_to_connection_profile() {
    let cfg = ProfileConfig {
        name: "Test".to_string(),
        server: "test.com".to_string(),
        port: 8443,
        username: "user".to_string(),
        password: String::new(),
        accept_self_signed: false,
        default_gateway: true,
        route_remote_network: true,
        routes: vec![],
        keepalive: false,
        mru: 1400,
    };
    let profile: ConnectionProfile = cfg.into_profile();
    assert_eq!(profile.name, "Test");
    assert_eq!(profile.port, 8443);
    assert!(!profile.accept_self_signed);
    assert!(profile.default_gateway);
}

// A keyring password wins over the one in the file; without one the file's stays.
#[test]
fn profile_password_from_keyring_or_file() {
    let mk = || ProfileConfig {
        name: "P".to_string(),
        server: "s".to_string(),
        port: 443,
        username: "u".to_string(),
        password: "legacy".to_string(),
        accept_self_signed: true,
        default_gateway: false,
        route_remote_network: true,
        routes: vec!["10.0.0.0/8".to_string()],
        keepalive: true,
        mru: 0,
    };
    assert_eq!(mk().with_password(Some("kept".to_string())).password, "kept");
    let p = mk().with_password(None);
    assert_eq!(p.password, "legacy");
    assert_eq!(p.routes, vec!["10.0.0.0/8".to_string()]);
    assert!(!p.auto_reconnect);
    let back = ProfileConfig::from_profile(&p);
    assert_eq!(back.password, "");
    assert_eq!(back.name, "P");
    assert_eq!(back.routes, vec!["10.0.0.0/8".to_string()]);
}

#[test]
fn config_defaults() {
    assert_eq!(default_port(), 443);
    assert!(default_true());
    let c = AppConfig::default();
    assert!(c.profiles.is_empty());
    assert_eq!(c.last_selected, None);
    let p = ConnectionProfile::default();
    assert_eq!(p.port, 443);
    assert!(p.accept_self_signed);
    assert!(p.route_remote_network);
    assert!(!p.default_gateway);
    assert_eq!(p.mru, 0);
}

fn pairs(v: &[(&str, &str)]) -> Vec<(String, String)> {
    v.iter().map(|(k, x)| (k.to_string(), x.to_string())).collect()
}

#[test]
fn nm_settings_fill_a_profile() {
    let vpn = VpnSettings {
        data: pairs(&[
            ("gateway", "vpn.example.com"),
            ("username", "alice"),
            ("port", "8443"),
            ("verify-cert", "yes"),
            ("never-default", "no"),
            ("route-remote-network", "no"),
            ("keepalive", "yes"),
            ("auto-reconnect", "yes"),
            ("mru", "1400"),
            ("routes", " 10.0.0.0/8, ,172.16.0.0/12 ,"),
        ]),
        secrets: pairs(&[("password", "s3cret")]),
    };
    let p = parse_settings(Some(&vpn)).unwrap();
    assert_eq!(p.name, "NM Connection");
    assert_eq!(p.server, "vpn.example.com");
    assert_eq!(p.username, "alice");
    assert_eq!(p.password, "s3cret");
    assert_eq!(p.port, 8443);
    assert!(!p.accept_self_signed);
    assert!(p.default_gateway);
    assert!(!p.route_remote_network);
    assert!(p.keepalive);
    assert!(p.auto_reconnect);
    assert_eq!(p.mru, 1400);
    assert_eq!(p.routes, vec!["10.0.0.0/8".to_string(), "172.16.0.0/12".to_string()]);
}

#[test]
fn nm_settings_defaults_and_errors() {
    let vpn = VpnSettings { data: pairs(&[("gateway", "gw"), ("username", "bob"), ("port", "x")]), secrets: vec![] };
    let p = parse_settings(Some(&vpn)).unwrap();
    assert_eq!(p.port, 443);
    assert_eq!(p.password, "");
    assert!(p.accept_self_signed);
    assert!(!p.default_gateway);
    assert!(p.route_remote_network);
    assert!(!p.auto_reconnect);
    assert!(p.routes.is_empty());
    assert_eq!(parse_settings(None).unwrap_err(), SettingsError::MissingVpn);
    let no_gw = VpnSettings { data: pairs(&[("username", "bob")]), secrets: vec![] };
    assert_eq!(parse_settings(Some(&no_gw)).unwrap_err(), SettingsError::MissingGateway);
    let no_user = VpnSettings { data: pairs(&[("gateway", "gw")]), secrets: vec![] };
    assert_eq!(parse_settings(Some(&no_user)).unwrap_err(), SettingsError::MissingUsername);
}

#[test]
fn nm_need_secrets() {
    let with = VpnSettings { data: vec![], secrets: pairs(&[("password", "x")]) };
    let without = VpnSettings { data: vec![], secrets: vec![] };
    assert_eq!(need_secrets(Some(&with)), "");
    assert_eq!(need_secrets(Some(&without)), "vpn");
    assert_eq!(need_secrets(None), "vpn");
}

#[test]
fn connect_request_text() {
    let req = connect_request("vpn.example.com", "user", "pass");
    assert_eq!(
        req,
        "CONNECT / HTTP/1.0\r\nHost:vpn.example.com\r\nAgent: SmartVPN Mobile\r\nAuthorization: Basic dXNlcjpwYXNz\r\n\r\n"
    );
}

#[test]
fn connect_reply_checks() {
    assert_eq!(response_state(b"HTTP/1.0 200 OK\r\n"), ResponseRead::Incomplete);
    assert_eq!(response_state(b"HTTP/1.0 200 OK\r\n\r\n"), ResponseRead::Complete);
    assert_eq!(response_state(&vec![b'a'; 4097]), ResponseRead::TooLarge);
    assert_eq!(check_connect_reply(b"HTTP/1.0 200 OK\r\n\r\n"), Ok(()));
    assert_eq!(check_connect_reply(b"HTTP/1.1 403 Forbidden\r\n\r\n"), Err(HttpError::Refused(403)));
    assert_eq!(check_connect_reply(b"nonsense\r\n\r\n"), Err(HttpError::NoStatusLine));
    assert_eq!(check_connect_reply(b"HTTP/1.0 99999 Big\r\n\r\n"), Err(HttpError::InvalidStatus));
    assert_eq!(first_line("a\r\nb"), "a");
    assert_eq!(first_line("abc"), "abc");
    assert_eq!(status_from_capture(Some("204")), Ok(204));
    assert_eq!(status_from_capture(None), Err(HttpError::NoStatusLine));
}

#[test]
fn addresses_and_routes() {
    assert_eq!(parse_ipv4("192.168.1.1"), Some(Ipv4::new(192, 168, 1, 1)));
    assert_eq!(parse_ipv4("192.168.01.1"), None);
    assert_eq!(parse_ipv4("256.0.0.1"), None);
    assert_eq!(ipv4_to_string(Ipv4::new(10, 0, 200, 7)), "10.0.200.7");
    assert_eq!(parse_ipv4(&ipv4_to_string(Ipv4::new(1, 22, 255, 0))), Some(Ipv4::new(1, 22, 255, 0)));
    assert_eq!(parse_route("192.168.1.0/24"), Some((Ipv4::new(192, 168, 1, 0), 24)));
    assert_eq!(parse_route("192.168.1.0/33"), None);
    assert_eq!(remote_network_route(Ipv4::new(172, 16, 5, 9)), "172.16.5.0/24");
    assert_eq!(nm_address(Ipv4::new(10, 0, 0, 1)), 0x0100000A);
}

#[test]
fn icmp_echo_checksum_is_valid() {
    assert_eq!(internet_checksum(&[0x00, 0x01, 0xF2, 0x03, 0xF4, 0xF5, 0xF6, 0xF7]), 0x220D);
    let pkt = build_icmp_echo(Ipv4::new(10, 0, 0, 2), Ipv4::new(10, 0, 0, 1), 7);
    assert_eq!(internet_checksum(&pkt[..20]), 0);
    assert_eq!(internet_checksum(&pkt[20..]), 0);
    assert_eq!(&pkt[12..16], &[10, 0, 0, 2]);
    assert_eq!(&pkt[16..20], &[10, 0, 0, 1]);
}

#[test]
fn log_buffer_keeps_the_newest_lines() {
    let mut buf = LogBuffer::new(2);
    buf.push("a".to_string());
    buf.push("b".to_string());
    buf.push("c".to_string());
    assert_eq!(buf.get_lines(), vec!["b".to_string(), "c".to_string()]);
    assert_eq!(buf.get_text(), "b\nc");
    buf.clear();
    assert!(buf.get_lines().is_empty());
    assert_eq!(buf.get_text(), "");
}

#[test]
fn log_writer_cuts_lines() {
    let mut buf = LogBuffer::new(10);
    let mut w = LogBufferWriter::new();
    assert_eq!(w.write(&mut buf, b"one\ntw"), 6);
    assert_eq!(buf.get_lines(), vec!["one".to_string()]);
    w.write(&mut buf, b"o\n\xFFx");
    assert_eq!(buf.get_lines(), vec!["one".to_string(), "two".to_string()]);
    w.flush(&mut buf);
    assert_eq!(buf.get_lines(), vec!["one".to_string(), "two".to_string(), "\u{FFFD}x".to_string()]);
    w.flush(&mut buf);
    assert_eq!(buf.get_lines().len(), 3);
}

#[test]
fn sysfs_counters() {
    assert_eq!(parse_stat("12345\n"), Some(12345));
    assert_eq!(parse_stat("  7 "), Some(7));
    assert_eq!(parse_stat("x"), None);
    assert_eq!(parse_stat(""), None);
}

#[test]
fn nm_route_list() {
    let routes = vec!["10.0.0.0/8".to_string(), "bad".to_string(), "192.168.1.0/24".to_string()];
    let r = draytek_vpn::routing::nm_routes(&routes);
    assert_eq!(r, vec![vec![0x0000000A, 8, 0, 0], vec![0x0001A8C0, 24, 0, 0]]);
}

#[test]
fn option_data_update() {
    let mut o = draytek_vpn::ppp_control::PppControlOption::new(1, vec![0x05, 0x00]);
    o.update_data(vec![0x05, 0xDC]);
    assert_eq!(o.to_bytes(), vec![0x01, 0x04, 0x05, 0xDC]);
}

#[test]
fn routes_and_nm_settings() {
    let extra = vec!["10.0.0.0/8".to_string()];
    let r = draytek_vpn::routing::tunnel_routes(Ipv4::new(192, 168, 7, 1), true, &extra);
    assert_eq!(r, vec!["192.168.7.0/24".to_string(), "10.0.0.0/8".to_string()]);
    let r = draytek_vpn::routing::tunnel_routes(Ipv4::new(192, 168, 7, 1), false, &extra);
    assert_eq!(r, extra);
    let c = draytek_vpn::routing::nm_ip4_config(
        Ipv4::new(10, 0, 0, 2),
        Ipv4::new(10, 0, 0, 1),
        Some(Ipv4::new(8, 8, 8, 8)),
        false,
        &extra,
    );
    assert_eq!(c.address, 0x0200000A);
    assert_eq!(c.prefix, 32);
    assert_eq!(c.gateway, 0x0100000A);
    assert_eq!(c.dns, Some(0x08080808));
    assert!(c.never_default);
    assert_eq!(c.routes, vec![vec![0x0000000A, 8, 0, 0]]);
}

#[test]
fn status_view_texts() {
    assert_eq!(
        status_texts(&TunnelStatus::Connecting),
        Some(("Connecting...".to_string(), "Establishing TLS connection".to_string()))
    );
    assert_eq!(status_texts(&TunnelStatus::Error("boom".to_string())), Some(("Error".to_string(), "boom".to_string())));
    assert_eq!(
        status_texts(&TunnelStatus::Stats {
            bytes_tx: 0,
            bytes_rx: 0,
            packets_tx: 0,
            packets_rx: 0,
            oversized_tx: 0,
            oversized_rx: 0,
            max_packet_tx: 0,
            max_packet_rx: 0
        }),
        None
    );
    assert_eq!(routing_text(true, Some("10.1.1.0/24"), &[]), "Routing: All traffic (default gateway)");
    assert_eq!(routing_text(false, None, &[]), "Routing: None (no traffic routed through tunnel)");
    assert_eq!(
        routing_text(false, Some("10.1.1.0/24"), &["172.16.0.0/12".to_string(), "10.0.0.0/8".to_string()]),
        "Routing: Remote network (10.1.1.0/24), 172.16.0.0/12, 10.0.0.0/8"
    );
    assert_eq!(
        address_texts(Ipv4::new(10, 0, 0, 2), Ipv4::new(10, 0, 0, 1), None, 1280, 1400, 1280),
        vec![
            "IP: 10.0.0.2".to_string(),
            "Gateway: 10.0.0.1".to_string(),
            "DNS: none".to_string(),
            "MTU: 1280  (ours: 1400 / router: 1280)".to_string()
        ]
    );
    assert_eq!(elapsed_text(3723), "01:02:03");
    assert_eq!(elapsed_text(360000), "100:00:00");
    assert_eq!(packet_texts(1, 2, 1500, 1400), ("Oversized: 1 TX / 2 RX".to_string(), "Max pkt: 1500 TX / 1400 RX".to_string()));
}

// How the byte stream is cut into writes does not change the lines.
#[test]
fn log_writer_pieces_equal_whole() {
    let bytes = b"first line\nsecond\nthird part";
    let mut whole = LogBuffer::new(5);
    let mut w1 = LogBufferWriter::new();
    w1.write(&mut whole, bytes);
    let mut pieces = LogBuffer::new(5);
    let mut w2 = LogBufferWriter::new();
    for chunk in bytes.chunks(3) {
        w2.write(&mut pieces, chunk);
    }
    assert_eq!(whole.get_lines(), pieces.get_lines());
    w1.flush(&mut whole);
    w2.flush(&mut pieces);
    assert_eq!(whole.get_lines(), pieces.get_lines());
    assert_eq!(whole.get_text(), "first line\nsecond\nthird part");
}

#[test]
fn profile_editor_routes_field() {
    let routes = vec!["10.0.0.0/8".to_string(), "192.168.1.0/24".to_string()];
    let text = routes_text(&routes);
    assert_eq!(text, "10.0.0.0/8, 192.168.1.0/24");
    assert_eq!(route_list(&text), routes);
    assert_eq!(routes_text(&[]), "");
    assert!(route_list(&routes_text(&[])).is_empty());
    assert_eq!(route_list(" 10.1.0.0/16 ,, ,172.16.0.0/12 "), vec!["10.1.0.0/16", "172.16.0.0/12"]);
}

fn saved(name: &str) -> ProfileConfig {
    ProfileConfig {
        name: name.to_string(),
        server: "vpn.example.com".to_string(),
        port: 443,
        username: "u".to_string(),
        password: String::new(),
        accept_self_signed: true,
        default_gateway: false,
        route_remote_network: true,
        routes: vec![],
        keepalive: false,
        mru: 0,
    }
}

#[test]
fn profile_list_add_edit_delete() {
    let mut c = AppConfig::default();
    assert_eq!(c.selected_index(), None);
    let _ = c.add_profile(saved("dv-test-a"));
    let _ = c.add_profile(saved("dv-test-b"));
    assert_eq!(c.profile_names(), vec!["dv-test-a".to_string(), "dv-test-b".to_string()]);
    assert_eq!(c.selected_index(), Some(1));
    c.select_profile(7);
    assert_eq!(c.last_selected, Some(7));
    assert_eq!(c.selected_index(), None);
    let _ = c.update_profile(0, "dv-test-a", saved("dv-test-c"));
    assert_eq!(c.profile_names(), vec!["dv-test-c".to_string(), "dv-test-b".to_string()]);
    assert_eq!(c.last_selected, Some(7));
    let _ = c.update_profile(5, "dv-test-b", saved("dv-test-d"));
    assert_eq!(c.profile_names(), vec!["dv-test-c".to_string(), "dv-test-b".to_string()]);
    c.delete_profile(9, "dv-test-x");
    assert_eq!(c.profiles.len(), 2);
    assert_eq!(c.last_selected, Some(7));
    c.delete_profile(1, "dv-test-b");
    assert_eq!(c.profile_names(), vec!["dv-test-c".to_string()]);
    assert_eq!(c.selected_index(), Some(0));
    c.delete_profile(0, "dv-test-c");
    assert!(c.profiles.is_empty());
    assert_eq!(c.last_selected, None);
    delete_password("dv-test-d");
}

#[test]
fn password_migration_pieces() {
    let mut a = saved("dv-mig-a");
    a.password = "secret-a".to_string();
    let b = saved("dv-mig-b");
    let mut c = saved("dv-mig-c");
    c.password = "secret-c".to_string();
    let mut cfg = AppConfig { profiles: vec![a, b, c], last_selected: Some(2) };
    assert_eq!(
        passwords_to_migrate(&cfg),
        vec![
            ("dv-mig-a".to_string(), "secret-a".to_string()),
            ("dv-mig-c".to_string(), "secret-c".to_string()),
        ]
    );
    // The keyring refused the first and took the last.
    assert!(clear_migrated(&mut cfg, &[false, true, true]));
    assert_eq!(cfg.profiles[0].password, "secret-a");
    assert_eq!(cfg.profiles[1].password, "");
    assert_eq!(cfg.profiles[2].password, "");
    assert_eq!(cfg.profiles[2].name, "dv-mig-c");
    assert_eq!(cfg.last_selected, Some(2));
    assert_eq!(passwords_to_migrate(&cfg), vec![("dv-mig-a".to_string(), "secret-a".to_string())]);
    // Nothing taken: nothing changes.
    assert!(!clear_migrated(&mut cfg, &[false, false, false]));
    assert_eq!(cfg.profiles[0].password, "secret-a");
}
