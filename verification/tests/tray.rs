use draytek_vpn::nm_tray::{
    connected_state, gateway_text, initial_vpn_state, is_draytek_service, on_state_change, plain_state_change,
    poll_stats, route_texts, saved_vpn_name, state_change, tray_description, tray_icon, tray_menu, watch_ends,
    StateChange, TrafficTexts, TrayAction, TrayEntry, TrayIcon, VpnState, VPN_STATE_ACTIVATED, VPN_STATE_CONNECT,
    VPN_STATE_DISCONNECTED, VPN_STATE_FAILED, VPN_STATE_UNKNOWN,
};

fn labels(menu: &[TrayEntry]) -> Vec<(String, TrayAction)> {
    menu.iter()
        .map(|e| match e {
            TrayEntry::Separator => ("--".to_string(), TrayAction::NoAction),
            TrayEntry::Item { label, action } => (label.clone(), *action),
        })
        .collect()
}

fn item(s: &str) -> (String, TrayAction) {
    (s.to_string(), TrayAction::NoAction)
}

fn sep() -> (String, TrayAction) {
    ("--".to_string(), TrayAction::NoAction)
}

#[test]
fn nm_state_codes() {
    assert_eq!(initial_vpn_state(2), VPN_STATE_ACTIVATED);
    assert_eq!(initial_vpn_state(1), VPN_STATE_CONNECT);
    assert_eq!(initial_vpn_state(3), VPN_STATE_DISCONNECTED);
    assert_eq!(initial_vpn_state(4), VPN_STATE_DISCONNECTED);
    assert_eq!(initial_vpn_state(0), VPN_STATE_UNKNOWN);
    assert_eq!(initial_vpn_state(9), VPN_STATE_UNKNOWN);
    for code in 1..=4 {
        assert_eq!(state_change(code), Some(StateChange::Connecting));
    }
    assert_eq!(state_change(5), Some(StateChange::Activated));
    for code in [0, 6, 7] {
        assert_eq!(state_change(code), Some(StateChange::Down));
    }
    assert_eq!(state_change(8), None);
    assert!(watch_ends(VPN_STATE_DISCONNECTED));
    assert!(watch_ends(VPN_STATE_FAILED));
    assert!(!watch_ends(VPN_STATE_ACTIVATED));
    assert!(matches!(plain_state_change(3, "Office"), Some(VpnState::Connecting { name }) if name == "Office"));
    assert!(matches!(plain_state_change(7, "Office"), Some(VpnState::Disconnected)));
    assert!(plain_state_change(5, "Office").is_none());
    assert!(plain_state_change(42, "Office").is_none());
}

#[test]
fn nm_connection_details() {
    assert!(is_draytek_service("org.freedesktop.NetworkManager.draytek"));
    assert!(!is_draytek_service("org.freedesktop.NetworkManager.openvpn"));
    assert_eq!(saved_vpn_name(Some("Office")), "Office");
    assert_eq!(saved_vpn_name(None), "DrayTek VPN");
    assert_eq!(gateway_text("vpn.example.com", Some("8443")), "vpn.example.com:8443");
    assert_eq!(gateway_text("vpn.example.com", None), "vpn.example.com:443");
    let entries = vec![
        (Some("10.0.0.0".to_string()), Some(8)),
        (None, Some(24)),
        (Some("192.168.5.0".to_string()), None),
        (Some("172.16.0.0".to_string()), Some(12)),
    ];
    assert_eq!(route_texts(&entries), Some(vec!["10.0.0.0/8".to_string(), "172.16.0.0/12".to_string()]));
    assert_eq!(route_texts(&[(None, Some(8))]), None);
    assert_eq!(route_texts(&[]), None);
    match connected_state("Office", Some("10.1.1.2".to_string()), None, None, None) {
        VpnState::Connected { name, ip, gateway, routes, connected_at } => {
            assert_eq!(name, "Office");
            assert_eq!(ip, "10.1.1.2");
            assert_eq!(gateway, "");
            assert!(routes.is_empty());
            assert_eq!(connected_at, 0);
        }
        _ => panic!("expected a connected state"),
    }
}

fn office() -> VpnState {
    VpnState::Connected {
        name: "Office".to_string(),
        ip: "10.1.1.2".to_string(),
        gateway: "vpn.example.com:443".to_string(),
        routes: vec!["192.168.1.0/24".to_string()],
        connected_at: 0,
    }
}

#[test]
fn tray_connection_time() {
    let s = on_state_change(None, &office(), 1_700_000_000);
    assert_eq!(s.connected_at, Some(1_700_000_000));
    assert!(s.read_stats && !s.refresh_saved);
    let s2 = on_state_change(Some(5), &office(), 1_700_000_000);
    assert_eq!(s2.connected_at, Some(5));
    let mut with_time = office();
    if let VpnState::Connected { connected_at, .. } = &mut with_time {
        *connected_at = 1234;
    }
    assert_eq!(on_state_change(None, &with_time, 99).connected_at, Some(1234));
    let d = on_state_change(Some(5), &VpnState::Disconnected, 99);
    assert_eq!(d.connected_at, None);
    assert!(d.refresh_saved && !d.read_stats);
    let c = on_state_change(Some(5), &VpnState::Disconnecting, 99);
    assert_eq!(c.connected_at, Some(5));
    assert!(!c.refresh_saved && !c.read_stats);
    assert!(poll_stats(Some(1)));
    assert!(!poll_stats(None));
}

#[test]
fn tray_tooltip_and_icon() {
    assert_eq!(tray_description(&VpnState::Disconnected), "Disconnected");
    assert_eq!(tray_description(&VpnState::Connecting { name: "Office".to_string() }), "Connecting: Office");
    assert_eq!(tray_description(&office()), "Connected: Office (10.1.1.2)");
    assert_eq!(tray_description(&VpnState::Disconnecting), "Disconnecting...");
    assert_eq!(tray_icon(&VpnState::Disconnected), TrayIcon::Disconnected);
    assert_eq!(tray_icon(&VpnState::Disconnecting), TrayIcon::Connecting);
    assert_eq!(tray_icon(&VpnState::Connecting { name: String::new() }), TrayIcon::Connecting);
    assert_eq!(tray_icon(&office()), TrayIcon::Connected);
    assert!(matches!(VpnState::default(), VpnState::Disconnected));
}

#[test]
fn tray_menus() {
    let saved = vec!["Office".to_string(), "Home".to_string()];
    let m = tray_menu(&VpnState::Disconnected, &saved, None, None);
    assert_eq!(
        labels(&m),
        vec![
            item("Disconnected"),
            sep(),
            ("Connect: Office".to_string(), TrayAction::Connect(0)),
            ("Connect: Home".to_string(), TrayAction::Connect(1)),
            sep(),
            ("Network Connections...".to_string(), TrayAction::OpenConnectionEditor),
            ("Network Settings...".to_string(), TrayAction::OpenNetworkSettings),
        ]
    );
    let m = tray_menu(&VpnState::Disconnected, &[], None, None);
    assert_eq!(labels(&m)[2], item("No saved VPN connections"));
    assert_eq!(labels(&tray_menu(&VpnState::Connecting { name: "Office".to_string() }, &saved, None, None)), vec![item("Connecting: Office...")]);
    assert_eq!(labels(&tray_menu(&VpnState::Disconnecting, &saved, None, None)), vec![item("Disconnecting...")]);
    let traffic = TrafficTexts {
        tx_bytes: "1.5 KB".to_string(),
        tx_packets: "12".to_string(),
        rx_bytes: "3.0 MB".to_string(),
        rx_packets: "2048".to_string(),
    };
    let m = tray_menu(&office(), &saved, Some("00:05:00"), Some(&traffic));
    assert_eq!(
        labels(&m),
        vec![
            item("Connected: Office"),
            item("IP: 10.1.1.2"),
            item("Time: 00:05:00"),
            sep(),
            item("Route: 192.168.1.0/24"),
            sep(),
            item("TX: 1.5 KB (12 pkts)"),
            item("RX: 3.0 MB (2048 pkts)"),
            sep(),
            ("Disconnect".to_string(), TrayAction::Disconnect),
        ]
    );
    let plain = VpnState::Connected {
        name: "Office".to_string(),
        ip: "10.1.1.2".to_string(),
        gateway: String::new(),
        routes: vec![],
        connected_at: 0,
    };
    let m = tray_menu(&plain, &saved, None, None);
    assert_eq!(
        labels(&m),
        vec![
            item("Connected: Office"),
            item("IP: 10.1.1.2"),
            sep(),
            item("TX: --"),
            item("RX: --"),
            sep(),
            ("Disconnect".to_string(), TrayAction::Disconnect),
        ]
    );
}
