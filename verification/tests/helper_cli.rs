use draytek_vpn::addr::Ipv4;
use draytek_vpn::helper::{
    net_admin_in_status, parse_setup_args, parse_teardown_args, plan_setup, plan_teardown, resolv_conf_with_nameserver,
    resolvectl_revert_command, resolvectl_setup_commands, tuntap_del_command, validate_cidr, validate_device_name,
    validate_mtu, HelperError, SetupFlag,
};
use draytek_vpn::privilege::{device_sysfs_path, setup_helper_args, teardown_helper_args, TUN_DEVICE_NAME};

fn strings(v: &[&str]) -> Vec<String> {
    v.iter().map(|s| s.to_string()).collect()
}

#[test]
fn setup_args_read_back() {
    let routes = strings(&["10.0.0.0/8", "172.16.0.0/12"]);
    let args = setup_helper_args(
        "/usr/lib/draytek-vpn/draytek-vpn-helper",
        TUN_DEVICE_NAME,
        1000,
        Ipv4::new(10, 0, 0, 2),
        Ipv4::new(10, 0, 0, 1),
        1400,
        &routes,
        Some(Ipv4::new(10, 0, 0, 1)),
        Some(Ipv4::new(8, 8, 8, 8)),
    );
    assert_eq!(
        args,
        strings(&[
            "/usr/lib/draytek-vpn/draytek-vpn-helper",
            "setup",
            "--device",
            "draytek0",
            "--uid",
            "1000",
            "--local-ip",
            "10.0.0.2",
            "--peer-ip",
            "10.0.0.1",
            "--mtu",
            "1400",
            "--route",
            "10.0.0.0/8",
            "--route",
            "172.16.0.0/12",
            "--default-gw",
            "10.0.0.1",
            "--dns",
            "8.8.8.8",
        ])
    );
    let parsed = parse_setup_args(&args[2..]).unwrap();
    assert_eq!(parsed.device, "draytek0");
    assert_eq!(parsed.uid, 1000);
    assert_eq!(parsed.local_ip, Ipv4::new(10, 0, 0, 2));
    assert_eq!(parsed.peer_ip, Ipv4::new(10, 0, 0, 1));
    assert_eq!(parsed.mtu, 1400);
    assert_eq!(parsed.routes, routes);
    assert_eq!(parsed.default_gw, Some(Ipv4::new(10, 0, 0, 1)));
    assert_eq!(parsed.dns, Some(Ipv4::new(8, 8, 8, 8)));
}

#[test]
fn teardown_args_read_back() {
    let args = teardown_helper_args("h", "draytek0", true);
    assert_eq!(args, strings(&["h", "teardown", "--device", "draytek0", "--restore-dns"]));
    let t = parse_teardown_args(&args[2..]).unwrap();
    assert_eq!(t.device, "draytek0");
    assert!(t.restore_dns);
    let t = parse_teardown_args(&teardown_helper_args("h", "tun1", false)[2..]).unwrap();
    assert!(!t.restore_dns);
}

#[test]
fn setup_args_errors() {
    assert_eq!(parse_setup_args(&strings(&["--device"])).err(), Some(HelperError::MissingValue(SetupFlag::Device)));
    assert_eq!(parse_setup_args(&strings(&["--bogus", "x"])).err(), Some(HelperError::UnknownOption(0)));
    assert_eq!(parse_setup_args(&strings(&["--uid", "-1"])).err(), Some(HelperError::InvalidValue(SetupFlag::Uid)));
    assert_eq!(
        parse_setup_args(&strings(&["--local-ip", "1.2.3"])).err(),
        Some(HelperError::InvalidValue(SetupFlag::LocalIp))
    );
    assert_eq!(
        parse_setup_args(&strings(&["--device", "d", "--uid", "1"])).err(),
        Some(HelperError::MissingRequired(SetupFlag::LocalIp))
    );
    assert_eq!(parse_teardown_args(&strings(&["--restore-dns"])).err(), Some(HelperError::MissingRequired(SetupFlag::Device)));
}

#[test]
fn validation_rules() {
    assert_eq!(validate_device_name("draytek0"), Ok(()));
    assert_eq!(validate_device_name(""), Err(HelperError::DeviceNameLength));
    assert_eq!(validate_device_name("abcdefghijklmnop"), Err(HelperError::DeviceNameLength));
    assert_eq!(validate_device_name("0tun"), Err(HelperError::DeviceNameStart));
    assert_eq!(validate_device_name("tun-0"), Err(HelperError::DeviceNameChars));
    assert_eq!(validate_device_name("tunéééééééé"), Err(HelperError::DeviceNameLength));
    assert_eq!(validate_mtu(576), Ok(()));
    assert_eq!(validate_mtu(9001), Err(HelperError::MtuRange));
    assert_eq!(validate_cidr("10.0.0.0/8"), Ok(()));
    assert_eq!(validate_cidr("10.0.0.0"), Err(HelperError::CidrFormat));
    assert_eq!(validate_cidr("10.0.0/8"), Err(HelperError::CidrAddress));
    assert_eq!(validate_cidr("10.0.0.0/x"), Err(HelperError::CidrPrefix));
    assert_eq!(validate_cidr("10.0.0.0/33"), Err(HelperError::CidrPrefixRange));
}

#[test]
fn setup_and_teardown_plans() {
    let args = setup_helper_args(
        "h",
        "draytek0",
        1000,
        Ipv4::new(10, 0, 0, 2),
        Ipv4::new(10, 0, 0, 1),
        1400,
        &strings(&["10.0.0.0/8"]),
        Some(Ipv4::new(10, 0, 0, 1)),
        None,
    );
    let s = parse_setup_args(&args[2..]).unwrap();
    let plan = plan_setup(&s).unwrap();
    assert_eq!(
        plan,
        vec![
            strings(&["ip", "tuntap", "add", "dev", "draytek0", "mode", "tun", "user", "1000"]),
            strings(&["ip", "addr", "add", "10.0.0.2", "peer", "10.0.0.1", "dev", "draytek0"]),
            strings(&["ip", "link", "set", "draytek0", "mtu", "1400", "up"]),
            strings(&["ip", "route", "add", "10.0.0.0/8", "dev", "draytek0"]),
            strings(&["ip", "route", "add", "default", "via", "10.0.0.1", "dev", "draytek0"]),
        ]
    );
    let bad = parse_setup_args(&strings(&[
        "--device", "draytek0", "--uid", "1", "--local-ip", "1.1.1.1", "--peer-ip", "1.1.1.2", "--mtu", "100",
    ]))
    .unwrap();
    assert_eq!(plan_setup(&bad).err(), Some(HelperError::MtuRange));
    let t = parse_teardown_args(&strings(&["--device", "draytek0"])).unwrap();
    assert_eq!(
        plan_teardown(&t).unwrap(),
        vec![
            strings(&["ip", "route", "flush", "dev", "draytek0"]),
            strings(&["ip", "link", "set", "draytek0", "down"]),
            strings(&["ip", "tuntap", "del", "dev", "draytek0", "mode", "tun"]),
        ]
    );
    assert_eq!(tuntap_del_command("x"), strings(&["ip", "tuntap", "del", "dev", "x", "mode", "tun"]));
    assert_eq!(
        resolvectl_setup_commands("draytek0", Ipv4::new(8, 8, 4, 4)),
        vec![strings(&["resolvectl", "dns", "draytek0", "8.8.4.4"]), strings(&["resolvectl", "domain", "draytek0", "~."])]
    );
    assert_eq!(resolvectl_revert_command("draytek0"), strings(&["resolvectl", "revert", "draytek0"]));
    assert_eq!(
        resolv_conf_with_nameserver(Ipv4::new(8, 8, 8, 8), "nameserver 1.1.1.1\n"),
        "nameserver 8.8.8.8\nnameserver 1.1.1.1\n"
    );
    assert_eq!(device_sysfs_path("draytek0"), "/sys/class/net/draytek0");
}

#[test]
fn capability_check() {
    let with = "Name:\thelper\nCapInh:\t0000000000000000\nCapEff:\t0000000000001000\n";
    let without = "CapEff:\t0x0000000000000400\n";
    assert_eq!(net_admin_in_status(with), Ok(true));
    assert_eq!(net_admin_in_status(without), Ok(false));
    assert_eq!(net_admin_in_status("Name:\tx\n"), Err(HelperError::CapEffMissing));
    assert_eq!(net_admin_in_status("CapEff:\n"), Err(HelperError::CapEffValueMissing));
    assert_eq!(net_admin_in_status("CapEff:\tzz\n"), Err(HelperError::CapEffInvalid));
    assert_eq!(net_admin_in_status("CapEff:\t000000000000300f\r\n"), Ok(true));
}
