//! The command lines with which the unprivileged client runs the helper, and
//! the fact that the helper reads back exactly what the client wrote.
use vstd::prelude::*;
use crate::addr::{ipv4_text, ipv4_to_string, lemma_parse_ipv4_text, Ipv4};
use crate::helper::{empty_acc, finish_setup, opt_octets, parse_setup_spec, setup_flag, setup_scan, string_views,
    teardown_scan, HelperError, SetupAcc, SetupFlag, SetupView};
use crate::text::{decimal_text, lemma_parse_decimal_text, push_char, str_chars, u64_to_text};

verus! {

/// Name of the TUN device of the tunnel.
pub const TUN_DEVICE_NAME: &'static str = "draytek0";

/// Where the DNS settings of the system are saved while the tunnel is up.
pub const DNS_BACKUP_PATH: &'static str = "/run/draytek-vpn-resolv.bak";

/// `std::path::Path::exists`: whether something is at `path` now. What is on
/// disk decides, so nothing is said of the result.
#[verifier::external_body]
fn path_exists(path: &str) -> bool {
    std::path::Path::new(path).exists()
}

/// The sysfs directory of a network device.
pub fn device_sysfs_path(device: &str) -> (r: String)
    ensures
        r@ == "/sys/class/net/"@ + device@,
{
    let mut s = "/sys/class/net/".to_owned();
    let chars = str_chars(device);
    let ghost start = s@;
    let mut i: usize = 0;
    while i < chars.len()
        invariant
            i <= chars@.len(),
            chars@ == device@,
            s@ == start + chars@.take(i as int),
        decreases chars@.len() - i,
    {
        push_char(&mut s, chars[i]);
        assert(s@ =~= start + chars@.take(i + 1));
        i = i + 1;
    }
    assert(chars@.take(chars@.len() as int) =~= chars@);
    s
}

/// Whether the network device exists now (left over or in use): whether its
/// sysfs directory is there.
pub fn is_device_present(device: &str) -> bool {
    let path = device_sysfs_path(device);
    path_exists(path.as_str())
}

/// Whether the DNS settings saved by an earlier session are still there.
pub fn has_dns_backup() -> bool {
    path_exists(DNS_BACKUP_PATH)
}

/// `--route` followed by the route, for each route in order.
pub open spec fn route_args(routes: Seq<Seq<char>>) -> Seq<Seq<char>> {
    Seq::new(2 * routes.len(), |k: int| if k % 2 == 0 { "--route"@ } else { routes[k / 2] })
}

/// An option and an address's text, or nothing.
pub open spec fn opt_ip_args(flag: Seq<char>, ip: Option<Ipv4>) -> Seq<Seq<char>> {
    match ip {
        Some(a) => seq![flag, ipv4_text(a)],
        None => Seq::empty(),
    }
}

/// The arguments of `setup` after the subcommand.
pub open spec fn setup_command_args(
    device: Seq<char>,
    uid: u32,
    local_ip: Ipv4,
    peer_ip: Ipv4,
    mtu: u16,
    routes: Seq<Seq<char>>,
    default_gw: Option<Ipv4>,
    dns: Option<Ipv4>,
) -> Seq<Seq<char>> {
    seq![
        "--device"@, device,
        "--uid"@, decimal_text(uid as nat),
        "--local-ip"@, ipv4_text(local_ip),
        "--peer-ip"@, ipv4_text(peer_ip),
        "--mtu"@, decimal_text(mtu as nat),
    ] + route_args(routes) + opt_ip_args("--default-gw"@, default_gw) + opt_ip_args("--dns"@, dns)
}

/// The arguments of `teardown` after the subcommand.
pub open spec fn teardown_command_args(device: Seq<char>, restore_dns: bool) -> Seq<Seq<char>> {
    if restore_dns {
        seq!["--device"@, device, "--restore-dns"@]
    } else {
        seq!["--device"@, device]
    }
}

fn push_ip_option(args: &mut Vec<String>, flag: &str, ip: Option<Ipv4>)
    ensures
        string_views(final(args)@) == string_views(old(args)@) + opt_ip_args(flag@, ip),
{
    let ghost before = string_views(args@);
    match ip {
        Some(a) => {
            args.push(flag.to_owned());
            args.push(ipv4_to_string(a));
            assert(string_views(args@) =~= before + opt_ip_args(flag@, ip));
        },
        None => {
            assert(string_views(args@) =~= before + opt_ip_args(flag@, ip));
        },
    }
}

/// The command line that runs the helper's `setup`: the helper's path, the
/// subcommand, then the options.
pub fn setup_helper_args(
    helper: &str,
    device: &str,
    uid: u32,
    local_ip: Ipv4,
    peer_ip: Ipv4,
    mtu: u16,
    routes: &[String],
    default_gw: Option<Ipv4>,
    dns: Option<Ipv4>,
) -> (r: Vec<String>)
    ensures
        string_views(r@) == seq![helper@, "setup"@] + setup_command_args(
            device@, uid, local_ip, peer_ip, mtu, string_views(routes@), default_gw, dns),
{
    let mut args: Vec<String> = Vec::new();
    args.push(helper.to_owned());
    args.push("setup".to_owned());
    args.push("--device".to_owned());
    args.push(device.to_owned());
    args.push("--uid".to_owned());
    args.push(u64_to_text(uid as u64));
    args.push("--local-ip".to_owned());
    args.push(ipv4_to_string(local_ip));
    args.push("--peer-ip".to_owned());
    args.push(ipv4_to_string(peer_ip));
    args.push("--mtu".to_owned());
    args.push(u64_to_text(mtu as u64));
    let ghost head = string_views(args@);
    let ghost rv = string_views(routes@);
    assert(head =~= seq![helper@, "setup"@] + seq![
        "--device"@, device@,
        "--uid"@, decimal_text(uid as nat),
        "--local-ip"@, ipv4_text(local_ip),
        "--peer-ip"@, ipv4_text(peer_ip),
        "--mtu"@, decimal_text(mtu as nat),
    ]);
    let mut j: usize = 0;
    while j < routes.len()
        invariant
            j <= routes@.len(),
            rv == string_views(routes@),
            string_views(args@) == head + route_args(rv.take(j as int)),
        decreases routes@.len() - j,
    {
        let ghost before = string_views(args@);
        args.push("--route".to_owned());
        args.push(routes[j].clone());
        proof {
            let t = rv.take(j as int);
            let t1 = rv.take(j + 1);
            assert(route_args(t1) =~= route_args(t).push("--route"@).push(rv[j as int]));
            assert(string_views(args@) =~= before.push("--route"@).push(rv[j as int]));
        }
        j = j + 1;
    }
    assert(rv.take(routes@.len() as int) =~= rv);
    push_ip_option(&mut args, "--default-gw", default_gw);
    push_ip_option(&mut args, "--dns", dns);
    assert(string_views(args@) =~= seq![helper@, "setup"@] + setup_command_args(
        device@, uid, local_ip, peer_ip, mtu, rv, default_gw, dns));
    args
}

/// The command line that runs the helper's `teardown`.
pub fn teardown_helper_args(helper: &str, device: &str, restore_dns: bool) -> (r: Vec<String>)
    ensures
        string_views(r@) == seq![helper@, "teardown"@] + teardown_command_args(device@, restore_dns),
{
    let mut args: Vec<String> = Vec::new();
    args.push(helper.to_owned());
    args.push("teardown".to_owned());
    args.push("--device".to_owned());
    args.push(device.to_owned());
    if restore_dns {
        args.push("--restore-dns".to_owned());
    }
    assert(string_views(args@) =~= seq![helper@, "teardown"@] + teardown_command_args(device@, restore_dns));
    args
}

proof fn reveal_option_names()
    ensures
        setup_flag("--device"@) == Some(SetupFlag::Device),
        setup_flag("--uid"@) == Some(SetupFlag::Uid),
        setup_flag("--local-ip"@) == Some(SetupFlag::LocalIp),
        setup_flag("--peer-ip"@) == Some(SetupFlag::PeerIp),
        setup_flag("--mtu"@) == Some(SetupFlag::Mtu),
        setup_flag("--route"@) == Some(SetupFlag::Route),
        setup_flag("--default-gw"@) == Some(SetupFlag::DefaultGw),
        setup_flag("--dns"@) == Some(SetupFlag::Dns),
        "--restore-dns"@ != "--device"@,
{
    reveal_strlit("--device");
    reveal_strlit("--uid");
    reveal_strlit("--local-ip");
    reveal_strlit("--peer-ip");
    reveal_strlit("--mtu");
    reveal_strlit("--route");
    reveal_strlit("--default-gw");
    reveal_strlit("--dns");
    reveal_strlit("--restore-dns");
    assert("--device"@.len() == 8 && "--uid"@.len() == 5 && "--local-ip"@.len() == 10);
    assert("--peer-ip"@.len() == 9 && "--mtu"@.len() == 5 && "--route"@.len() == 7);
    assert("--default-gw"@.len() == 12 && "--dns"@.len() == 5 && "--restore-dns"@.len() == 13);
    assert("--mtu"@[2] != "--uid"@[2] && "--dns"@[2] != "--uid"@[2] && "--dns"@[2] != "--mtu"@[2]);
    assert("--local-ip"@[2] != "--default-gw"@[2]);
}

proof fn lemma_scan_routes(args: Seq<Seq<char>>, i: int, acc: SetupAcc, routes: Seq<Seq<char>>, j: int)
    requires
        0 <= i,
        0 <= j <= routes.len(),
        i + 2 * (routes.len() - j) <= args.len(),
        forall|k: int| 0 <= k < routes.len() - j ==> #[trigger] args[i + 2 * k] == "--route"@,
        forall|k: int| 0 <= k < routes.len() - j ==> #[trigger] args[i + 2 * k + 1] == routes[j + k],
    ensures
        setup_scan(args, i, acc) == setup_scan(args, i + 2 * (routes.len() - j),
            SetupAcc { routes: acc.routes + routes.subrange(j, routes.len() as int), ..acc }),
    decreases routes.len() - j,
{
    reveal_option_names();
    if j == routes.len() {
        assert(acc.routes + routes.subrange(j, routes.len() as int) =~= acc.routes);
    } else {
        assert(args[i + 2 * 0] == "--route"@);
        assert(args[i + 2 * 0 + 1] == routes[j + 0]);
        assert(setup_flag(args[i]) == Some(SetupFlag::Route));
        let next = SetupAcc { routes: acc.routes.push(routes[j]), ..acc };
        assert(setup_scan(args, i, acc) == setup_scan(args, i + 2, next));
        assert forall|k: int| 0 <= k < routes.len() - (j + 1) implies #[trigger] args[(i + 2) + 2 * k] == "--route"@ by {
            assert(args[i + 2 * (k + 1)] == "--route"@);
            assert(i + 2 * (k + 1) == (i + 2) + 2 * k);
        }
        assert forall|k: int| 0 <= k < routes.len() - (j + 1) implies #[trigger] args[(i + 2) + 2 * k + 1] == routes[(j + 1) + k] by {
            assert(args[i + 2 * (k + 1) + 1] == routes[j + (k + 1)]);
            assert(i + 2 * (k + 1) + 1 == (i + 2) + 2 * k + 1);
        }
        lemma_scan_routes(args, i + 2, next, routes, j + 1);
        assert(next.routes + routes.subrange(j + 1, routes.len() as int) =~= acc.routes + routes.subrange(j, routes.len() as int));
    }
}

proof fn lemma_scan_ip_option(args: Seq<Seq<char>>, i: int, acc: SetupAcc, f: SetupFlag, flag: Seq<char>, ip: Option<Ipv4>)
    requires
        0 <= i,
        f == SetupFlag::DefaultGw || f == SetupFlag::Dns,
        flag == (if f == SetupFlag::DefaultGw { "--default-gw"@ } else { "--dns"@ }),
        args.subrange(i, i + opt_ip_args(flag, ip).len()) == opt_ip_args(flag, ip),
        i + opt_ip_args(flag, ip).len() <= args.len(),
    ensures
        setup_scan(args, i, acc) == setup_scan(args, i + opt_ip_args(flag, ip).len(),
            match (f, ip) {
                (_, None) => acc,
                (SetupFlag::DefaultGw, Some(a)) => SetupAcc { default_gw: Some(a.octet_seq()), ..acc },
                (_, Some(a)) => SetupAcc { dns: Some(a.octet_seq()), ..acc },
            }),
{
    reveal_option_names();
    if let Some(a) = ip {
        assert(args[i] == args.subrange(i, i + 2)[0]);
        assert(args[i + 1] == args.subrange(i, i + 2)[1]);
        assert(setup_flag(args[i]) == Some(f));
        lemma_parse_ipv4_text(a);
    }
}

/// What the client hands the helper's `setup` is read back unchanged: every
/// field of the command line comes out of the helper's parser as it went in.
pub proof fn lemma_setup_args_roundtrip(
    device: Seq<char>,
    uid: u32,
    local_ip: Ipv4,
    peer_ip: Ipv4,
    mtu: u16,
    routes: Seq<Seq<char>>,
    default_gw: Option<Ipv4>,
    dns: Option<Ipv4>,
)
    ensures
        parse_setup_spec(setup_command_args(device, uid, local_ip, peer_ip, mtu, routes, default_gw, dns))
            == Ok::<SetupView, HelperError>(SetupView {
                device,
                uid,
                local_ip: local_ip.octet_seq(),
                peer_ip: peer_ip.octet_seq(),
                mtu,
                routes,
                default_gw: opt_octets(default_gw),
                dns: opt_octets(dns),
            }),
{
    reveal_option_names();
    let args = setup_command_args(device, uid, local_ip, peer_ip, mtu, routes, default_gw, dns);
    let base = seq![
        "--device"@, device,
        "--uid"@, decimal_text(uid as nat),
        "--local-ip"@, ipv4_text(local_ip),
        "--peer-ip"@, ipv4_text(peer_ip),
        "--mtu"@, decimal_text(mtu as nat),
    ];
    let ra = route_args(routes);
    let ga = opt_ip_args("--default-gw"@, default_gw);
    let da = opt_ip_args("--dns"@, dns);
    assert(args == base + ra + ga + da);
    let n = routes.len();
    assert(args.len() == 10 + 2 * n + ga.len() + da.len());
    assert forall|k: int| 0 <= k < 10 implies #[trigger] args[k] == base[k] by {}
    lemma_parse_decimal_text(uid as nat, u32::MAX as nat);
    lemma_parse_decimal_text(mtu as nat, u16::MAX as nat);
    lemma_parse_ipv4_text(local_ip);
    lemma_parse_ipv4_text(peer_ip);
    let a0 = empty_acc();
    let a1 = SetupAcc { device: Some(device), ..a0 };
    let a2 = SetupAcc { uid: Some(uid), ..a1 };
    let a3 = SetupAcc { local_ip: Some(local_ip.octet_seq()), ..a2 };
    let a4 = SetupAcc { peer_ip: Some(peer_ip.octet_seq()), ..a3 };
    let a5 = SetupAcc { mtu: Some(mtu), ..a4 };
    assert(setup_flag(args[0]) == Some(SetupFlag::Device));
    assert(setup_scan(args, 0, a0) == setup_scan(args, 2, a1));
    assert(setup_flag(args[2]) == Some(SetupFlag::Uid));
    assert(setup_scan(args, 2, a1) == setup_scan(args, 4, a2));
    assert(setup_flag(args[4]) == Some(SetupFlag::LocalIp));
    assert(setup_scan(args, 4, a2) == setup_scan(args, 6, a3));
    assert(setup_flag(args[6]) == Some(SetupFlag::PeerIp));
    assert(setup_scan(args, 6, a3) == setup_scan(args, 8, a4));
    assert(setup_flag(args[8]) == Some(SetupFlag::Mtu));
    assert(setup_scan(args, 8, a4) == setup_scan(args, 10, a5));
    assert forall|k: int| 0 <= k < n implies #[trigger] args[10 + 2 * k] == "--route"@ by {
        assert(args[10 + 2 * k] == ra[2 * k]);
    }
    assert forall|k: int| 0 <= k < n implies #[trigger] args[10 + 2 * k + 1] == routes[0 + k] by {
        assert(args[10 + 2 * k + 1] == ra[2 * k + 1]);
        assert((2 * k + 1) / 2 == k);
    }
    lemma_scan_routes(args, 10, a5, routes, 0);
    assert(a5.routes + routes.subrange(0, n as int) =~= routes);
    let a6 = SetupAcc { routes, ..a5 };
    let i6: int = 10 + 2 * n as int;
    assert(args.subrange(i6, i6 + ga.len() as int) =~= ga);
    lemma_scan_ip_option(args, i6, a6, SetupFlag::DefaultGw, "--default-gw"@, default_gw);
    let a7 = SetupAcc { default_gw: opt_octets(default_gw), ..a6 };
    let i7: int = i6 + ga.len();
    assert(args.subrange(i7, i7 + da.len() as int) =~= da);
    lemma_scan_ip_option(args, i7, a7, SetupFlag::Dns, "--dns"@, dns);
    let a8 = SetupAcc { dns: opt_octets(dns), ..a7 };
    assert(setup_scan(args, i7 + da.len() as int, a8) == Ok::<SetupAcc, HelperError>(a8));
    assert(finish_setup(a8) == Ok::<SetupView, HelperError>(SetupView {
        device,
        uid,
        local_ip: local_ip.octet_seq(),
        peer_ip: peer_ip.octet_seq(),
        mtu,
        routes,
        default_gw: opt_octets(default_gw),
        dns: opt_octets(dns),
    }));
}

/// What the client hands the helper's `teardown` is read back unchanged.
pub proof fn lemma_teardown_args_roundtrip(device: Seq<char>, restore_dns: bool)
    ensures
        teardown_scan(teardown_command_args(device, restore_dns), 0, None, false)
            == Ok::<(Seq<char>, bool), HelperError>((device, restore_dns)),
{
    reveal_option_names();
    let args = teardown_command_args(device, restore_dns);
    assert(teardown_scan(args, 0, None, false) == teardown_scan(args, 2, Some(device), false));
    if restore_dns {
        assert(teardown_scan(args, 2, Some(device), false) == teardown_scan(args, 3, Some(device), true));
    }
}

} // verus!
