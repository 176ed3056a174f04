//! Command-line handling of the privileged helper that creates the TUN device,
//! routes and DNS: its arguments and their validation.
use vstd::prelude::*;
use crate::addr::{ipv4_text, ipv4_to_string, parse_ipv4, parse_ipv4_chars, parse_ipv4_spec, Ipv4};
use crate::text::{char_vec_views, copy_string, decimal_text, parse_uint, parse_uint_spec, split_chars, split_on, str_chars, str_eq,
    u64_to_text};
use crate::words::{char_vecs_view, parse_hex, parse_hex_spec, split_words, strip_prefixes, words};

verus! {

/// The options of `setup` that take a value.
#[derive(Debug, Clone, Copy, PartialEq, Eq, Structural)]
pub enum SetupFlag {
    Device,
    Uid,
    LocalIp,
    PeerIp,
    Mtu,
    Route,
    DefaultGw,
    Dns,
}

/// Why the helper refuses its arguments.
#[derive(Debug, Clone, Copy, PartialEq, Eq, Structural)]
pub enum HelperError {
    /// An option came last, without its value.
    MissingValue(SetupFlag),
    /// An option's value does not parse.
    InvalidValue(SetupFlag),
    /// The argument at this index is not an option of the command.
    UnknownOption(usize),
    /// A required option was not given.
    MissingRequired(SetupFlag),
    /// The device name is empty or longer than 15 bytes.
    DeviceNameLength,
    /// The device name does not start with an ASCII letter.
    DeviceNameStart,
    /// The device name has a character that is not an ASCII letter or digit.
    DeviceNameChars,
    /// The MTU is outside 576..=9000.
    MtuRange,
    /// A route is not of the form `address/prefix`.
    CidrFormat,
    /// A route's address does not parse.
    CidrAddress,
    /// A route's prefix does not parse as a `u8`.
    CidrPrefix,
    /// A route's prefix is above 32.
    CidrPrefixRange,
    /// The process status has no `CapEff:` line.
    CapEffMissing,
    /// The `CapEff:` line has no value.
    CapEffValueMissing,
    /// The `CapEff:` value is not a hexadecimal `u64`.
    CapEffInvalid,
}

/// Arguments of `setup`.
pub struct SetupArgs {
    pub device: String,
    pub uid: u32,
    pub local_ip: Ipv4,
    pub peer_ip: Ipv4,
    pub mtu: u16,
    pub routes: Vec<String>,
    pub default_gw: Option<Ipv4>,
    pub dns: Option<Ipv4>,
}

/// Arguments of `teardown`.
pub struct TeardownArgs {
    pub device: String,
    pub restore_dns: bool,
}

/// The options of `setup` gathered so far.
pub struct SetupAcc {
    pub device: Option<Seq<char>>,
    pub uid: Option<u32>,
    pub local_ip: Option<Seq<u8>>,
    pub peer_ip: Option<Seq<u8>>,
    pub mtu: Option<u16>,
    pub routes: Seq<Seq<char>>,
    pub default_gw: Option<Seq<u8>>,
    pub dns: Option<Seq<u8>>,
}

/// Nothing gathered yet.
pub open spec fn empty_acc() -> SetupAcc {
    SetupAcc { device: None, uid: None, local_ip: None, peer_ip: None, mtu: None, routes: Seq::empty(), default_gw: None, dns: None }
}

/// The option an argument names.
pub open spec fn setup_flag(s: Seq<char>) -> Option<SetupFlag> {
    if s == "--device"@ {
        Some(SetupFlag::Device)
    } else if s == "--uid"@ {
        Some(SetupFlag::Uid)
    } else if s == "--local-ip"@ {
        Some(SetupFlag::LocalIp)
    } else if s == "--peer-ip"@ {
        Some(SetupFlag::PeerIp)
    } else if s == "--mtu"@ {
        Some(SetupFlag::Mtu)
    } else if s == "--route"@ {
        Some(SetupFlag::Route)
    } else if s == "--default-gw"@ {
        Some(SetupFlag::DefaultGw)
    } else if s == "--dns"@ {
        Some(SetupFlag::Dns)
    } else {
        None
    }
}

/// Recording the value of an option; a later value of the same option replaces
/// an earlier one, routes accumulate.
pub open spec fn record(acc: SetupAcc, f: SetupFlag, v: Seq<char>) -> Result<SetupAcc, HelperError> {
    match f {
        SetupFlag::Device => Ok(SetupAcc { device: Some(v), ..acc }),
        SetupFlag::Uid => match parse_uint_spec(v, u32::MAX as nat) {
            Some(n) => Ok(SetupAcc { uid: Some(n as u32), ..acc }),
            None => Err(HelperError::InvalidValue(f)),
        },
        SetupFlag::LocalIp => match parse_ipv4_spec(v) {
            Some(a) => Ok(SetupAcc { local_ip: Some(a), ..acc }),
            None => Err(HelperError::InvalidValue(f)),
        },
        SetupFlag::PeerIp => match parse_ipv4_spec(v) {
            Some(a) => Ok(SetupAcc { peer_ip: Some(a), ..acc }),
            None => Err(HelperError::InvalidValue(f)),
        },
        SetupFlag::Mtu => match parse_uint_spec(v, u16::MAX as nat) {
            Some(n) => Ok(SetupAcc { mtu: Some(n as u16), ..acc }),
            None => Err(HelperError::InvalidValue(f)),
        },
        SetupFlag::Route => Ok(SetupAcc { routes: acc.routes.push(v), ..acc }),
        SetupFlag::DefaultGw => match parse_ipv4_spec(v) {
            Some(a) => Ok(SetupAcc { default_gw: Some(a), ..acc }),
            None => Err(HelperError::InvalidValue(f)),
        },
        SetupFlag::Dns => match parse_ipv4_spec(v) {
            Some(a) => Ok(SetupAcc { dns: Some(a), ..acc }),
            None => Err(HelperError::InvalidValue(f)),
        },
    }
}

/// Reading `setup` options from index `i` on: each option is followed by its
/// value; the first problem is reported.
pub open spec fn setup_scan(args: Seq<Seq<char>>, i: int, acc: SetupAcc) -> Result<SetupAcc, HelperError>
    decreases args.len() - i,
{
    if i < 0 || i >= args.len() {
        Ok(acc)
    } else {
        match setup_flag(args[i]) {
            None => Err(HelperError::UnknownOption(i as usize)),
            Some(f) => if i + 1 >= args.len() {
                Err(HelperError::MissingValue(f))
            } else {
                match record(acc, f, args[i + 1]) {
                    Err(e) => Err(e),
                    Ok(a) => setup_scan(args, i + 2, a),
                }
            },
        }
    }
}

/// The arguments of `setup` as a value.
pub struct SetupView {
    pub device: Seq<char>,
    pub uid: u32,
    pub local_ip: Seq<u8>,
    pub peer_ip: Seq<u8>,
    pub mtu: u16,
    pub routes: Seq<Seq<char>>,
    pub default_gw: Option<Seq<u8>>,
    pub dns: Option<Seq<u8>>,
}

/// The gathered options, once the required ones are checked (in the order
/// device, uid, local address, peer address, MTU).
pub open spec fn finish_setup(acc: SetupAcc) -> Result<SetupView, HelperError> {
    match (acc.device, acc.uid, acc.local_ip, acc.peer_ip, acc.mtu) {
        (None, _, _, _, _) => Err(HelperError::MissingRequired(SetupFlag::Device)),
        (Some(_), None, _, _, _) => Err(HelperError::MissingRequired(SetupFlag::Uid)),
        (Some(_), Some(_), None, _, _) => Err(HelperError::MissingRequired(SetupFlag::LocalIp)),
        (Some(_), Some(_), Some(_), None, _) => Err(HelperError::MissingRequired(SetupFlag::PeerIp)),
        (Some(_), Some(_), Some(_), Some(_), None) => Err(HelperError::MissingRequired(SetupFlag::Mtu)),
        (Some(d), Some(u), Some(l), Some(p), Some(m)) => Ok(SetupView {
            device: d, uid: u, local_ip: l, peer_ip: p, mtu: m, routes: acc.routes, default_gw: acc.default_gw, dns: acc.dns,
        }),
    }
}

/// `parse_setup_args` as a value.
pub open spec fn parse_setup_spec(args: Seq<Seq<char>>) -> Result<SetupView, HelperError> {
    match setup_scan(args, 0, empty_acc()) {
        Err(e) => Err(e),
        Ok(acc) => finish_setup(acc),
    }
}

/// The views of a list of strings.
pub open spec fn string_views(v: Seq<String>) -> Seq<Seq<char>> {
    v.map_values(|s: String| s@)
}

/// An optional address as octets.
pub open spec fn opt_octets(ip: Option<Ipv4>) -> Option<Seq<u8>> {
    match ip {
        Some(a) => Some(a.octet_seq()),
        None => None,
    }
}

/// The view of parsed `setup` arguments.
pub open spec fn setup_view(s: SetupArgs) -> SetupView {
    SetupView {
        device: s.device@,
        uid: s.uid,
        local_ip: s.local_ip.octet_seq(),
        peer_ip: s.peer_ip.octet_seq(),
        mtu: s.mtu,
        routes: string_views(s.routes@),
        default_gw: opt_octets(s.default_gw),
        dns: opt_octets(s.dns),
    }
}

fn flag_of(arg: &str) -> (r: Option<SetupFlag>)
    ensures
        r == setup_flag(arg@),
{
    if str_eq(arg, "--device") {
        Some(SetupFlag::Device)
    } else if str_eq(arg, "--uid") {
        Some(SetupFlag::Uid)
    } else if str_eq(arg, "--local-ip") {
        Some(SetupFlag::LocalIp)
    } else if str_eq(arg, "--peer-ip") {
        Some(SetupFlag::PeerIp)
    } else if str_eq(arg, "--mtu") {
        Some(SetupFlag::Mtu)
    } else if str_eq(arg, "--route") {
        Some(SetupFlag::Route)
    } else if str_eq(arg, "--default-gw") {
        Some(SetupFlag::DefaultGw)
    } else if str_eq(arg, "--dns") {
        Some(SetupFlag::Dns)
    } else {
        None
    }
}

/// Parse the arguments of `setup` (after the subcommand).
pub fn parse_setup_args(args: &[String]) -> (r: Result<SetupArgs, HelperError>)
    ensures
        match r {
            Ok(s) => parse_setup_spec(string_views(args@)) == Ok::<SetupView, HelperError>(setup_view(s)),
            Err(e) => parse_setup_spec(string_views(args@)) == Err::<SetupView, HelperError>(e),
        },
{
    let ghost av = string_views(args@);
    let mut device: Option<String> = None;
    let mut uid: Option<u32> = None;
    let mut local_ip: Option<Ipv4> = None;
    let mut peer_ip: Option<Ipv4> = None;
    let mut mtu: Option<u16> = None;
    let mut routes: Vec<String> = Vec::new();
    let mut default_gw: Option<Ipv4> = None;
    let mut dns: Option<Ipv4> = None;
    let mut i: usize = 0;
    assert(string_views(routes@) =~= Seq::<Seq<char>>::empty());
    while i < args.len()
        invariant
            i <= args@.len() + 1,
            av == string_views(args@),
            setup_scan(av, 0, empty_acc()) == setup_scan(av, i as int, SetupAcc {
                device: match device { Some(d) => Some(d@), None => None },
                uid,
                local_ip: opt_octets(local_ip),
                peer_ip: opt_octets(peer_ip),
                mtu,
                routes: string_views(routes@),
                default_gw: opt_octets(default_gw),
                dns: opt_octets(dns),
            }),
        decreases args@.len() + 1 - i,
    {
        assert(av[i as int] == args@[i as int]@);
        let flag = match flag_of(args[i].as_str()) {
            Some(f) => f,
            None => return Err(HelperError::UnknownOption(i)),
        };
        if i + 1 >= args.len() {
            return Err(HelperError::MissingValue(flag));
        }
        let value = &args[i + 1];
        assert(av[i + 1] == value@);
        match flag {
            SetupFlag::Device => {
                device = Some(copy_string(value));
            },
            SetupFlag::Uid => {
                let chars = str_chars(value.as_str());
                match parse_uint(chars.as_slice(), u32::MAX as u64) {
                    Some(n) => { uid = Some(n as u32); },
                    None => return Err(HelperError::InvalidValue(flag)),
                }
            },
            SetupFlag::LocalIp => {
                match parse_ipv4(value.as_str()) {
                    Some(a) => { local_ip = Some(a); },
                    None => return Err(HelperError::InvalidValue(flag)),
                }
            },
            SetupFlag::PeerIp => {
                match parse_ipv4(value.as_str()) {
                    Some(a) => { peer_ip = Some(a); },
                    None => return Err(HelperError::InvalidValue(flag)),
                }
            },
            SetupFlag::Mtu => {
                let chars = str_chars(value.as_str());
                match parse_uint(chars.as_slice(), u16::MAX as u64) {
                    Some(n) => { mtu = Some(n as u16); },
                    None => return Err(HelperError::InvalidValue(flag)),
                }
            },
            SetupFlag::Route => {
                let ghost before = string_views(routes@);
                let c = copy_string(value);
                routes.push(c);
                assert(string_views(routes@) =~= before.push(value@));
            },
            SetupFlag::DefaultGw => {
                match parse_ipv4(value.as_str()) {
                    Some(a) => { default_gw = Some(a); },
                    None => return Err(HelperError::InvalidValue(flag)),
                }
            },
            SetupFlag::Dns => {
                match parse_ipv4(value.as_str()) {
                    Some(a) => { dns = Some(a); },
                    None => return Err(HelperError::InvalidValue(flag)),
                }
            },
        }
        i = i + 2;
    }
    let device = match device {
        Some(d) => d,
        None => return Err(HelperError::MissingRequired(SetupFlag::Device)),
    };
    let uid = match uid {
        Some(u) => u,
        None => return Err(HelperError::MissingRequired(SetupFlag::Uid)),
    };
    let local_ip = match local_ip {
        Some(a) => a,
        None => return Err(HelperError::MissingRequired(SetupFlag::LocalIp)),
    };
    let peer_ip = match peer_ip {
        Some(a) => a,
        None => return Err(HelperError::MissingRequired(SetupFlag::PeerIp)),
    };
    let mtu = match mtu {
        Some(m) => m,
        None => return Err(HelperError::MissingRequired(SetupFlag::Mtu)),
    };
    Ok(SetupArgs { device, uid, local_ip, peer_ip, mtu, routes, default_gw, dns })
}

/// `parse_teardown_args` as a value: `--device` takes a value, `--restore-dns`
/// stands alone; the device is required.
pub open spec fn teardown_scan(args: Seq<Seq<char>>, i: int, device: Option<Seq<char>>, restore: bool)
    -> Result<(Seq<char>, bool), HelperError>
    decreases args.len() - i,
{
    if i < 0 || i >= args.len() {
        match device {
            Some(d) => Ok((d, restore)),
            None => Err(HelperError::MissingRequired(SetupFlag::Device)),
        }
    } else if args[i] == "--device"@ {
        if i + 1 >= args.len() {
            Err(HelperError::MissingValue(SetupFlag::Device))
        } else {
            teardown_scan(args, i + 2, Some(args[i + 1]), restore)
        }
    } else if args[i] == "--restore-dns"@ {
        teardown_scan(args, i + 1, device, true)
    } else {
        Err(HelperError::UnknownOption(i as usize))
    }
}

/// Parse the arguments of `teardown` (after the subcommand).
pub fn parse_teardown_args(args: &[String]) -> (r: Result<TeardownArgs, HelperError>)
    ensures
        match r {
            Ok(t) => teardown_scan(string_views(args@), 0, None, false) == Ok::<(Seq<char>, bool), HelperError>((t.device@, t.restore_dns)),
            Err(e) => teardown_scan(string_views(args@), 0, None, false) == Err::<(Seq<char>, bool), HelperError>(e),
        },
{
    let ghost av = string_views(args@);
    let mut device: Option<String> = None;
    let mut restore_dns = false;
    let mut i: usize = 0;
    while i < args.len()
        invariant
            i <= args@.len() + 1,
            av == string_views(args@),
            teardown_scan(av, 0, None, false) == teardown_scan(av, i as int,
                match device { Some(d) => Some(d@), None => None }, restore_dns),
        decreases args@.len() + 1 - i,
    {
        assert(av[i as int] == args@[i as int]@);
        if str_eq(args[i].as_str(), "--device") {
            if i + 1 >= args.len() {
                return Err(HelperError::MissingValue(SetupFlag::Device));
            }
            assert(av[i + 1] == args@[i + 1]@);
            device = Some(copy_string(&args[i + 1]));
            i = i + 2;
        } else if str_eq(args[i].as_str(), "--restore-dns") {
            restore_dns = true;
            i = i + 1;
        } else {
            return Err(HelperError::UnknownOption(i));
        }
    }
    match device {
        Some(d) => Ok(TeardownArgs { device: d, restore_dns }),
        None => Err(HelperError::MissingRequired(SetupFlag::Device)),
    }
}

// ---------------------------------------------------------------------------
// Validation.
// ---------------------------------------------------------------------------

/// Whether `c` is an ASCII letter.
pub open spec fn is_ascii_alpha(c: char) -> bool {
    ('a' <= c && c <= 'z') || ('A' <= c && c <= 'Z')
}

/// Whether `c` is an ASCII letter or digit.
pub open spec fn is_ascii_alnum(c: char) -> bool {
    is_ascii_alpha(c) || ('0' <= c && c <= '9')
}

/// The number of bytes of `c` in UTF-8.
pub open spec fn utf8_width(c: char) -> nat {
    if (c as int) < 0x80 {
        1
    } else if (c as int) < 0x800 {
        2
    } else if (c as int) < 0x10000 {
        3
    } else {
        4
    }
}

/// The number of bytes of `s` in UTF-8, as `str::len` counts them.
pub open spec fn utf8_len(s: Seq<char>) -> nat
    decreases s.len(),
{
    if s.len() == 0 {
        0
    } else {
        utf8_len(s.drop_last()) + utf8_width(s.last())
    }
}

proof fn lemma_utf8_len_prefix(s: Seq<char>, i: int)
    requires
        0 <= i <= s.len(),
    ensures
        utf8_len(s.take(i)) <= utf8_len(s),
    decreases s.len() - i,
{
    if i < s.len() {
        lemma_utf8_len_prefix(s, i + 1);
        assert(s.take(i + 1).drop_last() =~= s.take(i));
    } else {
        assert(s.take(i) =~= s);
    }
}

/// The checks on a device name, in order: 1 to 15 bytes, a letter first,
/// letters and digits only.
pub open spec fn device_name_check(name: Seq<char>) -> Result<(), HelperError> {
    if name.len() == 0 || utf8_len(name) > 15 {
        Err(HelperError::DeviceNameLength)
    } else if !is_ascii_alpha(name[0]) {
        Err(HelperError::DeviceNameStart)
    } else if !(forall|i: int| 0 <= i < name.len() ==> is_ascii_alnum(#[trigger] name[i])) {
        Err(HelperError::DeviceNameChars)
    } else {
        Ok(())
    }
}

fn char_is_alpha(c: char) -> (r: bool)
    ensures
        r == is_ascii_alpha(c),
{
    ('a' <= c && c <= 'z') || ('A' <= c && c <= 'Z')
}

fn char_utf8_width(c: char) -> (r: usize)
    ensures
        r == utf8_width(c),
{
    let v = c as u32;
    if v < 0x80 {
        1
    } else if v < 0x800 {
        2
    } else if v < 0x10000 {
        3
    } else {
        4
    }
}

/// Whether a text is longer than 15 bytes in UTF-8.
fn longer_than_15_bytes(chars: &[char]) -> (r: bool)
    ensures
        r == (utf8_len(chars@) > 15),
{
    let mut total: usize = 0;
    let mut i: usize = 0;
    while i < chars.len() && total <= 15
        invariant
            i <= chars@.len(),
            total == utf8_len(chars@.take(i as int)),
        decreases chars@.len() - i,
    {
        proof {
            assert(chars@.take(i + 1).drop_last() =~= chars@.take(i as int));
        }
        total = total + char_utf8_width(chars[i]);
        i = i + 1;
    }
    proof {
        lemma_utf8_len_prefix(chars@, i as int);
        if i == chars@.len() {
            assert(chars@.take(i as int) =~= chars@);
        }
    }
    total > 15
}

/// Check a network device name.
pub fn validate_device_name(name: &str) -> (r: Result<(), HelperError>)
    ensures
        r == device_name_check(name@),
{
    let chars = str_chars(name);
    if chars.len() == 0 || longer_than_15_bytes(chars.as_slice()) {
        return Err(HelperError::DeviceNameLength);
    }
    if !char_is_alpha(chars[0]) {
        return Err(HelperError::DeviceNameStart);
    }
    let mut i: usize = 0;
    while i < chars.len()
        invariant
            i <= chars@.len(),
            chars@ == name@,
            chars@.len() > 0,
            utf8_len(name@) <= 15,
            is_ascii_alpha(chars@[0]),
            forall|j: int| 0 <= j < i ==> is_ascii_alnum(#[trigger] chars@[j]),
        decreases chars@.len() - i,
    {
        let c = chars[i];
        if !(char_is_alpha(c) || ('0' <= c && c <= '9')) {
            assert(!is_ascii_alnum(name@[i as int]));
            return Err(HelperError::DeviceNameChars);
        }
        i = i + 1;
    }
    Ok(())
}

/// Check an MTU: 576 to 9000.
pub fn validate_mtu(mtu: u16) -> (r: Result<(), HelperError>)
    ensures
        r is Ok <==> 576 <= mtu <= 9000,
        r matches Err(e) ==> e == HelperError::MtuRange,
{
    if mtu < 576 || mtu > 9000 {
        return Err(HelperError::MtuRange);
    }
    Ok(())
}

/// The checks on a route, in order: exactly one `/`, an address, a prefix that
/// parses as a `u8`, and a prefix of at most 32.
pub open spec fn cidr_check(s: Seq<char>) -> Result<(), HelperError> {
    let p = split_on(s, '/');
    if p.len() != 2 {
        Err(HelperError::CidrFormat)
    } else if parse_ipv4_spec(p[0]) is None {
        Err(HelperError::CidrAddress)
    } else {
        match parse_uint_spec(p[1], 255) {
            None => Err(HelperError::CidrPrefix),
            Some(n) => if n > 32 { Err(HelperError::CidrPrefixRange) } else { Ok(()) },
        }
    }
}

/// Check a route in CIDR notation.
pub fn validate_cidr(cidr: &str) -> (r: Result<(), HelperError>)
    ensures
        r == cidr_check(cidr@),
{
    let chars = str_chars(cidr);
    let parts = split_chars(chars.as_slice(), '/');
    if parts.len() != 2 {
        return Err(HelperError::CidrFormat);
    }
    assert(parts@[0]@ == split_on(cidr@, '/')[0] && parts@[1]@ == split_on(cidr@, '/')[1]);
    if parse_ipv4_chars(parts[0].as_slice()).is_none() {
        return Err(HelperError::CidrAddress);
    }
    match parse_uint(parts[1].as_slice(), 255) {
        None => Err(HelperError::CidrPrefix),
        Some(n) => if n > 32 { Err(HelperError::CidrPrefixRange) } else { Ok(()) },
    }
}

// ---------------------------------------------------------------------------
// What `setup` and `teardown` run.
// ---------------------------------------------------------------------------

/// The first route, from index `i` on, that fails its check.
pub open spec fn routes_check_from(routes: Seq<Seq<char>>, i: int) -> Result<(), HelperError>
    decreases routes.len() - i,
{
    if i < 0 || i >= routes.len() {
        Ok(())
    } else {
        match cidr_check(routes[i]) {
            Err(e) => Err(e),
            Ok(()) => routes_check_from(routes, i + 1),
        }
    }
}

/// The checks made before `setup` runs anything, in order: the device name,
/// the MTU, then each route.
pub open spec fn setup_check(a: SetupArgs) -> Result<(), HelperError> {
    match device_name_check(a.device@) {
        Err(e) => Err(e),
        Ok(()) => if !(576 <= a.mtu <= 9000) {
            Err(HelperError::MtuRange)
        } else {
            routes_check_from(string_views(a.routes@), 0)
        },
    }
}

/// The views of a list of commands.
pub open spec fn commands_view(c: Seq<Vec<String>>) -> Seq<Seq<Seq<char>>> {
    c.map_values(|v: Vec<String>| string_views(v@))
}

/// `ip route add <route> dev <device>`.
pub open spec fn route_command(route: Seq<char>, device: Seq<char>) -> Seq<Seq<char>> {
    seq!["ip"@, "route"@, "add"@, route, "dev"@, device]
}

/// The commands of `setup`, in order: create the device for the user, give it
/// its address and peer, set its MTU and bring it up, add each route, then the
/// default route through the peer if asked.
pub open spec fn setup_commands_spec(a: SetupArgs) -> Seq<Seq<Seq<char>>> {
    let dev = a.device@;
    seq![
        seq!["ip"@, "tuntap"@, "add"@, "dev"@, dev, "mode"@, "tun"@, "user"@, decimal_text(a.uid as nat)],
        seq!["ip"@, "addr"@, "add"@, ipv4_text(a.local_ip), "peer"@, ipv4_text(a.peer_ip), "dev"@, dev],
        seq!["ip"@, "link"@, "set"@, dev, "mtu"@, decimal_text(a.mtu as nat), "up"@],
    ] + Seq::new(a.routes.len() as nat, |k: int| route_command(a.routes@[k]@, dev)) + match a.default_gw {
        Some(g) => seq![seq!["ip"@, "route"@, "add"@, "default"@, "via"@, ipv4_text(g), "dev"@, dev]],
        None => Seq::empty(),
    }
}

fn push_string(v: &mut Vec<String>, w: String)
    ensures
        string_views(final(v)@) == string_views(old(v)@).push(w@),
{
    let ghost before = string_views(v@);
    let ghost wv = w@;
    v.push(w);
    assert(string_views(v@) =~= before.push(wv));
}

fn push_command(cmds: &mut Vec<Vec<String>>, c: Vec<String>)
    ensures
        commands_view(final(cmds)@) == commands_view(old(cmds)@).push(string_views(c@)),
{
    let ghost before = commands_view(cmds@);
    let ghost cv = string_views(c@);
    cmds.push(c);
    assert(commands_view(cmds@) =~= before.push(cv));
}

fn push_word(v: &mut Vec<String>, w: &str)
    ensures
        string_views(final(v)@) == string_views(old(v)@).push(w@),
{
    let ghost before = string_views(v@);
    v.push(w.to_owned());
    assert(string_views(v@) =~= before.push(w@));
}

/// Check the arguments of `setup`, then list the commands it runs; nothing is
/// listed when a check fails.
pub fn plan_setup(a: &SetupArgs) -> (r: Result<Vec<Vec<String>>, HelperError>)
    ensures
        match r {
            Ok(c) => setup_check(*a) is Ok && commands_view(c@) == setup_commands_spec(*a),
            Err(e) => setup_check(*a) == Err::<(), HelperError>(e),
        },
{
    validate_device_name(a.device.as_str())?;
    validate_mtu(a.mtu)?;
    let mut i: usize = 0;
    let ghost rv = string_views(a.routes@);
    while i < a.routes.len()
        invariant
            i <= a.routes@.len(),
            rv == string_views(a.routes@),
            device_name_check(a.device@) is Ok,
            576 <= a.mtu <= 9000,
            setup_check(*a) == routes_check_from(rv, i as int),
        decreases a.routes@.len() - i,
    {
        assert(rv[i as int] == a.routes@[i as int]@);
        validate_cidr(a.routes[i].as_str())?;
        i = i + 1;
    }
    let dev = a.device.as_str();
    let mut cmds: Vec<Vec<String>> = Vec::new();
    let mut c1: Vec<String> = Vec::new();
    push_word(&mut c1, "ip");
    push_word(&mut c1, "tuntap");
    push_word(&mut c1, "add");
    push_word(&mut c1, "dev");
    push_word(&mut c1, dev);
    push_word(&mut c1, "mode");
    push_word(&mut c1, "tun");
    push_word(&mut c1, "user");
    push_string(&mut c1, u64_to_text(a.uid as u64));
    let mut c2: Vec<String> = Vec::new();
    push_word(&mut c2, "ip");
    push_word(&mut c2, "addr");
    push_word(&mut c2, "add");
    push_string(&mut c2, ipv4_to_string(a.local_ip));
    push_word(&mut c2, "peer");
    push_string(&mut c2, ipv4_to_string(a.peer_ip));
    push_word(&mut c2, "dev");
    push_word(&mut c2, dev);
    let mut c3: Vec<String> = Vec::new();
    push_word(&mut c3, "ip");
    push_word(&mut c3, "link");
    push_word(&mut c3, "set");
    push_word(&mut c3, dev);
    push_word(&mut c3, "mtu");
    push_string(&mut c3, u64_to_text(a.mtu as u64));
    push_word(&mut c3, "up");
    let ghost dv = a.device@;
    let ghost head = seq![
        seq!["ip"@, "tuntap"@, "add"@, "dev"@, dv, "mode"@, "tun"@, "user"@, decimal_text(a.uid as nat)],
        seq!["ip"@, "addr"@, "add"@, ipv4_text(a.local_ip), "peer"@, ipv4_text(a.peer_ip), "dev"@, dv],
        seq!["ip"@, "link"@, "set"@, dv, "mtu"@, decimal_text(a.mtu as nat), "up"@],
    ];
    assert(string_views(c1@) =~= head[0]);
    assert(string_views(c2@) =~= head[1]);
    assert(string_views(c3@) =~= head[2]);
    push_command(&mut cmds, c1);
    push_command(&mut cmds, c2);
    push_command(&mut cmds, c3);
    assert(commands_view(cmds@) =~= head);
    let mut j: usize = 0;
    while j < a.routes.len()
        invariant
            j <= a.routes@.len(),
            dv == a.device@,
            dev@ == dv,
            commands_view(cmds@) == head + Seq::new(j as nat, |k: int| route_command(a.routes@[k]@, dv)),
        decreases a.routes@.len() - j,
    {
        let ghost before = commands_view(cmds@);
        let mut c: Vec<String> = Vec::new();
        push_word(&mut c, "ip");
        push_word(&mut c, "route");
        push_word(&mut c, "add");
        push_string(&mut c, a.routes[j].clone());
        push_word(&mut c, "dev");
        push_word(&mut c, dev);
        assert(string_views(c@) =~= route_command(a.routes@[j as int]@, dv));
        push_command(&mut cmds, c);
        assert(commands_view(cmds@) =~= head + Seq::new((j + 1) as nat, |k: int| route_command(a.routes@[k]@, dv)));
        j = j + 1;
    }
    assert(a.routes@.len() == a.routes.len());
    if let Some(g) = a.default_gw {
        let mut c: Vec<String> = Vec::new();
        push_word(&mut c, "ip");
        push_word(&mut c, "route");
        push_word(&mut c, "add");
        push_word(&mut c, "default");
        push_word(&mut c, "via");
        push_string(&mut c, ipv4_to_string(g));
        push_word(&mut c, "dev");
        push_word(&mut c, dev);
        assert(string_views(c@) =~= seq!["ip"@, "route"@, "add"@, "default"@, "via"@, ipv4_text(g), "dev"@, dv]);
        push_command(&mut cmds, c);
    }
    assert(commands_view(cmds@) =~= setup_commands_spec(*a));
    Ok(cmds)
}

/// `ip tuntap del dev <device> mode tun`: removes the device, also a stale one
/// left by an earlier session before `setup` creates it again.
pub open spec fn tuntap_del_spec(device: Seq<char>) -> Seq<Seq<char>> {
    seq!["ip"@, "tuntap"@, "del"@, "dev"@, device, "mode"@, "tun"@]
}

/// The command that removes a device.
pub fn tuntap_del_command(device: &str) -> (r: Vec<String>)
    ensures
        string_views(r@) == tuntap_del_spec(device@),
{
    let mut c: Vec<String> = Vec::new();
    push_word(&mut c, "ip");
    push_word(&mut c, "tuntap");
    push_word(&mut c, "del");
    push_word(&mut c, "dev");
    push_word(&mut c, device);
    push_word(&mut c, "mode");
    push_word(&mut c, "tun");
    assert(string_views(c@) =~= tuntap_del_spec(device@));
    c
}

/// The commands that point DNS at the tunnel through systemd-resolved.
pub open spec fn resolvectl_setup_spec(device: Seq<char>, dns: Ipv4) -> Seq<Seq<Seq<char>>> {
    seq![
        seq!["resolvectl"@, "dns"@, device, ipv4_text(dns)],
        seq!["resolvectl"@, "domain"@, device, "~."@],
    ]
}

/// The systemd-resolved commands of `setup` for a DNS server.
pub fn resolvectl_setup_commands(device: &str, dns: Ipv4) -> (r: Vec<Vec<String>>)
    ensures
        commands_view(r@) == resolvectl_setup_spec(device@, dns),
{
    let mut c1: Vec<String> = Vec::new();
    push_word(&mut c1, "resolvectl");
    push_word(&mut c1, "dns");
    push_word(&mut c1, device);
    push_string(&mut c1, ipv4_to_string(dns));
    let c2 = {
        let mut c: Vec<String> = Vec::new();
        push_word(&mut c, "resolvectl");
        push_word(&mut c, "domain");
        push_word(&mut c, device);
        push_word(&mut c, "~.");
        c
    };
    let ghost w = resolvectl_setup_spec(device@, dns);
    assert(string_views(c1@) =~= w[0]);
    assert(string_views(c2@) =~= w[1]);
    let mut r: Vec<Vec<String>> = Vec::new();
    push_command(&mut r, c1);
    push_command(&mut r, c2);
    assert(commands_view(r@) =~= w);
    r
}

/// `/etc/resolv.conf` with the tunnel's name server put first.
pub open spec fn resolv_conf_spec(dns: Ipv4, existing: Seq<char>) -> Seq<char> {
    "nameserver "@ + ipv4_text(dns) + "\n"@ + existing
}

/// The new text of `/etc/resolv.conf` when systemd-resolved is not there.
pub fn resolv_conf_with_nameserver(dns: Ipv4, existing: &str) -> (r: String)
    ensures
        r@ == resolv_conf_spec(dns, existing@),
{
    let mut s = "nameserver ".to_owned();
    crate::addr::push_ipv4_text(&mut s, dns);
    let chars = str_chars("\n");
    let rest = str_chars(existing);
    let mut t = s;
    let mut i: usize = 0;
    let ghost start = t@;
    while i < chars.len()
        invariant
            i <= chars@.len(),
            chars@ == "\n"@,
            t@ == start + chars@.take(i as int),
        decreases chars@.len() - i,
    {
        crate::text::push_char(&mut t, chars[i]);
        assert(t@ =~= start + chars@.take(i + 1));
        i = i + 1;
    }
    assert(chars@.take(chars@.len() as int) =~= chars@);
    let ghost mid = t@;
    let mut k: usize = 0;
    while k < rest.len()
        invariant
            k <= rest@.len(),
            rest@ == existing@,
            t@ == mid + rest@.take(k as int),
        decreases rest@.len() - k,
    {
        crate::text::push_char(&mut t, rest[k]);
        assert(t@ =~= mid + rest@.take(k + 1));
        k = k + 1;
    }
    assert(rest@.take(rest@.len() as int) =~= rest@);
    assert(t@ =~= resolv_conf_spec(dns, existing@));
    t
}

/// The commands of `teardown`, in order: flush the device's routes, bring it
/// down, delete it.
pub open spec fn teardown_commands_spec(device: Seq<char>) -> Seq<Seq<Seq<char>>> {
    seq![
        seq!["ip"@, "route"@, "flush"@, "dev"@, device],
        seq!["ip"@, "link"@, "set"@, device, "down"@],
        tuntap_del_spec(device),
    ]
}

/// Check the arguments of `teardown`, then list the commands it runs.
pub fn plan_teardown(t: &TeardownArgs) -> (r: Result<Vec<Vec<String>>, HelperError>)
    ensures
        match r {
            Ok(c) => device_name_check(t.device@) is Ok && commands_view(c@) == teardown_commands_spec(t.device@),
            Err(e) => device_name_check(t.device@) == Err::<(), HelperError>(e),
        },
{
    validate_device_name(t.device.as_str())?;
    let dev = t.device.as_str();
    let mut c1: Vec<String> = Vec::new();
    push_word(&mut c1, "ip");
    push_word(&mut c1, "route");
    push_word(&mut c1, "flush");
    push_word(&mut c1, "dev");
    push_word(&mut c1, dev);
    let mut c2: Vec<String> = Vec::new();
    push_word(&mut c2, "ip");
    push_word(&mut c2, "link");
    push_word(&mut c2, "set");
    push_word(&mut c2, dev);
    push_word(&mut c2, "down");
    let c3 = tuntap_del_command(dev);
    let ghost w = teardown_commands_spec(t.device@);
    assert(string_views(c1@) =~= w[0]);
    assert(string_views(c2@) =~= w[1]);
    let mut r: Vec<Vec<String>> = Vec::new();
    push_command(&mut r, c1);
    push_command(&mut r, c2);
    push_command(&mut r, c3);
    assert(commands_view(r@) =~= w);
    Ok(r)
}

/// `resolvectl revert <device>`, tried when `teardown` restores DNS.
pub fn resolvectl_revert_command(device: &str) -> (r: Vec<String>)
    ensures
        string_views(r@) == seq!["resolvectl"@, "revert"@, device@],
{
    let mut c: Vec<String> = Vec::new();
    push_word(&mut c, "resolvectl");
    push_word(&mut c, "revert");
    push_word(&mut c, device);
    assert(string_views(c@) =~= seq!["resolvectl"@, "revert"@, device@]);
    c
}

// ---------------------------------------------------------------------------
// The capability check.
// ---------------------------------------------------------------------------

/// The bit of `CAP_NET_ADMIN` in a capability set.
pub const CAP_NET_ADMIN: u64 = 0x1000;

/// Whether `s` starts with `p`.
pub open spec fn starts_with(s: Seq<char>, p: Seq<char>) -> bool {
    s.len() >= p.len() && s.take(p.len() as int) == p
}

/// The index of the first line, from `i` on, that starts with `CapEff:`.
pub open spec fn cap_line_from(lines: Seq<Seq<char>>, i: int) -> Option<int>
    decreases lines.len() - i,
{
    if i < 0 || i >= lines.len() {
        None
    } else if starts_with(lines[i], "CapEff:"@) {
        Some(i)
    } else {
        cap_line_from(lines, i + 1)
    }
}

/// What the capability check finds in the text of `/proc/self/status`:
/// the first line that starts with `CapEff:` (lines split at `\n`; a `\r`
/// before it is whitespace and changes no word), its second word without
/// leading `0x`, read as hexadecimal, and whether `CAP_NET_ADMIN` is set in it.
pub open spec fn cap_check_spec(status: Seq<char>) -> Result<bool, HelperError> {
    let lines = split_on(status, '\n');
    match cap_line_from(lines, 0) {
        None => Err(HelperError::CapEffMissing),
        Some(i) => {
            let w = words(lines[i]);
            if w.len() < 2 {
                Err(HelperError::CapEffValueMissing)
            } else {
                match parse_hex_spec(strip_prefixes(w[1], "0x"@)) {
                    None => Err(HelperError::CapEffInvalid),
                    Some(caps) => Ok(caps & CAP_NET_ADMIN != 0),
                }
            }
        },
    }
}

fn chars_start_with(s: &[char], p: &[char]) -> (r: bool)
    ensures
        r == starts_with(s@, p@),
{
    if s.len() < p.len() {
        return false;
    }
    let mut i: usize = 0;
    while i < p.len()
        invariant
            i <= p@.len() <= s@.len(),
            forall|j: int| 0 <= j < i ==> s@[j] == p@[j],
        decreases p@.len() - i,
    {
        if s[i] != p[i] {
            assert(s@.take(p@.len() as int)[i as int] != p@[i as int]);
            return false;
        }
        i = i + 1;
    }
    assert(s@.take(p@.len() as int) =~= p@);
    true
}

fn starts_with_at(s: &[char], start: usize, p: &[char]) -> (r: bool)
    requires
        start <= s@.len(),
    ensures
        r == starts_with(s@.skip(start as int), p@),
{
    if s.len() - start < p.len() {
        return false;
    }
    let mut i: usize = 0;
    while i < p.len()
        invariant
            start <= s@.len(),
            s@.len() <= usize::MAX,
            i <= p@.len() <= s@.len() - start,
            forall|j: int| 0 <= j < i ==> s@[start + j] == p@[j],
        decreases p@.len() - i,
    {
        assert(start + i < s@.len());
        if s[start + i] != p[i] {
            assert(s@.skip(start as int).take(p@.len() as int)[i as int] != p@[i as int]);
            return false;
        }
        i = i + 1;
    }
    assert(s@.skip(start as int).take(p@.len() as int) =~= p@);
    true
}

fn strip_prefix_copies(s: &[char], p: &[char]) -> (r: Vec<char>)
    ensures
        r@ == strip_prefixes(s@, p@),
{
    let mut start: usize = 0;
    let slen: usize = s.len();
    assert(s@.skip(0) =~= s@ && slen == s@.len());
    if p.len() > 0 {
        while starts_with_at(s, start, p)
            invariant
                start <= s@.len(),
                s@.len() <= usize::MAX,
                strip_prefixes(s@, p@) == strip_prefixes(s@.skip(start as int), p@),
                p@.len() > 0,
            decreases s@.len() - start,
        {
            proof {
                let rest = s@.skip(start as int);
                assert(rest.len() >= p@.len());
                assert(rest.skip(p@.len() as int) =~= s@.skip(start + p@.len()));
            }
            start = start + p.len();
        }
    }
    let mut out: Vec<char> = Vec::new();
    let mut k: usize = start;
    while k < s.len()
        invariant
            start <= k <= s@.len(),
            out@ == s@.subrange(start as int, k as int),
        decreases s@.len() - k,
    {
        out.push(s[k]);
        k = k + 1;
    }
    assert(out@ =~= s@.skip(start as int));
    proof {
        let rest = s@.skip(start as int);
        if p@.len() > 0 {
            assert(!(rest.len() >= p@.len() && rest.take(p@.len() as int) == p@));
        }
    }
    out
}

/// Read the effective capability set from the text of `/proc/self/status`
/// and tell whether it holds `CAP_NET_ADMIN`.
pub fn net_admin_in_status(status: &str) -> (r: Result<bool, HelperError>)
    ensures
        r == cap_check_spec(status@),
{
    let chars = str_chars(status);
    let lines = split_chars(chars.as_slice(), '\n');
    let prefix = str_chars("CapEff:");
    let ghost lv = char_vec_views(lines@);
    let mut i: usize = 0;
    while i < lines.len()
        invariant
            i <= lines@.len(),
            lv == char_vec_views(lines@),
            lv == split_on(status@, '\n'),
            prefix@ == "CapEff:"@,
            cap_line_from(lv, 0) == cap_line_from(lv, i as int),
        decreases lines@.len() - i,
    {
        assert(lv[i as int] == lines@[i as int]@);
        if chars_start_with(lines[i].as_slice(), prefix.as_slice()) {
            let w = split_words(lines[i].as_slice());
            if w.len() < 2 {
                return Err(HelperError::CapEffValueMissing);
            }
            assert(char_vecs_view(w@)[1] == w@[1]@);
            let ox = str_chars("0x");
            let hex = strip_prefix_copies(w[1].as_slice(), ox.as_slice());
            return match parse_hex(hex.as_slice()) {
                None => Err(HelperError::CapEffInvalid),
                Some(caps) => Ok(caps & CAP_NET_ADMIN != 0),
            };
        }
        i = i + 1;
    }
    Err(HelperError::CapEffMissing)
}


/// The setup plan adds every route of the arguments, once each and in their
/// order: after the three device commands come exactly `ip route add <r> dev
/// <device>` for each route `r`, then the default route if one is asked, and
/// nothing else.
pub proof fn lemma_setup_plans_every_route(a: SetupArgs)
    ensures
        ({
            let c = setup_commands_spec(a);
            let n = a.routes@.len();
            &&& c.len() == 3 + n + (if a.default_gw is Some { 1int } else { 0int })
            &&& forall|k: int| 0 <= k < n ==>
                c[3 + k] == seq!["ip"@, "route"@, "add"@, (#[trigger] a.routes@[k])@, "dev"@, a.device@]
        }),
{
    let c = setup_commands_spec(a);
    let n = a.routes@.len();
    assert forall|k: int| 0 <= k < n implies
        c[3 + k] == seq!["ip"@, "route"@, "add"@, (#[trigger] a.routes@[k])@, "dev"@, a.device@] by {
        assert(c[3 + k] == route_command(a.routes@[k]@, a.device@));
    }
}

} // verus!
