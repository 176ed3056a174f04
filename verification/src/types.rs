//! The connection profile, and how NetworkManager's VPN settings fill one.
use vstd::prelude::*;
use crate::constants::SSL_PORT;
use crate::helper::string_views;
use crate::text::{copy_string, parse_uint, parse_uint_spec, split_chars, split_on, str_chars, str_eq, char_vec_views};
use crate::words::{trim_chars, trim_spec};

verus! {

/// Everything needed to connect.
#[derive(Debug, Clone)]
pub struct ConnectionProfile {
    pub name: String,
    pub server: String,
    pub port: u16,
    pub username: String,
    pub password: String,
    /// Accept self-signed certificates.
    pub accept_self_signed: bool,
    /// Route everything through the tunnel.
    pub default_gateway: bool,
    /// Route the gateway's /24 network through the tunnel.
    pub route_remote_network: bool,
    /// Further routes, in CIDR notation.
    pub routes: Vec<String>,
    /// Send keepalive pings from the start.
    pub keepalive: bool,
    /// Connect again after a disconnection.
    pub auto_reconnect: bool,
    /// The MRU proposed in LCP; 0 means the default.
    pub mru: u16,
}

/// A profile as a value.
pub struct ProfileView {
    pub name: Seq<char>,
    pub server: Seq<char>,
    pub port: u16,
    pub username: Seq<char>,
    pub password: Seq<char>,
    pub accept_self_signed: bool,
    pub default_gateway: bool,
    pub route_remote_network: bool,
    pub routes: Seq<Seq<char>>,
    pub keepalive: bool,
    pub auto_reconnect: bool,
    pub mru: u16,
}

impl View for ConnectionProfile {
    type V = ProfileView;

    open spec fn view(&self) -> ProfileView {
        ProfileView {
            name: self.name@,
            server: self.server@,
            port: self.port,
            username: self.username@,
            password: self.password@,
            accept_self_signed: self.accept_self_signed,
            default_gateway: self.default_gateway,
            route_remote_network: self.route_remote_network,
            routes: string_views(self.routes@),
            keepalive: self.keepalive,
            auto_reconnect: self.auto_reconnect,
            mru: self.mru,
        }
    }
}

/// The profile a new connection starts from.
pub open spec fn default_profile() -> ProfileView {
    ProfileView {
        name: Seq::empty(),
        server: Seq::empty(),
        port: SSL_PORT,
        username: Seq::empty(),
        password: Seq::empty(),
        accept_self_signed: true,
        default_gateway: false,
        route_remote_network: true,
        routes: Seq::empty(),
        keepalive: false,
        auto_reconnect: false,
        mru: 0,
    }
}

impl Default for ConnectionProfile {
    fn default() -> (r: Self)
        ensures
            r@ == default_profile(),
    {
        let r = ConnectionProfile {
            name: String::new(),
            server: String::new(),
            port: SSL_PORT,
            username: String::new(),
            password: String::new(),
            accept_self_signed: true,
            default_gateway: false,
            route_remote_network: true,
            routes: Vec::new(),
            keepalive: false,
            auto_reconnect: false,
            mru: 0,
        };
        assert(string_views(r.routes@) =~= Seq::<Seq<char>>::empty());
        r
    }
}

/// The `vpn` section of NetworkManager's settings: its `data` and `secrets`
/// string maps as key/value pairs (a map absent or of another type is empty).
pub struct VpnSettings {
    pub data: Vec<(String, String)>,
    pub secrets: Vec<(String, String)>,
}

/// Why NetworkManager's settings make no profile.
#[derive(Debug, Clone, Copy, PartialEq, Eq, Structural)]
pub enum SettingsError {
    /// There is no `vpn` section.
    MissingVpn,
    /// `vpn.data` has no `gateway`.
    MissingGateway,
    /// `vpn.data` has no `username`.
    MissingUsername,
}

/// The views of key/value pairs.
pub open spec fn pairs_view(p: Seq<(String, String)>) -> Seq<(Seq<char>, Seq<char>)> {
    p.map_values(|kv: (String, String)| (kv.0@, kv.1@))
}

/// The value of the first pair with key `key`.
pub open spec fn lookup(p: Seq<(Seq<char>, Seq<char>)>, key: Seq<char>) -> Option<Seq<char>>
    decreases p.len(),
{
    if p.len() == 0 {
        None
    } else if p[0].0 == key {
        Some(p[0].1)
    } else {
        lookup(p.drop_first(), key)
    }
}

/// The non-empty trimmed pieces, in order.
pub open spec fn trimmed_nonempty(parts: Seq<Seq<char>>) -> Seq<Seq<char>>
    decreases parts.len(),
{
    if parts.len() == 0 {
        Seq::empty()
    } else {
        let rest = trimmed_nonempty(parts.drop_last());
        let t = trim_spec(parts.last());
        if t.len() > 0 { rest.push(t) } else { rest }
    }
}

/// The routes of a comma-separated list: each piece trimmed, empty ones dropped.
pub open spec fn route_list_spec(s: Seq<char>) -> Seq<Seq<char>> {
    trimmed_nonempty(split_on(s, ','))
}

/// A number setting: its value if it parses as a `u16`, else `dflt`; `dflt`
/// when absent.
pub open spec fn u16_setting(v: Option<Seq<char>>, dflt: u16) -> u16 {
    match v {
        Some(s) => match parse_uint_spec(s, u16::MAX as nat) {
            Some(n) => n as u16,
            None => dflt,
        },
        None => dflt,
    }
}

/// A yes/no setting that holds only when it is `yes`, `dflt` when absent.
pub open spec fn yes_setting(v: Option<Seq<char>>, dflt: bool) -> bool {
    match v {
        Some(s) => s == "yes"@,
        None => dflt,
    }
}

/// The profile NetworkManager's settings describe. The gateway is checked
/// before the user name.
pub open spec fn settings_profile(vpn: Option<(Seq<(Seq<char>, Seq<char>)>, Seq<(Seq<char>, Seq<char>)>)>)
    -> Result<ProfileView, SettingsError>
{
    match vpn {
        None => Err(SettingsError::MissingVpn),
        Some((data, secrets)) => match (lookup(data, "gateway"@), lookup(data, "username"@)) {
            (None, _) => Err(SettingsError::MissingGateway),
            (Some(_), None) => Err(SettingsError::MissingUsername),
            (Some(gateway), Some(username)) => Ok(ProfileView {
                name: "NM Connection"@,
                server: gateway,
                port: u16_setting(lookup(data, "port"@), SSL_PORT),
                username,
                password: match lookup(secrets, "password"@) {
                    Some(p) => p,
                    None => Seq::empty(),
                },
                accept_self_signed: !yes_setting(lookup(data, "verify-cert"@), false),
                default_gateway: !yes_setting(lookup(data, "never-default"@), true),
                route_remote_network: match lookup(data, "route-remote-network"@) {
                    Some(s) => s != "no"@,
                    None => true,
                },
                routes: match lookup(data, "routes"@) {
                    Some(s) => route_list_spec(s),
                    None => Seq::empty(),
                },
                keepalive: yes_setting(lookup(data, "keepalive"@), false),
                auto_reconnect: yes_setting(lookup(data, "auto-reconnect"@), false),
                mru: u16_setting(lookup(data, "mru"@), 0),
            }),
        },
    }
}

/// The settings as a value.
pub open spec fn vpn_view(vpn: Option<&VpnSettings>) -> Option<(Seq<(Seq<char>, Seq<char>)>, Seq<(Seq<char>, Seq<char>)>)> {
    match vpn {
        Some(v) => Some((pairs_view(v.data@), pairs_view(v.secrets@))),
        None => None,
    }
}

/// Find the value of `key`.
pub fn find_setting<'a>(pairs: &'a [(String, String)], key: &str) -> (r: Option<&'a String>)
    ensures
        match r {
            Some(v) => lookup(pairs_view(pairs@), key@) == Some(v@),
            None => lookup(pairs_view(pairs@), key@) is None,
        },
{
    let ghost pv = pairs_view(pairs@);
    let mut i: usize = 0;
    assert(pv.skip(0) =~= pv);
    while i < pairs.len()
        invariant
            i <= pairs@.len(),
            pv == pairs_view(pairs@),
            lookup(pv, key@) == lookup(pv.skip(i as int), key@),
        decreases pairs@.len() - i,
    {
        assert(pv.skip(i as int)[0] == pv[i as int]);
        assert(pv.skip(i as int).drop_first() =~= pv.skip(i + 1));
        if str_eq(pairs[i].0.as_str(), key) {
            return Some(&pairs[i].1);
        }
        i = i + 1;
    }
    assert(pv.skip(i as int).len() == 0);
    None
}

fn u16_setting_of(v: Option<&String>, dflt: u16) -> (r: u16)
    ensures
        r == u16_setting(match v { Some(s) => Some(s@), None => None }, dflt),
{
    match v {
        Some(s) => {
            let chars = str_chars(s.as_str());
            match parse_uint(chars.as_slice(), u16::MAX as u64) {
                Some(n) => n as u16,
                None => dflt,
            }
        },
        None => dflt,
    }
}

fn yes_setting_of(v: Option<&String>, dflt: bool) -> (r: bool)
    ensures
        r == yes_setting(match v { Some(s) => Some(s@), None => None }, dflt),
{
    match v {
        Some(s) => str_eq(s.as_str(), "yes"),
        None => dflt,
    }
}

/// Split a comma-separated list of routes, trimming each and dropping empty ones.
pub fn route_list(s: &str) -> (r: Vec<String>)
    ensures
        string_views(r@) == route_list_spec(s@),
{
    let chars = str_chars(s);
    let parts = split_chars(chars.as_slice(), ',');
    let ghost pv = char_vec_views(parts@);
    let mut out: Vec<String> = Vec::new();
    let mut i: usize = 0;
    assert(pv.take(0) =~= Seq::<Seq<char>>::empty());
    assert(string_views(out@) =~= Seq::<Seq<char>>::empty());
    while i < parts.len()
        invariant
            i <= parts@.len(),
            pv == char_vec_views(parts@),
            pv == split_on(s@, ','),
            string_views(out@) == trimmed_nonempty(pv.take(i as int)),
        decreases parts@.len() - i,
    {
        let ghost before = string_views(out@);
        let t = trim_chars(parts[i].as_slice());
        proof {
            assert(pv.take(i + 1).drop_last() =~= pv.take(i as int));
            assert(pv.take(i + 1).last() == parts@[i as int]@);
        }
        if t.len() > 0 {
            let ts = crate::text::string_from_chars(t.as_slice());
            out.push(ts);
            assert(string_views(out@) =~= before.push(t@));
        }
        i = i + 1;
    }
    assert(pv.take(parts@.len() as int) =~= pv);
    out
}

/// Fill a profile from NetworkManager's `vpn` settings.
pub fn parse_settings(vpn: Option<&VpnSettings>) -> (r: Result<ConnectionProfile, SettingsError>)
    ensures
        match r {
            Ok(p) => settings_profile(vpn_view(vpn)) == Ok::<ProfileView, SettingsError>(p@),
            Err(e) => settings_profile(vpn_view(vpn)) == Err::<ProfileView, SettingsError>(e),
        },
{
    let v = match vpn {
        Some(v) => v,
        None => return Err(SettingsError::MissingVpn),
    };
    let data = v.data.as_slice();
    let gateway = match find_setting(data, "gateway") {
        Some(g) => copy_string(g),
        None => return Err(SettingsError::MissingGateway),
    };
    let port = u16_setting_of(find_setting(data, "port"), SSL_PORT);
    let username = match find_setting(data, "username") {
        Some(u) => copy_string(u),
        None => return Err(SettingsError::MissingUsername),
    };
    let password = match find_setting(v.secrets.as_slice(), "password") {
        Some(p) => copy_string(p),
        None => String::new(),
    };
    let verify_cert = yes_setting_of(find_setting(data, "verify-cert"), false);
    let mru = u16_setting_of(find_setting(data, "mru"), 0);
    let route_remote_network = match find_setting(data, "route-remote-network") {
        Some(s) => !str_eq(s.as_str(), "no"),
        None => true,
    };
    let never_default = yes_setting_of(find_setting(data, "never-default"), true);
    let keepalive = yes_setting_of(find_setting(data, "keepalive"), false);
    let auto_reconnect = yes_setting_of(find_setting(data, "auto-reconnect"), false);
    let routes = match find_setting(data, "routes") {
        Some(s) => route_list(s.as_str()),
        None => Vec::new(),
    };
    let name = "NM Connection".to_owned();
    let p = ConnectionProfile {
        name,
        server: gateway,
        port,
        username,
        password,
        accept_self_signed: !verify_cert,
        default_gateway: !never_default,
        route_remote_network,
        routes,
        keepalive,
        auto_reconnect,
        mru,
    };
    proof {
        if lookup(pairs_view(v.data@), "routes"@) is None {
            assert(string_views(p.routes@) =~= Seq::<Seq<char>>::empty());
        }
    }
    Ok(p)
}

/// Whether NetworkManager must ask for secrets: the setting to ask for
/// (`vpn`) when `vpn.secrets` has no password, else nothing.
pub fn need_secrets(vpn: Option<&VpnSettings>) -> (r: String)
    ensures
        r@ == (match vpn {
            Some(v) if lookup(pairs_view(v.secrets@), "password"@) is Some => Seq::<char>::empty(),
            _ => "vpn"@,
        }),
{
    match vpn {
        Some(v) => match find_setting(v.secrets.as_slice(), "password") {
            Some(_) => String::new(),
            None => "vpn".to_owned(),
        },
        None => "vpn".to_owned(),
    }
}

} // verus!
