//! Routes in CIDR notation.
use vstd::prelude::*;
use crate::addr::{parse_ipv4_chars, parse_ipv4_spec, Ipv4};
use crate::error::ProtoError;
use crate::text::{decimal_text, parse_uint, parse_uint_spec, push_char, push_decimal_text, split_chars, split_on, str_chars, string_from_chars};

verus! {

/// `parse_cidr`: exactly one `/`, and a prefix length that parses as a `u8`.
pub open spec fn parse_cidr_spec(s: Seq<char>) -> Result<(Seq<char>, u8), ProtoError> {
    let p = split_on(s, '/');
    if p.len() != 2 {
        Err(ProtoError::InvalidCidr)
    } else {
        match parse_uint_spec(p[1], 255) {
            None => Err(ProtoError::InvalidPrefix),
            Some(v) => Ok((p[0], v as u8)),
        }
    }
}

/// Parse a CIDR route string like "10.0.0.0/8" into the address text and the
/// prefix length. The address is not checked.
pub fn parse_cidr(cidr: &str) -> (r: Result<(String, u8), ProtoError>)
    ensures
        match r {
            Ok((ip, prefix)) => parse_cidr_spec(cidr@) == Ok::<(Seq<char>, u8), ProtoError>((ip@, prefix)),
            Err(e) => parse_cidr_spec(cidr@) == Err::<(Seq<char>, u8), ProtoError>(e),
        },
{
    let chars = str_chars(cidr);
    let parts = split_chars(chars.as_slice(), '/');
    if parts.len() != 2 {
        return Err(ProtoError::InvalidCidr);
    }
    assert(parts@[0]@ == split_on(cidr@, '/')[0] && parts@[1]@ == split_on(cidr@, '/')[1]);
    let prefix = match parse_uint(parts[1].as_slice(), 255) {
        Some(v) => v as u8,
        None => return Err(ProtoError::InvalidPrefix),
    };
    Ok((string_from_chars(parts[0].as_slice()), prefix))
}

/// A route as NetworkManager takes it: address and prefix length of at most
/// 32; text after the first `/` must be the prefix alone.
pub open spec fn parse_route_spec(s: Seq<char>) -> Option<(Seq<u8>, u32)> {
    let p = split_on(s, '/');
    if p.len() != 2 {
        None
    } else {
        match (parse_ipv4_spec(p[0]), parse_uint_spec(p[1], u32::MAX as nat)) {
            (Some(a), Some(n)) => if n <= 32 { Some((a, n as u32)) } else { None },
            _ => None,
        }
    }
}

/// Parse a route like "192.168.1.0/24" into address and prefix length.
pub fn parse_route(s: &str) -> (r: Option<(Ipv4, u32)>)
    ensures
        match r {
            Some((ip, n)) => parse_route_spec(s@) == Some((ip.octet_seq(), n)),
            None => parse_route_spec(s@) is None,
        },
{
    let chars = str_chars(s);
    let parts = split_chars(chars.as_slice(), '/');
    if parts.len() != 2 {
        return None;
    }
    assert(parts@[0]@ == split_on(s@, '/')[0] && parts@[1]@ == split_on(s@, '/')[1]);
    let addr = match parse_ipv4_chars(parts[0].as_slice()) {
        Some(a) => a,
        None => return None,
    };
    let prefix = match parse_uint(parts[1].as_slice(), u32::MAX as u64) {
        Some(v) => v,
        None => return None,
    };
    if prefix > 32 {
        return None;
    }
    Some((addr, prefix as u32))
}

/// The /24 network of an address, as a route: "a.b.c.0/24".
pub open spec fn remote_network_text(ip: Ipv4) -> Seq<char> {
    decimal_text(ip.a as nat) + seq!['.'] + decimal_text(ip.b as nat) + seq!['.'] + decimal_text(ip.c as nat)
        + seq!['.', '0', '/', '2', '4']
}

/// The route to the remote gateway's /24 subnet.
pub fn remote_network_route(ip: Ipv4) -> (r: String)
    ensures
        r@ == remote_network_text(ip),
{
    let mut s = String::new();
    push_decimal_text(&mut s, ip.a as u64);
    push_char(&mut s, '.');
    push_decimal_text(&mut s, ip.b as u64);
    push_char(&mut s, '.');
    push_decimal_text(&mut s, ip.c as u64);
    push_char(&mut s, '.');
    push_char(&mut s, '0');
    push_char(&mut s, '/');
    push_char(&mut s, '2');
    push_char(&mut s, '4');
    assert(s@ =~= remote_network_text(ip));
    s
}

/// An address as NetworkManager's D-Bus API takes it: network byte order read
/// as a little-endian `u32`.
pub open spec fn nm_address_value(ip: Ipv4) -> u32 {
    (ip.a as int + ip.b as int * 256 + ip.c as int * 65536 + ip.d as int * 16777216) as u32
}

/// The NetworkManager `u32` of an address.
pub fn nm_address(ip: Ipv4) -> (r: u32)
    ensures
        r == nm_address_value(ip),
{
    ip.a as u32 + ip.b as u32 * 256 + ip.c as u32 * 65536 + ip.d as u32 * 16777216
}

/// The routes that NetworkManager receives, `[destination, prefix, next hop, metric]`,
/// for the routes that parse, in order; the others are left out.
pub open spec fn nm_routes_spec(routes: Seq<Seq<char>>) -> Seq<Seq<u32>>
    decreases routes.len(),
{
    if routes.len() == 0 {
        Seq::empty()
    } else {
        let r = nm_routes_spec(routes.drop_last());
        match parse_route_spec(routes.last()) {
            Some((a, n)) => r.push(seq![(a[0] as int + a[1] as int * 256 + a[2] as int * 65536 + a[3] as int * 16777216) as u32, n, 0u32, 0u32]),
            None => r,
        }
    }
}

/// The routes to hand to NetworkManager.
pub fn nm_routes(routes: &Vec<String>) -> (r: Vec<Vec<u32>>)
    ensures
        r@.map_values(|x: Vec<u32>| x@) == nm_routes_spec(routes@.map_values(|s: String| s@)),
{
    let ghost rv = routes@.map_values(|s: String| s@);
    let mut out: Vec<Vec<u32>> = Vec::new();
    let mut i: usize = 0;
    while i < routes.len()
        invariant
            i <= routes@.len(),
            rv == routes@.map_values(|s: String| s@),
            out@.map_values(|x: Vec<u32>| x@) == nm_routes_spec(rv.take(i as int)),
        decreases routes@.len() - i,
    {
        proof {
            assert(rv.take(i + 1).drop_last() =~= rv.take(i as int));
            assert(rv.take(i + 1).last() == routes@[i as int]@);
        }
        match parse_route(routes[i].as_str()) {
            Some((addr, prefix)) => {
                let mut entry: Vec<u32> = Vec::new();
                entry.push(nm_address(addr));
                entry.push(prefix);
                entry.push(0u32);
                entry.push(0u32);
                let ghost before = out@.map_values(|x: Vec<u32>| x@);
                out.push(entry);
                proof {
                    assert(addr.octet_seq()[0] == addr.a && addr.octet_seq()[1] == addr.b);
                    assert(addr.octet_seq()[2] == addr.c && addr.octet_seq()[3] == addr.d);
                    assert(entry@ =~= seq![nm_address_value(addr), prefix, 0u32, 0u32]);
                    assert(out@.map_values(|x: Vec<u32>| x@) =~= before.push(entry@));
                }
            },
            None => {},
        }
        i = i + 1;
    }
    assert(rv.take(rv.len() as int) =~= rv);
    out
}

/// The routes through the tunnel: the gateway's /24 network first when asked
/// for, then the profile's own routes in order.
pub open spec fn tunnel_routes_spec(remote: Ipv4, route_remote_network: bool, extra: Seq<Seq<char>>) -> Seq<Seq<char>> {
    if route_remote_network {
        seq![remote_network_text(remote)] + extra
    } else {
        extra
    }
}

/// The routes to set up for a tunnel.
pub fn tunnel_routes(remote: Ipv4, route_remote_network: bool, extra: &[String]) -> (r: Vec<String>)
    ensures
        r@.map_values(|s: String| s@) == tunnel_routes_spec(remote, route_remote_network, extra@.map_values(|s: String| s@)),
{
    let ghost ev = extra@.map_values(|s: String| s@);
    let mut out: Vec<String> = Vec::new();
    if route_remote_network {
        out.push(remote_network_route(remote));
    }
    let ghost head = out@.map_values(|s: String| s@);
    let mut i: usize = 0;
    while i < extra.len()
        invariant
            i <= extra@.len(),
            ev == extra@.map_values(|s: String| s@),
            out@.map_values(|s: String| s@) == head + ev.take(i as int),
        decreases extra@.len() - i,
    {
        let ghost before = out@.map_values(|s: String| s@);
        let c = extra[i].clone();
        out.push(c);
        assert(out@.map_values(|s: String| s@) =~= before.push(ev[i as int]));
        assert(out@.map_values(|s: String| s@) =~= head + ev.take(i + 1));
        i = i + 1;
    }
    assert(ev.take(extra@.len() as int) =~= ev);
    assert(out@.map_values(|s: String| s@) =~= tunnel_routes_spec(remote, route_remote_network, ev));
    out
}

/// The IPv4 settings handed to NetworkManager, in its own encoding.
pub struct NmIp4Config {
    /// Our address.
    pub address: u32,
    /// Its prefix length: always 32, a point-to-point link.
    pub prefix: u32,
    /// The peer.
    pub gateway: u32,
    /// The DNS server, if one was assigned.
    pub dns: Option<u32>,
    /// Keep the default route off the tunnel.
    pub never_default: bool,
    /// The routes that parse, as `[destination, prefix, next hop, metric]`
    /// (none at all is left out of the settings).
    pub routes: Vec<Vec<u32>>,
}

/// The IPv4 settings of a negotiated tunnel for NetworkManager.
pub fn nm_ip4_config(local: Ipv4, remote: Ipv4, dns: Option<Ipv4>, default_gateway: bool, routes: &Vec<String>) -> (r: NmIp4Config)
    ensures
        r.address == nm_address_value(local),
        r.prefix == 32,
        r.gateway == nm_address_value(remote),
        r.dns == (match dns { Some(d) => Some(nm_address_value(d)), None => None::<u32> }),
        r.never_default == !default_gateway,
        r.routes@.map_values(|x: Vec<u32>| x@) == nm_routes_spec(routes@.map_values(|s: String| s@)),
{
    let dns_value = match dns {
        Some(d) => Some(nm_address(d)),
        None => None,
    };
    NmIp4Config {
        address: nm_address(local),
        prefix: 32,
        gateway: nm_address(remote),
        dns: dns_value,
        never_default: !default_gateway,
        routes: nm_routes(routes),
    }
}

} // verus!
