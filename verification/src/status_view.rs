//! The texts that show the state of the tunnel: the headline and detail of
//! each status, the addresses and routing of a connected tunnel, and the
//! connection timer; and the routes field of the profile editor.
use vstd::prelude::*;
use crate::addr::{ipv4_text, push_ipv4_text, Ipv4};
use crate::helper::string_views;
use crate::messages::TunnelStatus;
use crate::text::{decimal_text, lemma_split_concat, lemma_split_single, push_char, push_decimal_text, push_text, split_on};
use crate::types::{route_list_spec, trimmed_nonempty};
use crate::words::{drop_space_back, is_space, skip_space, trim_spec};

verus! {


/// The headline and the detail line of a status; traffic counters change
/// neither, and a connected tunnel has no detail line.
pub open spec fn status_texts_spec(s: TunnelStatus) -> Option<(Seq<char>, Seq<char>)> {
    match s {
        TunnelStatus::Connecting => Some(("Connecting..."@, "Establishing TLS connection"@)),
        TunnelStatus::Handshaking => Some(("Handshaking..."@, "HTTP CONNECT handshake"@)),
        TunnelStatus::NegotiatingLcp => Some(("Negotiating..."@, "LCP negotiation"@)),
        TunnelStatus::Authenticating => Some(("Authenticating..."@, "Verifying credentials"@)),
        TunnelStatus::NegotiatingIpcp => Some(("Negotiating..."@, "IPCP negotiation (IP assignment)"@)),
        TunnelStatus::Connected { .. } => Some(("Connected"@, Seq::empty())),
        TunnelStatus::Disconnecting => Some(("Disconnecting..."@, "Tearing down tunnel"@)),
        TunnelStatus::Disconnected => Some(("Disconnected"@, "Select a profile and connect"@)),
        TunnelStatus::Error(msg) => Some(("Error"@, msg@)),
        TunnelStatus::AuthFailed => Some(("Authentication Failed"@, "Check your username and password"@)),
        TunnelStatus::Stats { .. } => None,
    }
}

fn pair(a: &str, b: &str) -> (r: Option<(String, String)>)
    ensures
        r matches Some(p) && p.0@ == a@ && p.1@ == b@,
{
    Some((a.to_owned(), b.to_owned()))
}

/// The headline and detail line to show for a status.
pub fn status_texts(s: &TunnelStatus) -> (r: Option<(String, String)>)
    ensures
        match (r, status_texts_spec(*s)) {
            (Some(p), Some(q)) => p.0@ == q.0 && p.1@ == q.1,
            (None, None) => true,
            _ => false,
        },
{
    match s {
        TunnelStatus::Connecting => pair("Connecting...", "Establishing TLS connection"),
        TunnelStatus::Handshaking => pair("Handshaking...", "HTTP CONNECT handshake"),
        TunnelStatus::NegotiatingLcp => pair("Negotiating...", "LCP negotiation"),
        TunnelStatus::Authenticating => pair("Authenticating...", "Verifying credentials"),
        TunnelStatus::NegotiatingIpcp => pair("Negotiating...", "IPCP negotiation (IP assignment)"),
        TunnelStatus::Connected { .. } => Some(("Connected".to_owned(), String::new())),
        TunnelStatus::Disconnecting => pair("Disconnecting...", "Tearing down tunnel"),
        TunnelStatus::Disconnected => pair("Disconnected", "Select a profile and connect"),
        TunnelStatus::Error(msg) => pair("Error", msg.as_str()),
        TunnelStatus::AuthFailed => pair("Authentication Failed", "Check your username and password"),
        TunnelStatus::Stats { .. } => None,
    }
}

/// The parts joined with `, `.
pub open spec fn join_comma(parts: Seq<Seq<char>>) -> Seq<char>
    decreases parts.len(),
{
    if parts.len() == 0 {
        Seq::empty()
    } else if parts.len() == 1 {
        parts[0]
    } else {
        join_comma(parts.drop_last()) + ", "@ + parts.last()
    }
}

/// Append the parts joined with `, `.
fn push_joined(out: &mut String, parts: &[String])
    ensures
        final(out)@ == old(out)@ + join_comma(string_views(parts@)),
{
    let ghost pv = string_views(parts@);
    let ghost start = out@;
    let mut k: usize = 0;
    while k < parts.len()
        invariant
            k <= parts@.len(),
            pv == string_views(parts@),
            out@ == start + join_comma(pv.take(k as int)),
        decreases parts@.len() - k,
    {
        if k > 0 {
            push_text(out, ", ");
        }
        push_text(out, parts[k].as_str());
        proof {
            let t = pv.take(k + 1);
            assert(t.drop_last() =~= pv.take(k as int));
            assert(t.last() == parts@[k as int]@);
            if k == 0 {
                assert(pv.take(0) =~= Seq::<Seq<char>>::empty());
                assert(out@ =~= start + join_comma(t));
            } else {
                assert(out@ =~= start + (join_comma(pv.take(k as int)) + ", "@ + parts@[k as int]@));
            }
        }
        k = k + 1;
    }
    assert(pv.take(parts@.len() as int) =~= pv);
}

/// The routes field of the profile editor: the routes joined with `, `.
pub fn routes_text(routes: &[String]) -> (r: String)
    ensures
        r@ == join_comma(string_views(routes@)),
{
    let mut out = String::new();
    push_joined(&mut out, routes);
    assert(out@ =~= join_comma(string_views(routes@)));
    out
}

/// A route as the profile editor shows it: not empty, without a comma, and
/// without whitespace at either end.
pub open spec fn plain_route(r: Seq<char>) -> bool {
    &&& r.len() > 0
    &&& forall|i: int| 0 <= i < r.len() ==> r[i] != ','
    &&& !is_space(r[0])
    &&& !is_space(r.last())
}

/// The pieces of the routes field split at its commas: the first route, then
/// each further route behind the space of its separator.
spec fn field_pieces(routes: Seq<Seq<char>>) -> Seq<Seq<char>>
    decreases routes.len(),
{
    if routes.len() <= 1 {
        routes
    } else {
        field_pieces(routes.drop_last()).push(seq![' '] + routes.last())
    }
}

proof fn lemma_field_split(routes: Seq<Seq<char>>)
    requires
        routes.len() >= 1,
        forall|i: int| 0 <= i < routes.len() ==> plain_route(#[trigger] routes[i]),
    ensures
        split_on(join_comma(routes), ',') == field_pieces(routes),
    decreases routes.len(),
{
    if routes.len() == 1 {
        lemma_split_single(routes[0], ',');
        assert(seq![routes[0]] =~= routes);
    } else {
        let front = routes.drop_last();
        assert forall|i: int| 0 <= i < front.len() implies plain_route(#[trigger] front[i]) by {
            assert(front[i] == routes[i]);
        }
        lemma_field_split(front);
        let last = routes.last();
        assert(plain_route(routes[routes.len() - 1]));
        let tail = seq![' '] + last;
        reveal_strlit(", ");
        assert(join_comma(routes) =~= join_comma(front) + seq![','] + tail);
        lemma_split_concat(join_comma(front), tail, ',');
        assert forall|i: int| 0 <= i < tail.len() implies tail[i] != ',' by {
            if i > 0 {
                assert(tail[i] == last[i - 1]);
            }
        }
        lemma_split_single(tail, ',');
        assert(field_pieces(front) + seq![tail] =~= field_pieces(front).push(tail));
    }
}

proof fn lemma_trim_plain(r: Seq<char>)
    requires
        plain_route(r),
    ensures
        trim_spec(r) == r,
        trim_spec(seq![' '] + r) == r,
{
    assert(skip_space(r, 0) == 0);
    assert(drop_space_back(r, r.len() as int) == r.len());
    assert(r.subrange(0, r.len() as int) =~= r);
    let s = seq![' '] + r;
    assert(s[1] == r[0]);
    assert(skip_space(s, 1) == 1);
    assert(skip_space(s, 0) == 1);
    assert(s[s.len() - 1] == r.last());
    assert(drop_space_back(s, s.len() as int) == s.len());
    assert(s.subrange(1, s.len() as int) =~= r);
}

proof fn lemma_trim_pieces(routes: Seq<Seq<char>>)
    requires
        forall|i: int| 0 <= i < routes.len() ==> plain_route(#[trigger] routes[i]),
    ensures
        trimmed_nonempty(field_pieces(routes)) == routes,
    decreases routes.len(),
{
    if routes.len() == 0 {
        assert(routes =~= Seq::<Seq<char>>::empty());
    } else if routes.len() == 1 {
        assert(plain_route(routes[0]));
        lemma_trim_plain(routes[0]);
        assert(field_pieces(routes).drop_last() =~= Seq::<Seq<char>>::empty());
        assert(trimmed_nonempty(Seq::<Seq<char>>::empty()) == Seq::<Seq<char>>::empty());
        assert(field_pieces(routes).last() == routes[0]);
        assert(Seq::<Seq<char>>::empty().push(routes[0]) =~= routes);
    } else {
        let front = routes.drop_last();
        assert forall|i: int| 0 <= i < front.len() implies plain_route(#[trigger] front[i]) by {
            assert(front[i] == routes[i]);
        }
        lemma_trim_pieces(front);
        assert(plain_route(routes[routes.len() - 1]));
        lemma_trim_plain(routes.last());
        let fp = field_pieces(routes);
        assert(fp.drop_last() =~= field_pieces(front));
        assert(fp.last() == seq![' '] + routes.last());
        assert(trim_spec(fp.last()) == routes.last());
        assert(trimmed_nonempty(fp) == trimmed_nonempty(field_pieces(front)).push(routes.last()));
        assert(front.push(routes.last()) =~= routes);
    }
}

/// Opening the profile editor and saving without touching the routes field
/// keeps the routes: the field's text, split at its commas and trimmed, gives
/// back the same list.
pub proof fn lemma_routes_field_roundtrip(routes: Seq<Seq<char>>)
    requires
        forall|i: int| 0 <= i < routes.len() ==> plain_route(#[trigger] routes[i]),
    ensures
        route_list_spec(join_comma(routes)) == routes,
{
    if routes.len() == 0 {
        assert(join_comma(routes) =~= Seq::<char>::empty());
        assert(trim_spec(Seq::<char>::empty()) =~= Seq::<char>::empty());
        assert(seq![Seq::<char>::empty()].drop_last() =~= Seq::<Seq<char>>::empty());
        assert(split_on(Seq::<char>::empty(), ',') == seq![Seq::<char>::empty()]);
        assert(trimmed_nonempty(Seq::<Seq<char>>::empty()) == Seq::<Seq<char>>::empty());
        assert(trimmed_nonempty(seq![Seq::<char>::empty()]) == Seq::<Seq<char>>::empty());
        assert(routes =~= Seq::<Seq<char>>::empty());
    } else {
        lemma_field_split(routes);
        lemma_trim_pieces(routes);
    }
}

/// What is routed through the tunnel: everything with the default route;
/// else the gateway's network and the further routes, or nothing.
pub open spec fn routing_text_spec(default_gateway: bool, remote_route: Option<Seq<char>>, routes: Seq<Seq<char>>) -> Seq<char> {
    if default_gateway {
        "Routing: All traffic (default gateway)"@
    } else {
        let parts = match remote_route {
            Some(r) => seq!["Remote network ("@ + r + ")"@] + routes,
            None => routes,
        };
        if parts.len() == 0 {
            "Routing: None (no traffic routed through tunnel)"@
        } else {
            "Routing: "@ + join_comma(parts)
        }
    }
}

/// The routing line of a connected tunnel.
pub fn routing_text(default_gateway: bool, remote_route: Option<&str>, routes: &[String]) -> (r: String)
    ensures
        r@ == routing_text_spec(default_gateway, match remote_route { Some(s) => Some(s@), None => None }, string_views(routes@)),
{
    if default_gateway {
        return "Routing: All traffic (default gateway)".to_owned();
    }
    let ghost rv = string_views(routes@);
    let mut parts: Vec<String> = Vec::new();
    if let Some(r) = remote_route {
        let mut first = "Remote network (".to_owned();
        push_text(&mut first, r);
        push_text(&mut first, ")");
        parts.push(first);
    }
    let ghost head = string_views(parts@);
    let mut i: usize = 0;
    while i < routes.len()
        invariant
            i <= routes@.len(),
            rv == string_views(routes@),
            string_views(parts@) == head + rv.take(i as int),
        decreases routes@.len() - i,
    {
        let ghost before = string_views(parts@);
        let c = routes[i].clone();
        parts.push(c);
        assert(string_views(parts@) =~= before.push(rv[i as int]));
        assert(string_views(parts@) =~= head + rv.take(i + 1));
        i = i + 1;
    }
    assert(rv.take(routes@.len() as int) =~= rv);
    let ghost pv = string_views(parts@);
    proof {
        match remote_route {
            Some(r) => assert(pv =~= seq!["Remote network ("@ + r@ + ")"@] + rv),
            None => assert(pv =~= rv),
        }
    }
    if parts.len() == 0 {
        return "Routing: None (no traffic routed through tunnel)".to_owned();
    }
    let mut out = "Routing: ".to_owned();
    push_joined(&mut out, parts.as_slice());
    out
}

/// The address lines of a connected tunnel.
pub open spec fn address_texts_spec(local: Ipv4, remote: Ipv4, dns: Option<Ipv4>, mtu: u16, local_mru: u16, remote_mru: u16) -> Seq<Seq<char>> {
    seq![
        "IP: "@ + ipv4_text(local),
        "Gateway: "@ + ipv4_text(remote),
        match dns {
            Some(d) => "DNS: "@ + ipv4_text(d),
            None => "DNS: none"@,
        },
        "MTU: "@ + decimal_text(mtu as nat) + "  (ours: "@ + decimal_text(local_mru as nat) + " / router: "@
            + decimal_text(remote_mru as nat) + ")"@,
    ]
}

/// The address, gateway, DNS and MTU lines of a connected tunnel.
pub fn address_texts(local: Ipv4, remote: Ipv4, dns: Option<Ipv4>, mtu: u16, local_mru: u16, remote_mru: u16) -> (r: Vec<String>)
    ensures
        string_views(r@) == address_texts_spec(local, remote, dns, mtu, local_mru, remote_mru),
{
    let mut ip = "IP: ".to_owned();
    push_ipv4_text(&mut ip, local);
    let mut gw = "Gateway: ".to_owned();
    push_ipv4_text(&mut gw, remote);
    let dns_line = match dns {
        Some(d) => {
            let mut s = "DNS: ".to_owned();
            push_ipv4_text(&mut s, d);
            s
        },
        None => "DNS: none".to_owned(),
    };
    let mut m = "MTU: ".to_owned();
    push_decimal_text(&mut m, mtu as u64);
    push_text(&mut m, "  (ours: ");
    push_decimal_text(&mut m, local_mru as u64);
    push_text(&mut m, " / router: ");
    push_decimal_text(&mut m, remote_mru as u64);
    push_text(&mut m, ")");
    let ghost w = address_texts_spec(local, remote, dns, mtu, local_mru, remote_mru);
    assert(ip@ =~= w[0]);
    assert(gw@ =~= w[1]);
    assert(dns_line@ =~= w[2]);
    assert(m@ =~= w[3]);
    let mut r: Vec<String> = Vec::new();
    r.push(ip);
    r.push(gw);
    r.push(dns_line);
    r.push(m);
    assert(string_views(r@) =~= w);
    r
}

/// Two digits at least: a leading zero below 10.
pub open spec fn two_digits(n: nat) -> Seq<char> {
    if n < 10 { seq!['0'] + decimal_text(n) } else { decimal_text(n) }
}

/// The connection timer `HH:MM:SS` for a number of seconds; hours past 99
/// take more digits.
pub open spec fn elapsed_text_spec(secs: u64) -> Seq<char> {
    two_digits((secs / 3600) as nat) + seq![':'] + two_digits(((secs % 3600) / 60) as nat) + seq![':']
        + two_digits((secs % 60) as nat)
}

fn push_two_digits(out: &mut String, n: u64)
    ensures
        final(out)@ == old(out)@ + two_digits(n as nat),
{
    if n < 10 {
        push_char(out, '0');
    }
    let ghost mid = out@;
    push_decimal_text(out, n);
    assert(final(out)@ =~= old(out)@ + two_digits(n as nat));
}

/// The connection timer text.
pub fn elapsed_text(secs: u64) -> (r: String)
    ensures
        r@ == elapsed_text_spec(secs),
{
    let mut s = String::new();
    push_two_digits(&mut s, secs / 3600);
    push_char(&mut s, ':');
    push_two_digits(&mut s, (secs % 3600) / 60);
    push_char(&mut s, ':');
    push_two_digits(&mut s, secs % 60);
    assert(s@ =~= elapsed_text_spec(secs));
    s
}

/// The packet size lines of the traffic counters.
pub open spec fn packet_texts_spec(oversized_tx: u64, oversized_rx: u64, max_packet_tx: usize, max_packet_rx: usize) -> (Seq<char>, Seq<char>) {
    (
        "Oversized: "@ + decimal_text(oversized_tx as nat) + " TX / "@ + decimal_text(oversized_rx as nat) + " RX"@,
        "Max pkt: "@ + decimal_text(max_packet_tx as nat) + " TX / "@ + decimal_text(max_packet_rx as nat) + " RX"@,
    )
}

/// The oversized-packet and largest-packet lines.
pub fn packet_texts(oversized_tx: u64, oversized_rx: u64, max_packet_tx: usize, max_packet_rx: usize) -> (r: (String, String))
    requires
        max_packet_tx <= u64::MAX,
        max_packet_rx <= u64::MAX,
    ensures
        (r.0@, r.1@) == packet_texts_spec(oversized_tx, oversized_rx, max_packet_tx, max_packet_rx),
{
    let mut a = "Oversized: ".to_owned();
    push_decimal_text(&mut a, oversized_tx);
    push_text(&mut a, " TX / ");
    push_decimal_text(&mut a, oversized_rx);
    push_text(&mut a, " RX");
    let mut b = "Max pkt: ".to_owned();
    push_decimal_text(&mut b, max_packet_tx as u64);
    push_text(&mut b, " TX / ");
    push_decimal_text(&mut b, max_packet_rx as u64);
    push_text(&mut b, " RX");
    let ghost w = packet_texts_spec(oversized_tx, oversized_rx, max_packet_tx, max_packet_rx);
    assert(a@ =~= w.0);
    assert(b@ =~= w.1);
    (a, b)
}

} // verus!
