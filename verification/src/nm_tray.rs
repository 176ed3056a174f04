//! The decisions of the NetworkManager tray indicator: how the states that
//! NetworkManager reports for a DrayTek connection map to what the tray shows,
//! which saved connections are ours, and the tray's tooltip, icon and menu.
//! The D-Bus traffic and the tray protocol stay with the program; it hands
//! these functions what it read and acts on what they return.
use vstd::prelude::*;
use crate::helper::string_views;
use crate::text::{copy_string, push_decimal_text, push_text, str_eq, decimal_text};

verus! {

/// The NetworkManager VPN service type of DrayTek connections.
pub const SERVICE_TYPE: &'static str = "org.freedesktop.NetworkManager.draytek";

/// The name shown for a saved connection that has none.
pub const DEFAULT_VPN_NAME: &'static str = "DrayTek VPN";

/// NetworkManager's VPN connection states.
pub const VPN_STATE_UNKNOWN: u32 = 0;
pub const VPN_STATE_PREPARE: u32 = 1;
pub const VPN_STATE_NEED_AUTH: u32 = 2;
pub const VPN_STATE_CONNECT: u32 = 3;
pub const VPN_STATE_IP_CONFIG_GET: u32 = 4;
pub const VPN_STATE_ACTIVATED: u32 = 5;
pub const VPN_STATE_FAILED: u32 = 6;
pub const VPN_STATE_DISCONNECTED: u32 = 7;

/// NetworkManager's active connection states.
pub const ACTIVE_STATE_ACTIVATING: u32 = 1;
pub const ACTIVE_STATE_ACTIVATED: u32 = 2;
pub const ACTIVE_STATE_DEACTIVATING: u32 = 3;
pub const ACTIVE_STATE_DEACTIVATED: u32 = 4;

/// What the tray knows of the DrayTek connection.
#[derive(Debug, Clone)]
pub enum VpnState {
    Disconnected,
    Connecting { name: String },
    Connected { name: String, ip: String, gateway: String, routes: Vec<String>, connected_at: u64 },
    Disconnecting,
}

/// The state as a value.
pub enum VpnStateView {
    Disconnected,
    Connecting { name: Seq<char> },
    Connected { name: Seq<char>, ip: Seq<char>, gateway: Seq<char>, routes: Seq<Seq<char>>, connected_at: u64 },
    Disconnecting,
}

impl View for VpnState {
    type V = VpnStateView;

    open spec fn view(&self) -> VpnStateView {
        match self {
            VpnState::Disconnected => VpnStateView::Disconnected,
            VpnState::Connecting { name } => VpnStateView::Connecting { name: name@ },
            VpnState::Connected { name, ip, gateway, routes, connected_at } => VpnStateView::Connected {
                name: name@,
                ip: ip@,
                gateway: gateway@,
                routes: string_views(routes@),
                connected_at: *connected_at,
            },
            VpnState::Disconnecting => VpnStateView::Disconnecting,
        }
    }
}

impl Default for VpnState {
    fn default() -> (r: Self)
        ensures
            r@ == VpnStateView::Disconnected,
    {
        VpnState::Disconnected
    }
}

// ---------------------------------------------------------------------------
// NetworkManager states.
// ---------------------------------------------------------------------------

/// The VPN state to start from, given the active connection's state when
/// watching begins.
pub open spec fn initial_vpn_state_spec(active_state: u32) -> u32 {
    if active_state == ACTIVE_STATE_ACTIVATED {
        VPN_STATE_ACTIVATED
    } else if active_state == ACTIVE_STATE_ACTIVATING {
        VPN_STATE_CONNECT
    } else if active_state == ACTIVE_STATE_DEACTIVATING || active_state == ACTIVE_STATE_DEACTIVATED {
        VPN_STATE_DISCONNECTED
    } else {
        VPN_STATE_UNKNOWN
    }
}

/// The VPN state to start from when watching a connection begins.
pub fn initial_vpn_state(active_state: u32) -> (r: u32)
    ensures
        r == initial_vpn_state_spec(active_state),
{
    if active_state == ACTIVE_STATE_ACTIVATED {
        VPN_STATE_ACTIVATED
    } else if active_state == ACTIVE_STATE_ACTIVATING {
        VPN_STATE_CONNECT
    } else if active_state == ACTIVE_STATE_DEACTIVATING || active_state == ACTIVE_STATE_DEACTIVATED {
        VPN_STATE_DISCONNECTED
    } else {
        VPN_STATE_UNKNOWN
    }
}

/// What a VPN state change means for the tray.
#[derive(Debug, Clone, Copy, PartialEq, Eq, Structural)]
pub enum StateChange {
    /// The connection is being set up.
    Connecting,
    /// The connection is up: its address, gateway, routes and start time are
    /// to be read.
    Activated,
    /// The connection is down.
    Down,
}

/// The meaning of a VPN state code; `None` for codes the tray ignores.
pub open spec fn state_change_spec(code: u32) -> Option<StateChange> {
    if code == VPN_STATE_PREPARE || code == VPN_STATE_NEED_AUTH || code == VPN_STATE_CONNECT
        || code == VPN_STATE_IP_CONFIG_GET {
        Some(StateChange::Connecting)
    } else if code == VPN_STATE_ACTIVATED {
        Some(StateChange::Activated)
    } else if code == VPN_STATE_FAILED || code == VPN_STATE_DISCONNECTED || code == VPN_STATE_UNKNOWN {
        Some(StateChange::Down)
    } else {
        None
    }
}

/// The meaning of a VPN state code reported by NetworkManager.
pub fn state_change(code: u32) -> (r: Option<StateChange>)
    ensures
        r == state_change_spec(code),
{
    if code == VPN_STATE_PREPARE || code == VPN_STATE_NEED_AUTH || code == VPN_STATE_CONNECT
        || code == VPN_STATE_IP_CONFIG_GET {
        Some(StateChange::Connecting)
    } else if code == VPN_STATE_ACTIVATED {
        Some(StateChange::Activated)
    } else if code == VPN_STATE_FAILED || code == VPN_STATE_DISCONNECTED || code == VPN_STATE_UNKNOWN {
        Some(StateChange::Down)
    } else {
        None
    }
}

/// Whether watching a connection ends after this state: it failed or is down.
pub fn watch_ends(code: u32) -> (r: bool)
    ensures
        r == (code == VPN_STATE_DISCONNECTED || code == VPN_STATE_FAILED),
{
    code == VPN_STATE_DISCONNECTED || code == VPN_STATE_FAILED
}

/// The string of an optional one, empty if absent.
pub open spec fn or_empty(s: Option<Seq<char>>) -> Seq<char> {
    match s {
        Some(t) => t,
        None => Seq::empty(),
    }
}

fn take_or_empty(s: Option<String>) -> (r: String)
    ensures
        r@ == or_empty(match s { Some(t) => Some(t@), None => None }),
{
    match s {
        Some(t) => t,
        None => String::new(),
    }
}

/// The state of the connection `name` once it is up, from what could be read
/// of it: a missing address, gateway or route list is left empty, a missing
/// start time is 0.
pub fn connected_state(name: &str, ip: Option<String>, gateway: Option<String>, routes: Option<Vec<String>>, connected_at: Option<u64>) -> (r: VpnState)
    ensures
        r@ == (VpnStateView::Connected {
            name: name@,
            ip: or_empty(match ip { Some(t) => Some(t@), None => None }),
            gateway: or_empty(match gateway { Some(t) => Some(t@), None => None }),
            routes: match routes { Some(v) => string_views(v@), None => Seq::empty() },
            connected_at: match connected_at { Some(t) => t, None => 0 },
        }),
{
    let routes = match routes {
        Some(v) => v,
        None => {
            let v: Vec<String> = Vec::new();
            assert(string_views(v@) =~= Seq::<Seq<char>>::empty());
            v
        },
    };
    let at = match connected_at {
        Some(t) => t,
        None => 0,
    };
    VpnState::Connected {
        name: name.to_owned(),
        ip: take_or_empty(ip),
        gateway: take_or_empty(gateway),
        routes,
        connected_at: at,
    }
}

/// The state the tray moves to on a VPN state code, for the codes that do not
/// need the connection's details read: `None` when the code is ignored or the
/// connection came up (then the details are read and `connected_state` gives
/// the state).
pub fn plain_state_change(code: u32, name: &str) -> (r: Option<VpnState>)
    ensures
        match r {
            Some(s) => {
                ||| state_change_spec(code) == Some(StateChange::Connecting) && s@ == (VpnStateView::Connecting { name: name@ })
                ||| state_change_spec(code) == Some(StateChange::Down) && s@ == VpnStateView::Disconnected
            },
            None => state_change_spec(code) is None || state_change_spec(code) == Some(StateChange::Activated),
        },
{
    match state_change(code) {
        Some(StateChange::Connecting) => Some(VpnState::Connecting { name: name.to_owned() }),
        Some(StateChange::Down) => Some(VpnState::Disconnected),
        _ => None,
    }
}

/// Whether a connection's VPN service is the DrayTek one.
pub fn is_draytek_service(service: &str) -> (r: bool)
    ensures
        r == (service@ == SERVICE_TYPE@),
{
    str_eq(service, SERVICE_TYPE)
}

/// The name of a saved connection: its id, else the default name.
pub fn saved_vpn_name(id: Option<&str>) -> (r: String)
    ensures
        r@ == (match id { Some(s) => s@, None => DEFAULT_VPN_NAME@ }),
{
    match id {
        Some(s) => s.to_owned(),
        None => DEFAULT_VPN_NAME.to_owned(),
    }
}

/// The gateway shown for a connection: `gateway:port`, port 443 if none is set.
pub open spec fn gateway_text_spec(gateway: Seq<char>, port: Option<Seq<char>>) -> Seq<char> {
    gateway + ":"@ + match port {
        Some(p) => p,
        None => "443"@,
    }
}

/// The gateway shown for a connection, from its `gateway` and `port` settings.
pub fn gateway_text(gateway: &str, port: Option<&str>) -> (r: String)
    ensures
        r@ == gateway_text_spec(gateway@, match port { Some(p) => Some(p@), None => None }),
{
    let mut out = gateway.to_owned();
    push_text(&mut out, ":");
    match port {
        Some(p) => push_text(&mut out, p),
        None => push_text(&mut out, "443"),
    }
    out
}

/// A route entry as shown: `dest/prefix`.
pub open spec fn route_entry_text(dest: Seq<char>, prefix: u32) -> Seq<char> {
    dest + "/"@ + decimal_text(prefix as nat)
}

/// The route entries that have both a destination and a prefix, as text.
pub open spec fn route_entry_texts(entries: Seq<(Option<Seq<char>>, Option<u32>)>) -> Seq<Seq<char>>
    decreases entries.len(),
{
    if entries.len() == 0 {
        Seq::empty()
    } else {
        let rest = route_entry_texts(entries.drop_last());
        match entries.last() {
            (Some(d), Some(p)) => rest.push(route_entry_text(d, p)),
            _ => rest,
        }
    }
}

/// The route entries as values.
pub open spec fn entry_views(entries: Seq<(Option<String>, Option<u32>)>) -> Seq<(Option<Seq<char>>, Option<u32>)> {
    entries.map_values(|e: (Option<String>, Option<u32>)| (match e.0 { Some(d) => Some(d@), None => None }, e.1))
}

/// The routes of a connection from its route entries (destination and
/// prefix, either possibly missing): each complete entry as `dest/prefix`;
/// `None` when there is none.
pub fn route_texts(entries: &[(Option<String>, Option<u32>)]) -> (r: Option<Vec<String>>)
    ensures
        ({
            let t = route_entry_texts(entry_views(entries@));
            match r {
                Some(v) => t.len() > 0 && string_views(v@) == t,
                None => t.len() == 0,
            }
        }),
{
    let ghost ev = entry_views(entries@);
    let mut out: Vec<String> = Vec::new();
    let mut i: usize = 0;
    assert(ev.take(0) =~= Seq::<(Option<Seq<char>>, Option<u32>)>::empty());
    assert(string_views(out@) =~= Seq::<Seq<char>>::empty());
    while i < entries.len()
        invariant
            i <= entries@.len(),
            ev == entry_views(entries@),
            string_views(out@) == route_entry_texts(ev.take(i as int)),
        decreases entries@.len() - i,
    {
        let ghost before = string_views(out@);
        proof {
            assert(ev.take(i + 1).drop_last() =~= ev.take(i as int));
            assert(ev.take(i + 1).last() == ev[i as int]);
        }
        match (&entries[i].0, entries[i].1) {
            (Some(d), Some(p)) => {
                let mut t = copy_string(d);
                push_text(&mut t, "/");
                push_decimal_text(&mut t, p as u64);
                out.push(t);
                assert(string_views(out@) =~= before.push(route_entry_text(d@, p)));
            },
            _ => {
                assert(string_views(out@) =~= before);
            },
        }
        i = i + 1;
    }
    assert(ev.take(entries@.len() as int) =~= ev);
    if out.len() == 0 {
        None
    } else {
        Some(out)
    }
}

// ---------------------------------------------------------------------------
// The tray's own state.
// ---------------------------------------------------------------------------

/// What the tray does when the connection's state changes.
pub struct TrayStep {
    /// When the connection came up (seconds since the epoch), if it is up.
    pub connected_at: Option<u64>,
    /// Whether to read the list of saved connections again.
    pub refresh_saved: bool,
    /// Whether to read the traffic counters.
    pub read_stats: bool,
}

/// The start time kept on a state change: NetworkManager's activation time
/// (or `now` if it gave none) the first time the connection is seen up,
/// cleared once it is down, else unchanged.
pub open spec fn connected_at_after(prev: Option<u64>, state: VpnStateView, now: u64) -> Option<u64> {
    match state {
        VpnStateView::Connected { connected_at, .. } => match prev {
            None => Some(if connected_at > 0 { connected_at } else { now }),
            Some(t) => Some(t),
        },
        VpnStateView::Disconnected => None,
        _ => prev,
    }
}

/// The tray's step on a new connection state; `now` is the current time in
/// seconds since the epoch.
pub fn on_state_change(prev: Option<u64>, state: &VpnState, now: u64) -> (r: TrayStep)
    ensures
        r.connected_at == connected_at_after(prev, state@, now),
        r.refresh_saved == (state@ is Disconnected),
        r.read_stats == (state@ is Connected),
{
    match state {
        VpnState::Connected { connected_at, .. } => {
            let at = match prev {
                None => if *connected_at > 0 { *connected_at } else { now },
                Some(t) => t,
            };
            TrayStep { connected_at: Some(at), refresh_saved: false, read_stats: true }
        },
        VpnState::Disconnected => TrayStep { connected_at: None, refresh_saved: true, read_stats: false },
        _ => TrayStep { connected_at: prev, refresh_saved: false, read_stats: false },
    }
}

/// Whether the periodic poll reads the traffic counters: only while connected.
pub fn poll_stats(connected_at: Option<u64>) -> (r: bool)
    ensures
        r == (connected_at is Some),
{
    connected_at.is_some()
}

// ---------------------------------------------------------------------------
// Tooltip, icon and menu.
// ---------------------------------------------------------------------------

/// The three tray icons.
#[derive(Debug, Clone, Copy, PartialEq, Eq, Structural)]
pub enum TrayIcon {
    Disconnected,
    Connecting,
    Connected,
}

/// The icon for a state: setting up and tearing down share one.
pub fn tray_icon(state: &VpnState) -> (r: TrayIcon)
    ensures
        r == (match state@ {
            VpnStateView::Disconnected => TrayIcon::Disconnected,
            VpnStateView::Connected { .. } => TrayIcon::Connected,
            _ => TrayIcon::Connecting,
        }),
{
    match state {
        VpnState::Disconnected => TrayIcon::Disconnected,
        VpnState::Connected { .. } => TrayIcon::Connected,
        _ => TrayIcon::Connecting,
    }
}

/// The tooltip's line for a state.
pub open spec fn tray_description_spec(state: VpnStateView) -> Seq<char> {
    match state {
        VpnStateView::Disconnected => "Disconnected"@,
        VpnStateView::Connecting { name } => "Connecting: "@ + name,
        VpnStateView::Connected { name, ip, .. } => "Connected: "@ + name + " ("@ + ip + ")"@,
        VpnStateView::Disconnecting => "Disconnecting..."@,
    }
}

/// The tooltip's line for a state.
pub fn tray_description(state: &VpnState) -> (r: String)
    ensures
        r@ == tray_description_spec(state@),
{
    match state {
        VpnState::Disconnected => "Disconnected".to_owned(),
        VpnState::Connecting { name } => {
            let mut s = "Connecting: ".to_owned();
            push_text(&mut s, name.as_str());
            s
        },
        VpnState::Connected { name, ip, .. } => {
            let mut s = "Connected: ".to_owned();
            push_text(&mut s, name.as_str());
            push_text(&mut s, " (");
            push_text(&mut s, ip.as_str());
            push_text(&mut s, ")");
            s
        },
        VpnState::Disconnecting => "Disconnecting...".to_owned(),
    }
}

/// What a menu item does when chosen.
#[derive(Debug, Clone, Copy, PartialEq, Eq, Structural)]
pub enum TrayAction {
    /// Nothing: the item is a disabled label.
    NoAction,
    /// Connect the saved connection at this index of the saved list.
    Connect(usize),
    /// Open NetworkManager's connection editor.
    OpenConnectionEditor,
    /// Open the desktop's network settings.
    OpenNetworkSettings,
    /// Disconnect the connection.
    Disconnect,
}

/// An entry of the tray menu.
#[derive(Debug, Clone)]
pub enum TrayEntry {
    Separator,
    Item { label: String, action: TrayAction },
}

/// A menu entry as a value.
pub enum EntryView {
    Separator,
    Item(Seq<char>, TrayAction),
}

pub open spec fn entry_view(e: TrayEntry) -> EntryView {
    match e {
        TrayEntry::Separator => EntryView::Separator,
        TrayEntry::Item { label, action } => EntryView::Item(label@, action),
    }
}

pub open spec fn menu_views(v: Seq<TrayEntry>) -> Seq<EntryView> {
    v.map_values(|e: TrayEntry| entry_view(e))
}

/// The formatted traffic counters of a connection.
pub struct TrafficTexts {
    pub tx_bytes: String,
    pub tx_packets: String,
    pub rx_bytes: String,
    pub rx_packets: String,
}

/// A disabled label.
pub open spec fn label_entry(text: Seq<char>) -> EntryView {
    EntryView::Item(text, TrayAction::NoAction)
}

/// The entries of the saved connections: one per connection, or a label when
/// there is none.
pub open spec fn saved_entries(saved: Seq<Seq<char>>) -> Seq<EntryView> {
    if saved.len() == 0 {
        seq![label_entry("No saved VPN connections"@)]
    } else {
        Seq::new(saved.len(), |i: int| EntryView::Item("Connect: "@ + saved[i], TrayAction::Connect(i as usize)))
    }
}

/// The traffic lines of a connected tunnel.
pub open spec fn traffic_entries(traffic: Option<(Seq<char>, Seq<char>, Seq<char>, Seq<char>)>) -> Seq<EntryView> {
    match traffic {
        Some((tb, tp, rb, rp)) => seq![
            label_entry("TX: "@ + tb + " ("@ + tp + " pkts)"@),
            label_entry("RX: "@ + rb + " ("@ + rp + " pkts)"@),
        ],
        None => seq![label_entry("TX: --"@), label_entry("RX: --"@)],
    }
}

/// The route lines of a connected tunnel.
pub open spec fn route_entries(routes: Seq<Seq<char>>) -> Seq<EntryView> {
    if routes.len() == 0 {
        Seq::empty()
    } else {
        seq![EntryView::Separator] + Seq::new(routes.len(), |i: int| label_entry("Route: "@ + routes[i]))
    }
}

/// The menu while no DrayTek connection is up.
pub open spec fn disconnected_menu(saved: Seq<Seq<char>>) -> Seq<EntryView> {
    seq![label_entry("Disconnected"@), EntryView::Separator]
        + saved_entries(saved)
        + seq![
            EntryView::Separator,
            EntryView::Item("Network Connections..."@, TrayAction::OpenConnectionEditor),
            EntryView::Item("Network Settings..."@, TrayAction::OpenNetworkSettings),
        ]
}

/// The menu while the connection `name` is up.
pub open spec fn connected_menu(
    name: Seq<char>,
    ip: Seq<char>,
    routes: Seq<Seq<char>>,
    time: Option<Seq<char>>,
    traffic: Option<(Seq<char>, Seq<char>, Seq<char>, Seq<char>)>,
) -> Seq<EntryView> {
    seq![label_entry("Connected: "@ + name), label_entry("IP: "@ + ip)] + match time {
        Some(t) => seq![label_entry("Time: "@ + t)],
        None => Seq::empty(),
    } + route_entries(routes) + seq![EntryView::Separator] + traffic_entries(traffic) + seq![
        EntryView::Separator,
        EntryView::Item("Disconnect"@, TrayAction::Disconnect),
    ]
}

/// The tray menu for a state. `saved` are the names of the saved connections,
/// `time` the text of how long the connection has been up (if known) and
/// `traffic` the formatted counters (if read).
pub open spec fn tray_menu_spec(
    state: VpnStateView,
    saved: Seq<Seq<char>>,
    time: Option<Seq<char>>,
    traffic: Option<(Seq<char>, Seq<char>, Seq<char>, Seq<char>)>,
) -> Seq<EntryView> {
    match state {
        VpnStateView::Disconnected => disconnected_menu(saved),
        VpnStateView::Connecting { name } => seq![label_entry("Connecting: "@ + name + "..."@)],
        VpnStateView::Disconnecting => seq![label_entry("Disconnecting..."@)],
        VpnStateView::Connected { name, ip, routes, .. } => connected_menu(name, ip, routes, time, traffic),
    }
}

/// The traffic texts as values.
pub open spec fn traffic_view(t: Option<&TrafficTexts>) -> Option<(Seq<char>, Seq<char>, Seq<char>, Seq<char>)> {
    match t {
        Some(x) => Some((x.tx_bytes@, x.tx_packets@, x.rx_bytes@, x.rx_packets@)),
        None => None,
    }
}

fn label(text: String) -> (r: TrayEntry)
    ensures
        entry_view(r) == label_entry(text@),
{
    TrayEntry::Item { label: text, action: TrayAction::NoAction }
}

fn push_entry(menu: &mut Vec<TrayEntry>, e: TrayEntry)
    ensures
        menu_views(final(menu)@) == menu_views(old(menu)@).push(entry_view(e)),
{
    menu.push(e);
    assert(menu_views(menu@) =~= menu_views(old(menu)@).push(entry_view(e)));
}

fn joined2(a: &str, b: &str) -> (r: String)
    ensures
        r@ == a@ + b@,
{
    let mut s = a.to_owned();
    push_text(&mut s, b);
    s
}

fn traffic_line(prefix: &str, bytes: &str, packets: &str) -> (r: String)
    ensures
        r@ == prefix@ + bytes@ + " ("@ + packets@ + " pkts)"@,
{
    let mut s = prefix.to_owned();
    push_text(&mut s, bytes);
    push_text(&mut s, " (");
    push_text(&mut s, packets);
    push_text(&mut s, " pkts)");
    s
}

fn disconnected_entries(saved: &[String]) -> (r: Vec<TrayEntry>)
    ensures
        menu_views(r@) == disconnected_menu(string_views(saved@)),
{
    let mut menu: Vec<TrayEntry> = Vec::new();
    push_entry(&mut menu, label("Disconnected".to_owned()));
    push_entry(&mut menu, TrayEntry::Separator);
    let ghost head = menu_views(menu@);
    let ghost sv = string_views(saved@);
    if saved.len() == 0 {
        push_entry(&mut menu, label("No saved VPN connections".to_owned()));
        assert(menu_views(menu@) =~= head + saved_entries(sv));
    } else {
        let mut i: usize = 0;
        while i < saved.len()
            invariant
                i <= saved@.len(),
                sv == string_views(saved@),
                sv.len() > 0,
                menu_views(menu@) == head + saved_entries(sv).take(i as int),
            decreases saved@.len() - i,
        {
            let item = TrayEntry::Item { label: joined2("Connect: ", saved[i].as_str()), action: TrayAction::Connect(i) };
            push_entry(&mut menu, item);
            assert(saved_entries(sv)[i as int] == EntryView::Item("Connect: "@ + sv[i as int], TrayAction::Connect(i)));
            assert(menu_views(menu@) =~= head + saved_entries(sv).take(i + 1));
            i = i + 1;
        }
        assert(saved_entries(sv).take(saved@.len() as int) =~= saved_entries(sv));
    }
    push_entry(&mut menu, TrayEntry::Separator);
    push_entry(&mut menu, TrayEntry::Item { label: "Network Connections...".to_owned(), action: TrayAction::OpenConnectionEditor });
    push_entry(&mut menu, TrayEntry::Item { label: "Network Settings...".to_owned(), action: TrayAction::OpenNetworkSettings });
    assert(menu_views(menu@) =~= disconnected_menu(sv));
    menu
}

fn push_route_entries(menu: &mut Vec<TrayEntry>, routes: &Vec<String>)
    ensures
        menu_views(final(menu)@) == menu_views(old(menu)@) + route_entries(string_views(routes@)),
{
    let ghost head = menu_views(menu@);
    let ghost rv = string_views(routes@);
    if routes.len() > 0 {
        push_entry(menu, TrayEntry::Separator);
        let ghost start = menu_views(menu@);
        let ghost lines = Seq::new(rv.len(), |i: int| label_entry("Route: "@ + rv[i]));
        let mut i: usize = 0;
        while i < routes.len()
            invariant
                i <= routes@.len(),
                rv == string_views(routes@),
                lines == Seq::new(rv.len(), |i: int| label_entry("Route: "@ + rv[i])),
                menu_views(menu@) == start + lines.take(i as int),
            decreases routes@.len() - i,
        {
            push_entry(menu, label(joined2("Route: ", routes[i].as_str())));
            assert(menu_views(menu@) =~= start + lines.take(i + 1));
            i = i + 1;
        }
        assert(lines.take(routes@.len() as int) =~= lines);
        assert(menu_views(menu@) =~= head + route_entries(rv));
    } else {
        assert(menu_views(menu@) =~= head + route_entries(rv));
    }
}

fn push_traffic_entries(menu: &mut Vec<TrayEntry>, traffic: Option<&TrafficTexts>)
    ensures
        menu_views(final(menu)@) == menu_views(old(menu)@) + traffic_entries(traffic_view(traffic)),
{
    match traffic {
        Some(t) => {
            push_entry(menu, label(traffic_line("TX: ", t.tx_bytes.as_str(), t.tx_packets.as_str())));
            push_entry(menu, label(traffic_line("RX: ", t.rx_bytes.as_str(), t.rx_packets.as_str())));
        },
        None => {
            push_entry(menu, label("TX: --".to_owned()));
            push_entry(menu, label("RX: --".to_owned()));
        },
    }
    assert(menu_views(menu@) =~= menu_views(old(menu)@) + traffic_entries(traffic_view(traffic)));
}

fn connected_entries(name: &String, ip: &String, routes: &Vec<String>, time: Option<&str>, traffic: Option<&TrafficTexts>) -> (r: Vec<TrayEntry>)
    ensures
        menu_views(r@) == connected_menu(name@, ip@, string_views(routes@), match time { Some(t) => Some(t@), None => None }, traffic_view(traffic)),
{
    let mut menu: Vec<TrayEntry> = Vec::new();
    push_entry(&mut menu, label(joined2("Connected: ", name.as_str())));
    push_entry(&mut menu, label(joined2("IP: ", ip.as_str())));
    let ghost after_ip = menu_views(menu@);
    if let Some(t) = time {
        push_entry(&mut menu, label(joined2("Time: ", t)));
    }
    let ghost tv = match time { Some(t) => Some(t@), None => None::<Seq<char>> };
    let ghost time_part = match tv { Some(t) => seq![label_entry("Time: "@ + t)], None => Seq::<EntryView>::empty() };
    assert(menu_views(menu@) =~= after_ip + time_part);
    push_route_entries(&mut menu, routes);
    push_entry(&mut menu, TrayEntry::Separator);
    push_traffic_entries(&mut menu, traffic);
    push_entry(&mut menu, TrayEntry::Separator);
    push_entry(&mut menu, TrayEntry::Item { label: "Disconnect".to_owned(), action: TrayAction::Disconnect });
    assert(menu_views(menu@) =~= connected_menu(name@, ip@, string_views(routes@), tv, traffic_view(traffic)));
    menu
}

/// The tray menu for a state: the saved connections to connect when down,
/// the connection's name, address, time, routes and traffic when up.
pub fn tray_menu(state: &VpnState, saved: &[String], time: Option<&str>, traffic: Option<&TrafficTexts>) -> (r: Vec<TrayEntry>)
    ensures
        menu_views(r@) == tray_menu_spec(state@, string_views(saved@), match time { Some(t) => Some(t@), None => None }, traffic_view(traffic)),
{
    match state {
        VpnState::Disconnected => disconnected_entries(saved),
        VpnState::Connecting { name } => {
            let mut menu: Vec<TrayEntry> = Vec::new();
            let mut s = joined2("Connecting: ", name.as_str());
            push_text(&mut s, "...");
            push_entry(&mut menu, label(s));
            assert(menu_views(menu@) =~= seq![label_entry("Connecting: "@ + name@ + "..."@)]);
            menu
        },
        VpnState::Disconnecting => {
            let mut menu: Vec<TrayEntry> = Vec::new();
            push_entry(&mut menu, label("Disconnecting...".to_owned()));
            assert(menu_views(menu@) =~= seq![label_entry("Disconnecting..."@)]);
            menu
        },
        VpnState::Connected { name, ip, routes, .. } => connected_entries(name, ip, routes, time, traffic),
    }
}


/// Every state code that ends the watching of a connection takes the tray to
/// the disconnected state.
pub proof fn lemma_watch_ends_when_down(code: u32)
    requires
        code == VPN_STATE_DISCONNECTED || code == VPN_STATE_FAILED,
    ensures
        state_change_spec(code) == Some(StateChange::Down),
{
}

/// When watching a connection begins, the state it starts from is one the
/// tray acts on, whatever the active connection's state was.
pub proof fn lemma_initial_state_acted_on(active_state: u32)
    ensures
        state_change_spec(initial_vpn_state_spec(active_state)) is Some,
{
}

/// While the connection is up the tray knows when it came up, so the traffic
/// counters are polled; once it is down the time is forgotten and polling
/// stops. The time of the first report of the connection being up is kept
/// through later reports.
pub proof fn lemma_connection_time(prev: Option<u64>, state: VpnStateView, now: u64)
    ensures
        state is Connected ==> connected_at_after(prev, state, now) is Some,
        state is Connected && prev is Some ==> connected_at_after(prev, state, now) == prev,
        state is Disconnected ==> connected_at_after(prev, state, now) is None,
{
}

/// A menu item that connects exists only while disconnected, and then the
/// items connect exactly the saved connections, in order, each named on its
/// item.
pub proof fn lemma_connect_items_are_saved(
    state: VpnStateView,
    saved: Seq<Seq<char>>,
    time: Option<Seq<char>>,
    traffic: Option<(Seq<char>, Seq<char>, Seq<char>, Seq<char>)>,
)
    requires
        saved.len() <= usize::MAX,
    ensures
        ({
            let m = tray_menu_spec(state, saved, time, traffic);
            &&& forall|j: int| 0 <= j < m.len() ==> ((#[trigger] m[j]) matches EntryView::Item(label, TrayAction::Connect(k)) ==> {
                    &&& state is Disconnected
                    &&& k < saved.len()
                    &&& j == 2 + k
                    &&& label == "Connect: "@ + saved[k as int]
                })
            &&& state is Disconnected ==> forall|k: int| 0 <= k < saved.len() ==>
                m[2 + k] == EntryView::Item("Connect: "@ + #[trigger] saved[k], TrayAction::Connect(k as usize))
        }),
{
    let m = tray_menu_spec(state, saved, time, traffic);
    match state {
        VpnStateView::Disconnected => {
            let se = saved_entries(saved);
            let tail = seq![
                EntryView::Separator,
                EntryView::Item("Network Connections..."@, TrayAction::OpenConnectionEditor),
                EntryView::Item("Network Settings..."@, TrayAction::OpenNetworkSettings),
            ];
            assert(m == seq![label_entry("Disconnected"@), EntryView::Separator] + se + tail);
            assert forall|j: int| 0 <= j < m.len() implies ((#[trigger] m[j]) matches EntryView::Item(label, TrayAction::Connect(k)) ==> {
                    &&& k < saved.len()
                    &&& j == 2 + k
                    &&& label == "Connect: "@ + saved[k as int]
                }) by {
                if j < 2 {
                } else if j < 2 + se.len() {
                    assert(m[j] == se[j - 2]);
                    if saved.len() > 0 {
                        assert(se[j - 2] == EntryView::Item("Connect: "@ + saved[j - 2], TrayAction::Connect((j - 2) as usize)));
                    }
                } else {
                    assert(m[j] == tail[j - 2 - se.len()]);
                }
            }
            assert forall|k: int| 0 <= k < saved.len() implies
                m[2 + k] == EntryView::Item("Connect: "@ + #[trigger] saved[k], TrayAction::Connect(k as usize)) by {
                assert(m[2 + k] == se[k]);
            }
        },
        VpnStateView::Connected { name, ip, routes, .. } => {
            let tp = match time {
                Some(t) => seq![label_entry("Time: "@ + t)],
                None => Seq::<EntryView>::empty(),
            };
            let a = seq![label_entry("Connected: "@ + name), label_entry("IP: "@ + ip)] + tp;
            let b = a + route_entries(routes);
            let c = b + seq![EntryView::Separator] + traffic_entries(traffic);
            let d = seq![EntryView::Separator, EntryView::Item("Disconnect"@, TrayAction::Disconnect)];
            assert(m == c + d);
            assert forall|j: int| 0 <= j < m.len() implies !(#[trigger] m[j] matches EntryView::Item(_, TrayAction::Connect(_))) by {
                if j < a.len() {
                    assert(m[j] == a[j]);
                } else if j < b.len() {
                    assert(m[j] == route_entries(routes)[j - a.len()]);
                    if routes.len() > 0 && j > a.len() {
                        assert(route_entries(routes)[j - a.len()] == label_entry("Route: "@ + routes[j - a.len() - 1]));
                    }
                } else if j < b.len() + 1 {
                    assert(m[j] == EntryView::Separator);
                } else if j < c.len() {
                    assert(m[j] == traffic_entries(traffic)[j - b.len() - 1]);
                } else {
                    assert(m[j] == d[j - c.len()]);
                }
            }
        },
        _ => {},
    }
}

} // verus!
