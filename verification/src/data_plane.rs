//! The data phase of a connection as a machine driven by the connection loop:
//! IP packets from the TUN device, SSTP packets from the server, the keepalive
//! timer and user commands go in; packets for the server and the TUN device
//! come out.
use vstd::prelude::*;
use crate::constants::{KEEPALIVE_MAX_MISSED, PPP_CCP, PPP_CONFIG_REJECT, PPP_CONFIG_REQ, PPP_IPCP, PPP_IPV4_DATA, PPP_LCP, PPP_TERMINATE_ACK, PPP_TERMINATE_REQ, SSTP_CMD_CLOSE, SSTP_CMD_DATA, SSTP_CMD_REPLY, SSTP_CMD_REQUEST};
use crate::engine_common::{action_packets, frames_to_send, icmp_echo_packet, PingKeeper, PppFsmPair, TrafficStats, TunnelAddrs};
use crate::error::ProtoError;
use crate::fsm::{lemma_retries_stay_bounded, retries_bounded, step, EventView, FsmEvent, FsmView, PppFsm};
use crate::keepalive::KeepaliveTracker;
use crate::negotiate::{control_packet, packet_views};
use crate::ppp::{lemma_parse_ppp_frame_roundtrip, parse_ppp_frame_spec, ppp_frame_bytes, sstp_data_bytes, PppFrame};
use crate::ppp_control::{options_bytes, parse_control_frame_spec, parse_options_spec, FrameView, PppControlFrame};
use crate::sstp::{keepalive_payload, lemma_parse_sstp_roundtrip, parse_sstp_spec, sstp_packet_bytes, SstpPacket, SstpView};

verus! {

/// Whether the data loop goes on after a packet.
#[derive(Debug, Clone, Copy, PartialEq, Eq, Structural)]
pub enum DataOutcome {
    Continue,
    /// The session ended normally (server CLOSE, LCP Terminate, unexpected command).
    Stop,
}

/// What a packet from the server produces.
pub struct ServerStep {
    /// Packets to write to the server, in order.
    pub packets: Vec<Vec<u8>>,
    /// An IP packet to write to the TUN device.
    pub tun_packet: Option<Vec<u8>>,
    pub outcome: Result<DataOutcome, ProtoError>,
}

/// The effect of a server packet, as a value.
pub struct ServerEffect {
    pub lcp: FsmView,
    pub ipcp: FsmView,
    pub packets: Seq<Seq<u8>>,
    pub tun: Option<Seq<u8>>,
    pub outcome: Result<DataOutcome, ProtoError>,
    /// Whether the packet was a keepalive reply.
    pub reply: bool,
}

/// No effect but the outcome.
pub open spec fn only(lcp: FsmView, ipcp: FsmView, outcome: Result<DataOutcome, ProtoError>) -> ServerEffect {
    ServerEffect { lcp, ipcp, packets: Seq::empty(), tun: None, outcome, reply: false }
}

/// A control frame of the data phase, by protocol: LCP Terminate-Request is
/// acknowledged and ends the session; other LCP and IPCP frames go to their
/// machines; CCP requests are rejected; other protocols are ignored.
pub open spec fn control_effect(lcp: FsmView, ipcp: FsmView, protocol: u16, ctrl: FrameView) -> ServerEffect {
    if protocol == PPP_LCP {
        if ctrl.0 == PPP_TERMINATE_REQ {
            ServerEffect { packets: seq![control_packet(PPP_LCP, PPP_TERMINATE_ACK, ctrl.1, Seq::empty())], ..only(lcp, ipcp, Ok(DataOutcome::Stop)) }
        } else {
            let (l2, acts) = step(lcp, EventView::Receive(ctrl));
            ServerEffect { packets: action_packets(acts, PPP_LCP), ..only(l2, ipcp, Ok(DataOutcome::Continue)) }
        }
    } else if protocol == PPP_IPCP {
        let (i2, acts) = step(ipcp, EventView::Receive(ctrl));
        ServerEffect { packets: action_packets(acts, PPP_IPCP), ..only(lcp, i2, Ok(DataOutcome::Continue)) }
    } else if ctrl.0 == PPP_CONFIG_REQ {
        match parse_options_spec(ctrl.2) {
            Err(e) => only(lcp, ipcp, Err(e)),
            Ok(opts) => ServerEffect {
                packets: seq![control_packet(PPP_CCP, PPP_CONFIG_REJECT, ctrl.1, options_bytes(opts))],
                ..only(lcp, ipcp, Ok(DataOutcome::Continue))
            },
        }
    } else {
        only(lcp, ipcp, Ok(DataOutcome::Continue))
    }
}

/// A packet from the server during the data phase.
pub open spec fn server_effect(lcp: FsmView, ipcp: FsmView, pkt: SstpView) -> ServerEffect {
    if pkt.0 == SSTP_CMD_CLOSE {
        only(lcp, ipcp, Ok(DataOutcome::Stop))
    } else if pkt.0 == SSTP_CMD_REPLY {
        ServerEffect { reply: true, ..only(lcp, ipcp, Ok(DataOutcome::Continue)) }
    } else if pkt.0 == SSTP_CMD_REQUEST {
        only(lcp, ipcp, Ok(DataOutcome::Continue))
    } else if pkt.0 != SSTP_CMD_DATA {
        only(lcp, ipcp, Ok(DataOutcome::Stop))
    } else {
        match parse_ppp_frame_spec(pkt.2) {
            Err(e) => only(lcp, ipcp, Err(e)),
            Ok((protocol, info)) => if protocol == PPP_IPV4_DATA {
                ServerEffect { tun: Some(info), ..only(lcp, ipcp, Ok(DataOutcome::Continue)) }
            } else if protocol == PPP_LCP || protocol == PPP_IPCP || protocol == PPP_CCP {
                match parse_control_frame_spec(info) {
                    Err(e) => only(lcp, ipcp, Err(e)),
                    Ok(ctrl) => control_effect(lcp, ipcp, protocol, ctrl),
                }
            } else {
                only(lcp, ipcp, Ok(DataOutcome::Continue))
            },
        }
    }
}

/// The data phase of a connection.
pub struct DataPlane {
    pub fsms: PppFsmPair,
    pub keepalive: KeepaliveTracker,
    pub stats: TrafficStats,
    pub ping: PingKeeper,
}

/// What the keepalive timer produces.
pub struct TimerStep {
    /// Packets to write to the server, in order.
    pub packets: Vec<Vec<u8>>,
    /// Whether a statistics update is due.
    pub report_stats: bool,
    pub outcome: Result<(), ProtoError>,
}

impl DataPlane {
    /// The retry counters of both machines are within the limit.
    pub open spec fn wf(&self) -> bool {
        retries_bounded(self.fsms.lcp@) && retries_bounded(self.fsms.ipcp@)
    }

    /// A data phase for negotiated machines and addresses, with ICMP pings on
    /// if `keepalive` is set (the first ping is returned to be sent at once).
    pub fn new(lcp: PppFsm, ipcp: PppFsm, addrs: TunnelAddrs, keepalive: bool) -> (r: (DataPlane, Option<Vec<u8>>))
        requires
            retries_bounded(lcp@),
            retries_bounded(ipcp@),
        ensures
            r.0.wf(),
            r.0.fsms.lcp@ == lcp@ && r.0.fsms.ipcp@ == ipcp@,
            r.0.stats.mtu == addrs.mtu,
            r.0.ping.enabled == keepalive,
            r.0.keepalive.request_counter == 0 && r.0.keepalive.no_reply_count == 0,
            keepalive ==> (r.1 matches Some(p) && p@ == sstp_data_bytes(PPP_IPV4_DATA,
                crate::engine_common::icmp_echo_packet(addrs.local_ip.octet_seq(), addrs.remote_ip.octet_seq(), 0))),
            !keepalive ==> r.1 is None,
    {
        let mut ping = PingKeeper::new(addrs.local_ip, addrs.remote_ip);
        let first = if keepalive {
            match ping.set_enabled(true) {
                Some(frame) => Some(frame.to_sstp_bytes()),
                None => None,
            }
        } else {
            None
        };
        let dp = DataPlane {
            fsms: PppFsmPair { lcp, ipcp },
            keepalive: KeepaliveTracker::new(),
            stats: TrafficStats::new(addrs.mtu),
            ping,
        };
        (dp, first)
    }

    /// An IP packet read from the TUN device: counted, marks TUN activity, and
    /// returned wrapped for the server (nothing for an empty read).
    pub fn on_tun_packet(&mut self, ip_packet: &[u8]) -> (r: Option<Vec<u8>>)
        requires
            old(self).stats.packets_tx < u64::MAX,
            old(self).stats.bytes_tx + ip_packet@.len() <= u64::MAX,
            old(self).stats.oversized_tx < u64::MAX,
        ensures
            final(self).fsms.lcp@ == old(self).fsms.lcp@ && final(self).fsms.ipcp@ == old(self).fsms.ipcp@,
            final(self).keepalive.request_counter == old(self).keepalive.request_counter,
            final(self).keepalive.no_reply_count == old(self).keepalive.no_reply_count,
            ip_packet@.len() == 0 ==> r is None && final(self).stats.packets_tx == old(self).stats.packets_tx,
            ip_packet@.len() > 0 ==> {
                &&& r matches Some(p) && p@ == sstp_data_bytes(PPP_IPV4_DATA, ip_packet@)
                &&& final(self).stats.packets_tx == old(self).stats.packets_tx + 1
                &&& final(self).stats.bytes_tx == old(self).stats.bytes_tx + ip_packet@.len()
            },
    {
        if ip_packet.len() == 0 {
            return None;
        }
        self.keepalive.mark_tun_activity();
        self.stats.record_tx(ip_packet.len());
        let frame = PppFrame::ipv4(vstd::slice::slice_to_vec(ip_packet));
        Some(frame.to_sstp_bytes())
    }

    fn on_control_frame(&mut self, protocol: u16, ctrl: PppControlFrame) -> (r: ServerStep)
        requires
            old(self).wf(),
            protocol == PPP_LCP || protocol == PPP_IPCP || protocol == PPP_CCP,
        ensures
            final(self).wf(),
            ({
                let e = control_effect(old(self).fsms.lcp@, old(self).fsms.ipcp@, protocol, ctrl@);
                &&& final(self).fsms.lcp@ == e.lcp && final(self).fsms.ipcp@ == e.ipcp
                &&& packet_views(r.packets@) == e.packets
                &&& r.tun_packet is None
                &&& r.outcome == e.outcome
            }),
            final(self).keepalive == old(self).keepalive,
            final(self).stats == old(self).stats,
            final(self).ping == old(self).ping,
    {
        let no_packets: Vec<Vec<u8>> = Vec::new();
        assert(packet_views(no_packets@) =~= Seq::<Seq<u8>>::empty());
        if protocol == PPP_LCP {
            if ctrl.code == PPP_TERMINATE_REQ {
                let ack = PppControlFrame::terminate_ack(ctrl.identifier);
                let pkt = PppFrame::new(PPP_LCP, ack.to_bytes()).to_sstp_bytes();
                let mut packets: Vec<Vec<u8>> = Vec::new();
                packets.push(pkt);
                assert(packet_views(packets@) =~= seq![pkt@]);
                return ServerStep { packets, tun_packet: None, outcome: Ok(DataOutcome::Stop) };
            }
            proof { lemma_retries_stay_bounded(self.fsms.lcp@, EventView::Receive(ctrl@)); }
            let actions = self.fsms.lcp.handle_event(FsmEvent::ReceiveFrame(ctrl));
            let packets = frames_to_send(actions.as_slice(), PPP_LCP);
            ServerStep { packets, tun_packet: None, outcome: Ok(DataOutcome::Continue) }
        } else if protocol == PPP_IPCP {
            proof { lemma_retries_stay_bounded(self.fsms.ipcp@, EventView::Receive(ctrl@)); }
            let actions = self.fsms.ipcp.handle_event(FsmEvent::ReceiveFrame(ctrl));
            let packets = frames_to_send(actions.as_slice(), PPP_IPCP);
            ServerStep { packets, tun_packet: None, outcome: Ok(DataOutcome::Continue) }
        } else if ctrl.code == PPP_CONFIG_REQ {
            match ctrl.parse_options() {
                Ok(options) => {
                    let reject = PppControlFrame::config_reject(ctrl.identifier, options.as_slice());
                    let pkt = PppFrame::new(PPP_CCP, reject.to_bytes()).to_sstp_bytes();
                    let mut packets: Vec<Vec<u8>> = Vec::new();
                    packets.push(pkt);
                    assert(packet_views(packets@) =~= seq![pkt@]);
                    ServerStep { packets, tun_packet: None, outcome: Ok(DataOutcome::Continue) }
                },
                Err(e) => ServerStep { packets: no_packets, tun_packet: None, outcome: Err(e) },
            }
        } else {
            ServerStep { packets: no_packets, tun_packet: None, outcome: Ok(DataOutcome::Continue) }
        }
    }

    /// A packet read from the server. A keepalive reply clears the missed count;
    /// an IP packet is counted and handed to the TUN device.
    pub fn on_server_packet(&mut self, sstp: &SstpPacket) -> (r: ServerStep)
        requires
            old(self).wf(),
            old(self).stats.packets_rx < u64::MAX,
            old(self).stats.bytes_rx + sstp@.2.len() <= u64::MAX,
            old(self).stats.oversized_rx < u64::MAX,
        ensures
            final(self).wf(),
            ({
                let e = server_effect(old(self).fsms.lcp@, old(self).fsms.ipcp@, sstp@);
                &&& final(self).fsms.lcp@ == e.lcp && final(self).fsms.ipcp@ == e.ipcp
                &&& packet_views(r.packets@) == e.packets
                &&& (match r.tun_packet { Some(p) => Some(p@), None => None }) == e.tun
                &&& r.outcome == e.outcome
                &&& final(self).keepalive.no_reply_count == (if e.reply { 0 } else { old(self).keepalive.no_reply_count })
                &&& final(self).keepalive.request_counter == old(self).keepalive.request_counter
                &&& (match e.tun {
                    Some(t) => final(self).stats.packets_rx == old(self).stats.packets_rx + 1
                        && final(self).stats.bytes_rx == old(self).stats.bytes_rx + t.len(),
                    None => final(self).stats.packets_rx == old(self).stats.packets_rx
                        && final(self).stats.bytes_rx == old(self).stats.bytes_rx,
                })
            }),
    {
        let no_packets: Vec<Vec<u8>> = Vec::new();
        assert(packet_views(no_packets@) =~= Seq::<Seq<u8>>::empty());
        if sstp.is_close() {
            return ServerStep { packets: no_packets, tun_packet: None, outcome: Ok(DataOutcome::Stop) };
        }
        if sstp.is_reply() {
            self.keepalive.received_reply();
            return ServerStep { packets: no_packets, tun_packet: None, outcome: Ok(DataOutcome::Continue) };
        }
        if sstp.is_request() {
            // The server's keepalive requests are ignored.
            return ServerStep { packets: no_packets, tun_packet: None, outcome: Ok(DataOutcome::Continue) };
        }
        if !sstp.is_data() {
            return ServerStep { packets: no_packets, tun_packet: None, outcome: Ok(DataOutcome::Stop) };
        }
        let ppp = match PppFrame::parse(sstp.data.as_slice()) {
            Ok(f) => f,
            Err(e) => return ServerStep { packets: no_packets, tun_packet: None, outcome: Err(e) },
        };
        if ppp.is_ipv4() {
            assert(ppp.information@.len() <= sstp@.2.len());
            self.stats.record_rx(ppp.information.len());
            return ServerStep { packets: no_packets, tun_packet: Some(ppp.information), outcome: Ok(DataOutcome::Continue) };
        }
        if ppp.is_lcp() || ppp.is_ipcp() || ppp.is_ccp() {
            let ctrl = match PppControlFrame::parse(ppp.information.as_slice()) {
                Ok(c) => c,
                Err(e) => return ServerStep { packets: no_packets, tun_packet: None, outcome: Err(e) },
            };
            return self.on_control_frame(ppp.protocol, ctrl);
        }
        ServerStep { packets: no_packets, tun_packet: None, outcome: Ok(DataOutcome::Continue) }
    }

    /// The keepalive timer fired: send a keepalive request if one is due, fail
    /// if too many went unanswered, say whether statistics are due, and send a
    /// ping if one is due. Whether each is due depends on the clock
    /// (`request_due`, `update_due` and `ping_due` decide for a given time); the
    /// contract states what holds whatever the time: the request comes first
    /// and the ping last, each at most once, and nothing else is sent or changed.
    pub fn on_timer(&mut self) -> (r: TimerStep)
        requires
            old(self).keepalive.request_counter < u32::MAX,
            old(self).keepalive.no_reply_count < u32::MAX,
        ensures
            final(self).fsms.lcp@ == old(self).fsms.lcp@ && final(self).fsms.ipcp@ == old(self).fsms.ipcp@,
            final(self).stats == old(self).stats,
            ({
                let k0 = old(self).keepalive;
                let k1 = final(self).keepalive;
                let p0 = old(self).ping;
                let p1 = final(self).ping;
                let requested = k1.request_counter != k0.request_counter;
                let pinged = p1.seq != p0.seq;
                &&& requested ==> {
                    &&& k1.request_counter == k0.request_counter + 1
                    &&& k1.no_reply_count == k0.no_reply_count + 1
                    &&& r.packets@[0]@ == sstp_packet_bytes(SSTP_CMD_REQUEST, 0, keepalive_payload(k0.request_counter))
                }
                &&& !requested ==> k1.no_reply_count == k0.no_reply_count
                &&& r.packets@.len() == (if requested { 1int } else { 0int }) + (if pinged { 1int } else { 0int })
                &&& p1.enabled == p0.enabled && p1.local_ip == p0.local_ip && p1.remote_ip == p0.remote_ip
                &&& (p1.seq == p0.seq || p1.seq == p0.seq.wrapping_add(1))
                &&& pinged ==> {
                    &&& p0.enabled
                    &&& r.outcome is Ok
                    &&& r.packets@.last()@ == sstp_data_bytes(PPP_IPV4_DATA, icmp_echo_packet(
                        p0.local_ip.octet_seq(), p0.remote_ip.octet_seq(), p0.seq))
                }
            }),
            r.outcome is Err <==> final(self).keepalive.no_reply_count > KEEPALIVE_MAX_MISSED,
            r.outcome matches Err(e) ==> e == ProtoError::KeepaliveTimeout,
            r.outcome is Err ==> !r.report_stats,
    {
        let mut packets: Vec<Vec<u8>> = Vec::new();
        if let Some(counter) = self.keepalive.should_send_request() {
            let pkt = SstpPacket::keepalive_request(counter);
            packets.push(pkt.to_bytes());
        }
        if self.keepalive.is_dead() {
            return TimerStep { packets, report_stats: false, outcome: Err(ProtoError::KeepaliveTimeout) };
        }
        let report_stats = self.stats.should_send_update();
        if let Some(frame) = self.ping.maybe_send() {
            packets.push(frame.to_sstp_bytes());
            assert(packets@.last() == packets@[packets@.len() - 1]);
        }
        TimerStep { packets, report_stats, outcome: Ok(()) }
    }

    /// The user asked to disconnect: LCP Terminate-Request (if LCP is open)
    /// followed by an SSTP CLOSE.
    pub fn on_disconnect(&mut self) -> (r: Vec<Vec<u8>>)
        requires
            old(self).wf(),
        ensures
            final(self).wf(),
            final(self).fsms.lcp@ == step(old(self).fsms.lcp@, EventView::Close).0,
            packet_views(r@) == action_packets(step(old(self).fsms.lcp@, EventView::Close).1, PPP_LCP)
                .push(sstp_packet_bytes(SSTP_CMD_CLOSE, 0, Seq::empty())),
    {
        proof { lemma_retries_stay_bounded(self.fsms.lcp@, EventView::Close); }
        let actions = self.fsms.lcp.handle_event(FsmEvent::Close);
        let mut packets = frames_to_send(actions.as_slice(), PPP_LCP);
        let close = SstpPacket::close().to_bytes();
        let ghost before = packet_views(packets@);
        packets.push(close);
        assert(packet_views(packets@) =~= before.push(close@));
        packets
    }

    /// The user toggled the ICMP keepalive; turning it on sends a ping at once.
    pub fn on_toggle_keepalive(&mut self, enabled: bool) -> (r: Option<Vec<u8>>)
        ensures
            final(self).ping.enabled == enabled,
            enabled ==> (r matches Some(p) && p@ == sstp_data_bytes(PPP_IPV4_DATA, crate::engine_common::icmp_echo_packet(
                old(self).ping.local_ip.octet_seq(), old(self).ping.remote_ip.octet_seq(), old(self).ping.seq))),
            !enabled ==> r is None,
            final(self).fsms.lcp@ == old(self).fsms.lcp@ && final(self).fsms.ipcp@ == old(self).fsms.ipcp@,
    {
        match self.ping.set_enabled(enabled) {
            Some(frame) => Some(frame.to_sstp_bytes()),
            None => None,
        }
    }
}


/// An IPv4 packet from the server reaches the TUN device as it was sent: for
/// any packet `p`, the SSTP DATA packet that carries `p` in a PPP frame of
/// protocol 0x0021 decodes, and what goes to the TUN device is exactly `p`
/// (the frame without its 4-byte header); nothing is sent back, the machines
/// do not change and the session goes on.
pub proof fn lemma_ipv4_reaches_tun(lcp: FsmView, ipcp: FsmView, p: Seq<u8>, rest: Seq<u8>)
    requires
        p.len() + 4 <= 65535,
    ensures
        ({
            let wire = sstp_data_bytes(PPP_IPV4_DATA, p) + rest;
            &&& parse_sstp_spec(wire) matches Some((pkt, used)) && {
                let e = server_effect(lcp, ipcp, pkt);
                &&& used == p.len() + 8
                &&& e.tun == Some(p)
                &&& e.packets.len() == 0
                &&& e.outcome == Ok::<DataOutcome, ProtoError>(DataOutcome::Continue)
                &&& e.lcp == lcp && e.ipcp == ipcp
            }
        }),
{
    let frame = ppp_frame_bytes(PPP_IPV4_DATA, p);
    lemma_parse_ppp_frame_roundtrip(PPP_IPV4_DATA, p);
    lemma_parse_sstp_roundtrip(SSTP_CMD_DATA, 0, frame, rest);
    assert(sstp_data_bytes(PPP_IPV4_DATA, p) == sstp_packet_bytes(SSTP_CMD_DATA, 0, frame));
}

} // verus!
