//! Pieces of the data loop shared by the GUI and NetworkManager front ends:
//! what FSM actions put on the wire, traffic counters and the ICMP keepalive ping.
use vstd::prelude::*;
use tokio::time::Instant;
use crate::addr::Ipv4;
use crate::clock::{elapsed_nanos, now, NANOS_PER_SEC};
use crate::constants::PPP_IPV4_DATA;
use crate::error::ProtoError;
use crate::fsm::{action_views, ActionView, FsmAction, PppFsm};
use crate::ppp::{sstp_data_bytes, PppFrame};
use crate::ppp_control::control_frame_bytes;
use crate::wire::{be16, hi_byte, lemma_be16_roundtrip, lo_byte, split_u16};

verus! {

/// LCP and IPCP machines, used together by the data loops.
pub struct PppFsmPair {
    pub lcp: PppFsm,
    pub ipcp: PppFsm,
}

/// Tunnel IP configuration negotiated during IPCP.
#[derive(Clone, Copy)]
pub struct TunnelAddrs {
    pub mtu: u16,
    pub local_ip: Ipv4,
    pub remote_ip: Ipv4,
}

/// The SSTP packets that the `SendFrame` actions of `acts` put on the wire, in order.
pub open spec fn action_packets(acts: Seq<ActionView>, protocol: u16) -> Seq<Seq<u8>>
    decreases acts.len(),
{
    if acts.len() == 0 {
        Seq::empty()
    } else {
        let r = action_packets(acts.drop_last(), protocol);
        match acts.last() {
            ActionView::Send(f) => r.push(sstp_data_bytes(protocol, control_frame_bytes(f.0, f.1, f.2))),
            _ => r,
        }
    }
}

/// The packets to write for FSM actions: each sent control frame wrapped in a
/// PPP frame of `protocol` inside an SSTP DATA packet. `LayerUp` and `Shutdown`
/// write nothing.
pub fn frames_to_send(actions: &[FsmAction], protocol: u16) -> (r: Vec<Vec<u8>>)
    ensures
        r@.map_values(|p: Vec<u8>| p@) == action_packets(action_views(actions@), protocol),
{
    let mut out: Vec<Vec<u8>> = Vec::new();
    let ghost av = action_views(actions@);
    let mut i: usize = 0;
    while i < actions.len()
        invariant
            i <= actions@.len(),
            av == action_views(actions@),
            out@.map_values(|p: Vec<u8>| p@) == action_packets(av.take(i as int), protocol),
        decreases actions@.len() - i,
    {
        proof {
            assert(av.take(i + 1).drop_last() =~= av.take(i as int));
            assert(av.take(i + 1).last() == actions@[i as int]@);
        }
        match &actions[i] {
            FsmAction::SendFrame(ctrl) => {
                let ppp_frame = PppFrame::new(protocol, ctrl.to_bytes());
                let bytes = ppp_frame.to_sstp_bytes();
                let ghost before = out@.map_values(|p: Vec<u8>| p@);
                out.push(bytes);
                assert(out@.map_values(|p: Vec<u8>| p@) =~= before.push(bytes@));
            },
            _ => {},
        }
        i = i + 1;
    }
    assert(av.take(av.len() as int) =~= av);
    out
}

/// Fail if any action asks for shutdown.
pub fn check_shutdown(actions: &[FsmAction]) -> (r: Result<(), ProtoError>)
    ensures
        r is Err <==> action_views(actions@).contains(ActionView::Shutdown),
        r matches Err(e) ==> e == ProtoError::ShutdownRequested,
{
    let ghost av = action_views(actions@);
    let mut i: usize = 0;
    while i < actions.len()
        invariant
            i <= actions@.len(),
            av == action_views(actions@),
            forall|j: int| 0 <= j < i ==> av[j] != ActionView::Shutdown,
        decreases actions@.len() - i,
    {
        match &actions[i] {
            FsmAction::Shutdown => {
                assert(av[i as int] == ActionView::Shutdown);
                return Err(ProtoError::ShutdownRequested);
            },
            _ => {},
        }
        i = i + 1;
    }
    Ok(())
}

// ---------------------------------------------------------------------------
// Internet checksum (RFC 1071).
// ---------------------------------------------------------------------------

/// The sum of the big-endian 16-bit words of `d`; an odd last byte counts as a
/// word with a zero low byte.
pub open spec fn word_sum(d: Seq<u8>) -> nat
    decreases d.len(),
{
    if d.len() == 0 {
        0
    } else if d.len() == 1 {
        (d[0] as nat) * 256
    } else {
        (be16(d[0], d[1]) + word_sum(d.skip(2))) as nat
    }
}

/// End-around carry: add the carries back in until the sum fits in 16 bits.
pub open spec fn fold16(s: nat) -> nat
    decreases s,
{
    if s < 65536 {
        s
    } else {
        proof { assert(s % 65536 + s / 65536 < s) by (nonlinear_arith) requires s >= 65536; }
        fold16(s % 65536 + s / 65536)
    }
}

/// The internet checksum: the ones' complement of the folded word sum.
pub open spec fn checksum_spec(d: Seq<u8>) -> u16 {
    (65535 - fold16(word_sum(d))) as u16
}

proof fn lemma_fold16_small(s: nat)
    ensures
        fold16(s) < 65536,
    decreases s,
{
    if s >= 65536 {
        assert(s % 65536 + s / 65536 < s) by (nonlinear_arith) requires s >= 65536;
        lemma_fold16_small(s % 65536 + s / 65536);
    }
}

/// Standard internet checksum (RFC 1071).
pub fn internet_checksum(data: &[u8]) -> (r: u16)
    requires
        data@.len() <= 131072,
    ensures
        r == checksum_spec(data@),
{
    let mut sum: u32 = 0;
    let mut i: usize = 0;
    assert(data@.skip(0) =~= data@);
    while i + 1 < data.len()
        invariant
            i <= data@.len(),
            i % 2 == 0,
            data@.len() <= 131072,
            sum <= 65535 * (i / 2),
            sum + word_sum(data@.skip(i as int)) == word_sum(data@),
        decreases data@.len() - i,
    {
        let b0 = data[i];
        let b1 = data[i + 1];
        let w = ((b0 as u32) << 8) | (b1 as u32);
        assert(w == b0 as u32 * 256 + b1 as u32) by (bit_vector)
            requires
                w == ((b0 as u32) << 8) | (b1 as u32),
        ;
        assert(data@.skip(i as int).skip(2) =~= data@.skip(i + 2));
        sum = sum + w;
        i = i + 2;
    }
    if i < data.len() {
        let b0 = data[i];
        let w = (b0 as u32) << 8;
        assert(w == b0 as u32 * 256) by (bit_vector)
            requires
                w == (b0 as u32) << 8,
        ;
        assert(data@.skip(i as int).len() == 1);
        sum = sum + w;
    } else {
        assert(data@.skip(i as int).len() == 0);
    }
    assert(sum == word_sum(data@));
    let ghost total = sum as nat;
    while sum >> 16 != 0
        invariant
            fold16(sum as nat) == fold16(total),
        decreases sum,
    {
        let lo = sum & 0xFFFF;
        let hi = sum >> 16;
        assert(lo == sum % 65536 && hi == sum / 65536 && hi != 0) by (bit_vector)
            requires
                lo == sum & 0xFFFF,
                hi == sum >> 16,
                sum >> 16 != 0,
        ;
        assert(sum % 65536 + sum / 65536 < sum) by (nonlinear_arith) requires sum >= 65536;
        sum = lo + hi;
    }
    assert(sum < 65536) by (bit_vector) requires sum >> 16 == 0;
    let r = !sum as u16;
    assert(r == 65535 - sum) by (bit_vector)
        requires
            sum < 65536,
            r == (!sum) as u16,
    ;
    r
}

// ---------------------------------------------------------------------------
// ICMP echo request.
// ---------------------------------------------------------------------------

/// ICMP identifier of our pings ("DV").
pub open spec fn ping_id() -> u16 {
    0x4456
}

/// An ICMP echo header with the given checksum.
pub open spec fn icmp_header(seq: u16, cksum: u16) -> Seq<u8> {
    seq![8u8, 0u8, hi_byte(cksum), lo_byte(cksum), hi_byte(ping_id()), lo_byte(ping_id()), hi_byte(seq), lo_byte(seq)]
}

/// The ICMP echo request: its checksum covers the header with a zero checksum field.
pub open spec fn icmp_echo(seq: u16) -> Seq<u8> {
    icmp_header(seq, checksum_spec(icmp_header(seq, 0)))
}

/// An IPv4 header (no options, 28 bytes total, DF, TTL 64, protocol ICMP) with
/// the given header checksum.
pub open spec fn ipv4_header(src: Seq<u8>, dst: Seq<u8>, cksum: u16) -> Seq<u8> {
    seq![0x45u8, 0u8, 0u8, 28u8, 0u8, 0u8, 0x40u8, 0u8, 64u8, 1u8, hi_byte(cksum), lo_byte(cksum)] + src + dst
}

/// A minimal ping: IPv4 header with its checksum, then the ICMP echo request.
pub open spec fn icmp_echo_packet(src: Seq<u8>, dst: Seq<u8>, seq: u16) -> Seq<u8> {
    ipv4_header(src, dst, checksum_spec(ipv4_header(src, dst, 0))) + icmp_echo(seq)
}

/// Build a minimal ICMP echo request (ping) packet with IPv4 header.
pub fn build_icmp_echo(src: Ipv4, dst: Ipv4, seq: u16) -> (r: Vec<u8>)
    ensures
        r@ == icmp_echo_packet(src.octet_seq(), dst.octet_seq(), seq),
{
    let (id_hi, id_lo) = split_u16(0x4456);
    let (seq_hi, seq_lo) = split_u16(seq);
    let mut icmp: Vec<u8> = Vec::new();
    icmp.push(8u8);
    icmp.push(0u8);
    icmp.push(0u8);
    icmp.push(0u8);
    icmp.push(id_hi);
    icmp.push(id_lo);
    icmp.push(seq_hi);
    icmp.push(seq_lo);
    let (z_hi, z_lo) = split_u16(0);
    assert(icmp@ =~= icmp_header(seq, 0));
    let icmp_cksum = internet_checksum(icmp.as_slice());
    let (c_hi, c_lo) = split_u16(icmp_cksum);
    icmp.set(2, c_hi);
    icmp.set(3, c_lo);
    assert(icmp@ =~= icmp_echo(seq));

    let mut ip: Vec<u8> = Vec::new();
    ip.push(0x45u8);
    ip.push(0u8);
    ip.push(0u8);
    ip.push(28u8);
    ip.push(0u8);
    ip.push(0u8);
    ip.push(0x40u8);
    ip.push(0u8);
    ip.push(64u8);
    ip.push(1u8);
    ip.push(0u8);
    ip.push(0u8);
    ip.push(src.a);
    ip.push(src.b);
    ip.push(src.c);
    ip.push(src.d);
    ip.push(dst.a);
    ip.push(dst.b);
    ip.push(dst.c);
    ip.push(dst.d);
    assert(ip@ =~= ipv4_header(src.octet_seq(), dst.octet_seq(), 0));
    let ip_cksum = internet_checksum(ip.as_slice());
    let (i_hi, i_lo) = split_u16(ip_cksum);
    ip.set(10, i_hi);
    ip.set(11, i_lo);
    assert(ip@ =~= ipv4_header(src.octet_seq(), dst.octet_seq(), ip_cksum));
    ip.extend_from_slice(icmp.as_slice());
    assert(ip@ =~= icmp_echo_packet(src.octet_seq(), dst.octet_seq(), seq));
    ip
}

proof fn lemma_fold16_mod(x: nat)
    ensures
        fold16(x) % 65535 == x % 65535,
        x > 0 ==> fold16(x) > 0,
        fold16(x) < 65536,
    decreases x,
{
    if x >= 65536 {
        let y = x % 65536 + x / 65536;
        assert(y < x && y > 0 && y % 65535 == x % 65535) by (nonlinear_arith)
            requires
                x >= 65536,
                y == x % 65536 + x / 65536,
        {
            let q = x / 65536;
            let r = x % 65536;
            assert(x == q * 65536 + r);
            assert(x - y == q * 65535);
        }
        lemma_fold16_mod(y);
    }
}

proof fn lemma_word_sum_set(d: Seq<u8>, k: int, hi: u8, lo: u8)
    requires
        0 <= k,
        k % 2 == 0,
        k + 1 < d.len(),
        d[k] == 0,
        d[k + 1] == 0,
    ensures
        word_sum(d.update(k, hi).update(k + 1, lo)) == word_sum(d) + be16(hi, lo),
    decreases k,
{
    let e = d.update(k, hi).update(k + 1, lo);
    if k == 0 {
        assert(e.skip(2) =~= d.skip(2));
    } else {
        assert(e.skip(2) =~= d.skip(2).update(k - 2, hi).update(k - 1, lo));
        lemma_word_sum_set(d.skip(2), k - 2, hi, lo);
    }
}

proof fn lemma_checksum_verifies(h: Seq<u8>, k: int)
    requires
        0 <= k,
        k % 2 == 0,
        k + 1 < h.len(),
        h[k] == 0,
        h[k + 1] == 0,
    ensures
        checksum_spec(h.update(k, hi_byte(checksum_spec(h))).update(k + 1, lo_byte(checksum_spec(h)))) == 0,
{
    let c = checksum_spec(h);
    let s = word_sum(h);
    lemma_fold16_mod(s);
    lemma_be16_roundtrip(c);
    assert(c == 65535 - fold16(s));
    lemma_word_sum_set(h, k, hi_byte(c), lo_byte(c));
    let t = s + c;
    assert(t > 0);
    lemma_fold16_mod(t as nat);
    let f = fold16(s);
    assert(t % 65535 == 0) by (nonlinear_arith)
        requires
            t == s + 65535 - f,
            f % 65535 == s % 65535,
            f >= 0,
    {
        assert((s - f) % 65535 == 0) by (nonlinear_arith)
            requires f % 65535 == s % 65535, f >= 0, s >= 0;
    }
    assert(fold16(t as nat) == 65535) by (nonlinear_arith)
        requires
            fold16(t as nat) % 65535 == 0,
            0 < fold16(t as nat) < 65536;
}

/// The checksums of a ping verify: the internet checksum of its IPv4 header,
/// and that of its ICMP message, each taken over the field it fills, is 0.
pub proof fn lemma_icmp_echo_checksums_verify(src: Seq<u8>, dst: Seq<u8>, seq: u16)
    requires
        src.len() == 4,
        dst.len() == 4,
    ensures
        icmp_echo_packet(src, dst, seq).len() == 28,
        checksum_spec(icmp_echo_packet(src, dst, seq).take(20)) == 0,
        checksum_spec(icmp_echo_packet(src, dst, seq).skip(20)) == 0,
{
    let h0 = ipv4_header(src, dst, 0);
    let ch = checksum_spec(h0);
    assert(ipv4_header(src, dst, ch) =~= h0.update(10, hi_byte(ch)).update(11, lo_byte(ch)));
    lemma_checksum_verifies(h0, 10);
    let i0 = icmp_header(seq, 0);
    let ci = checksum_spec(i0);
    assert(icmp_echo(seq) =~= i0.update(2, hi_byte(ci)).update(3, lo_byte(ci)));
    lemma_checksum_verifies(i0, 2);
    let p = icmp_echo_packet(src, dst, seq);
    assert(p.take(20) =~= ipv4_header(src, dst, ch));
    assert(p.skip(20) =~= icmp_echo(seq));
}

// ---------------------------------------------------------------------------
// Traffic counters.
// ---------------------------------------------------------------------------

/// Aggregated traffic counters for the data loop.
pub struct TrafficStats {
    pub bytes_tx: u64,
    pub bytes_rx: u64,
    pub packets_tx: u64,
    pub packets_rx: u64,
    pub oversized_tx: u64,
    pub oversized_rx: u64,
    pub max_packet_tx: usize,
    pub max_packet_rx: usize,
    pub mtu: usize,
    pub last_sent: Instant,
}

/// Whether a statistics update is due after `elapsed` nanoseconds: once a second.
pub fn update_due(elapsed: u128) -> (r: bool)
    ensures
        r == (elapsed >= NANOS_PER_SEC),
{
    elapsed >= NANOS_PER_SEC
}

impl TrafficStats {
    /// All counters zero, for a link with the given MTU; the update timer starts now.
    pub fn new(mtu: u16) -> (r: Self)
        ensures
            r.bytes_tx == 0 && r.bytes_rx == 0 && r.packets_tx == 0 && r.packets_rx == 0,
            r.oversized_tx == 0 && r.oversized_rx == 0 && r.max_packet_tx == 0 && r.max_packet_rx == 0,
            r.mtu == mtu,
    {
        TrafficStats {
            bytes_tx: 0,
            bytes_rx: 0,
            packets_tx: 0,
            packets_rx: 0,
            oversized_tx: 0,
            oversized_rx: 0,
            max_packet_tx: 0,
            max_packet_rx: 0,
            mtu: mtu as usize,
            last_sent: now(),
        }
    }

    /// Count a packet of `size` bytes sent into the tunnel.
    pub fn record_tx(&mut self, size: usize)
        requires
            old(self).packets_tx < u64::MAX,
            old(self).bytes_tx + size <= u64::MAX,
            old(self).oversized_tx < u64::MAX,
        ensures
            final(self).packets_tx == old(self).packets_tx + 1,
            final(self).bytes_tx == old(self).bytes_tx + size,
            final(self).oversized_tx == old(self).oversized_tx + (if size > old(self).mtu { 1int } else { 0int }),
            final(self).max_packet_tx == (if size > old(self).max_packet_tx { size } else { old(self).max_packet_tx }),
            final(self).bytes_rx == old(self).bytes_rx && final(self).packets_rx == old(self).packets_rx,
            final(self).oversized_rx == old(self).oversized_rx && final(self).max_packet_rx == old(self).max_packet_rx,
            final(self).mtu == old(self).mtu && final(self).last_sent == old(self).last_sent,
    {
        self.packets_tx = self.packets_tx + 1;
        self.bytes_tx = self.bytes_tx + size as u64;
        if size > self.mtu {
            self.oversized_tx = self.oversized_tx + 1;
        }
        if size > self.max_packet_tx {
            self.max_packet_tx = size;
        }
    }

    /// Count a packet of `size` bytes received from the tunnel.
    pub fn record_rx(&mut self, size: usize)
        requires
            old(self).packets_rx < u64::MAX,
            old(self).bytes_rx + size <= u64::MAX,
            old(self).oversized_rx < u64::MAX,
        ensures
            final(self).packets_rx == old(self).packets_rx + 1,
            final(self).bytes_rx == old(self).bytes_rx + size,
            final(self).oversized_rx == old(self).oversized_rx + (if size > old(self).mtu { 1int } else { 0int }),
            final(self).max_packet_rx == (if size > old(self).max_packet_rx { size } else { old(self).max_packet_rx }),
            final(self).bytes_tx == old(self).bytes_tx && final(self).packets_tx == old(self).packets_tx,
            final(self).oversized_tx == old(self).oversized_tx && final(self).max_packet_tx == old(self).max_packet_tx,
            final(self).mtu == old(self).mtu && final(self).last_sent == old(self).last_sent,
    {
        self.packets_rx = self.packets_rx + 1;
        self.bytes_rx = self.bytes_rx + size as u64;
        if size > self.mtu {
            self.oversized_rx = self.oversized_rx + 1;
        }
        if size > self.max_packet_rx {
            self.max_packet_rx = size;
        }
    }

    /// Whether a second has passed since the last update was sent.
    pub fn should_send_update(&self) -> (r: bool) {
        update_due(elapsed_nanos(&self.last_sent))
    }

    /// Restart the update timer.
    pub fn mark_sent(&mut self)
        ensures
            final(self).bytes_tx == old(self).bytes_tx && final(self).bytes_rx == old(self).bytes_rx,
            final(self).packets_tx == old(self).packets_tx && final(self).packets_rx == old(self).packets_rx,
            final(self).oversized_tx == old(self).oversized_tx && final(self).oversized_rx == old(self).oversized_rx,
            final(self).max_packet_tx == old(self).max_packet_tx && final(self).max_packet_rx == old(self).max_packet_rx,
            final(self).mtu == old(self).mtu,
    {
        self.last_sent = now();
    }
}

// ---------------------------------------------------------------------------
// ICMP keepalive ping.
// ---------------------------------------------------------------------------

/// ICMP keepalive ping state for the data plane.
pub struct PingKeeper {
    pub enabled: bool,
    pub seq: u16,
    pub last_sent: Instant,
    pub local_ip: Ipv4,
    pub remote_ip: Ipv4,
}

/// Whether a ping is due: pings are on and 30 s have passed since the last one.
pub fn ping_due(enabled: bool, elapsed: u128) -> (r: bool)
    ensures
        r == (enabled && elapsed >= 30 * NANOS_PER_SEC),
{
    enabled && elapsed >= 30 * NANOS_PER_SEC
}

/// The ping frame a keeper with these addresses sends with sequence number `seq`.
pub open spec fn ping_frame_ok(f: PppFrame, local: Ipv4, remote: Ipv4, seq: u16) -> bool {
    f.protocol == PPP_IPV4_DATA && f.information@ == icmp_echo_packet(local.octet_seq(), remote.octet_seq(), seq)
}

impl PingKeeper {
    /// A disabled keeper between the two tunnel addresses.
    pub fn new(local_ip: Ipv4, remote_ip: Ipv4) -> (r: Self)
        ensures
            !r.enabled,
            r.seq == 0,
            r.local_ip == local_ip,
            r.remote_ip == remote_ip,
    {
        PingKeeper { enabled: false, seq: 0, last_sent: now(), local_ip, remote_ip }
    }

    /// Turn pings on or off. Turning them on returns a ping to send at once.
    pub fn set_enabled(&mut self, enabled: bool) -> (r: Option<PppFrame>)
        ensures
            final(self).enabled == enabled,
            final(self).local_ip == old(self).local_ip && final(self).remote_ip == old(self).remote_ip,
            enabled ==> (r matches Some(f) && ping_frame_ok(f, old(self).local_ip, old(self).remote_ip, old(self).seq))
                && final(self).seq == old(self).seq.wrapping_add(1),
            !enabled ==> r is None && final(self).seq == old(self).seq,
    {
        self.enabled = enabled;
        if enabled {
            self.send_ping()
        } else {
            None
        }
    }

    /// A ping to send if pings are on and the interval has passed.
    pub fn maybe_send(&mut self) -> (r: Option<PppFrame>)
        ensures
            final(self).enabled == old(self).enabled,
            final(self).local_ip == old(self).local_ip && final(self).remote_ip == old(self).remote_ip,
            r matches Some(f) ==> old(self).enabled && ping_frame_ok(f, old(self).local_ip, old(self).remote_ip, old(self).seq)
                && final(self).seq == old(self).seq.wrapping_add(1),
            r is None ==> final(self).seq == old(self).seq,
    {
        if ping_due(self.enabled, elapsed_nanos(&self.last_sent)) {
            self.send_ping()
        } else {
            None
        }
    }

    fn send_ping(&mut self) -> (r: Option<PppFrame>)
        ensures
            r matches Some(f) && ping_frame_ok(f, old(self).local_ip, old(self).remote_ip, old(self).seq),
            final(self).seq == old(self).seq.wrapping_add(1),
            final(self).enabled == old(self).enabled,
            final(self).local_ip == old(self).local_ip && final(self).remote_ip == old(self).remote_ip,
    {
        let icmp_pkt = build_icmp_echo(self.local_ip, self.remote_ip, self.seq);
        let frame = PppFrame::ipv4(icmp_pkt);
        self.seq = self.seq.wrapping_add(1);
        self.last_sent = now();
        Some(frame)
    }
}

} // verus!
