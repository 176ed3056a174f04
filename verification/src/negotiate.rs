//! The PPP negotiation phase (LCP, then PAP or CHAP, then IPCP) as a machine
//! driven by the connection loop: it is handed each SSTP packet read from the
//! server and each read timeout, and answers with the packets to write and the
//! status to report.
use vstd::prelude::*;
use vstd::string::StringSliceAdditionalSpecFns;
use bytes::BytesMut;
use crate::addr::Ipv4;
use crate::auth::authenticate;
use crate::auth::mschap::{mschap_v1_response, mschap_v2_response};
use crate::constants::{AuthMethod, DEFAULT_MRU, NEGOTIATION_TIMEOUT_SECS, PPP_CCP, PPP_CHAP, PPP_CHAP_CHALLENGE, PPP_CHAP_FAILURE, PPP_CHAP_RESPONSE, PPP_CHAP_SUCCESS, PPP_CONFIG_REJECT, PPP_CONFIG_REQ, PPP_IPCP, PPP_LCP, PPP_LCP_CONFIG_AUTH_PROTO, PPP_PAP, PPP_PAP_FAILURE, PPP_PAP_REQUEST, PPP_PAP_SUCCESS};
use crate::engine_common::{action_packets, check_shutdown, frames_to_send};
use crate::error::ProtoError;
use crate::fsm::{lemma_retries_stay_bounded, negotiating, retries_bounded, step, ActionView, EventView, FsmEvent, FsmState, FsmView, PppFsm};
use crate::ipcp::{create_ipcp_fsm, get_local_dns, get_local_ip, get_remote_ip};
use crate::lcp::{auth_method_of, create_lcp_fsm, get_auth_method, get_local_mru, get_remote_mru, option_data};
use crate::ppp::{parse_ppp_frame_spec, sstp_data_bytes, PppFrame};
use crate::ppp_control::{build_chap_response, chap_response_payload, control_frame_bytes, options_bytes, pap_payload, parse_chap_challenge_spec, parse_control_frame_spec, parse_options_spec, build_pap_payload, ChapChallenge, FrameView, PppControlFrame};
use crate::sstp::{SstpPacket, SstpView};
use crate::constants::{SSTP_CMD_CLOSE, SSTP_CMD_DATA, SSTP_CMD_REPLY, SSTP_CMD_REQUEST};

verus! {

/// Status updates of the negotiation, for the user interface.
#[derive(Debug, Clone, Copy, PartialEq, Eq, Structural)]
pub enum StatusEvent {
    NegotiatingLcp,
    Authenticating,
    NegotiatingIpcp,
    AuthFailed,
}

/// Callbacks for negotiation status updates; the GUI app and the NetworkManager
/// plugin implement them.
pub trait NegotiationStatus {
    fn on_negotiating_lcp(&self);
    fn on_authenticating(&self);
    fn on_negotiating_ipcp(&self);
    fn on_auth_failed(&self);
    fn on_disconnecting(&self);
    /// Whether a disconnect has been requested.
    fn check_disconnect(&self) -> bool;
}

/// The negotiation in progress.
pub struct Negotiator {
    pub lcp: PppFsm,
    pub ipcp: PppFsm,
    pub auth_done: bool,
    pub ipcp_started: bool,
}

/// The negotiation as a value.
pub struct NegView {
    pub lcp: FsmView,
    pub ipcp: FsmView,
    pub auth_done: bool,
    pub ipcp_started: bool,
}

impl View for Negotiator {
    type V = NegView;

    open spec fn view(&self) -> NegView {
        NegView { lcp: self.lcp@, ipcp: self.ipcp@, auth_done: self.auth_done, ipcp_started: self.ipcp_started }
    }
}

/// What one input of the negotiation produces: packets to write (in order,
/// before anything else), status events to report, and whether to go on.
pub struct NegStep {
    pub packets: Vec<Vec<u8>>,
    pub events: Vec<StatusEvent>,
    pub outcome: Result<(), ProtoError>,
}

/// The views of a list of packets.
pub open spec fn packet_views(v: Seq<Vec<u8>>) -> Seq<Seq<u8>> {
    v.map_values(|p: Vec<u8>| p@)
}

/// A step result as a value.
pub type StepView = (NegView, Seq<Seq<u8>>, Seq<StatusEvent>, Result<(), ProtoError>);

/// Whether a step result matches its value, given the negotiation after the step.
pub open spec fn step_is(after: NegView, s: NegStep, expected: StepView) -> bool {
    (after, packet_views(s.packets@), s.events@, s.outcome) == expected
}

// ---------------------------------------------------------------------------
// Specification.
// ---------------------------------------------------------------------------

/// The SSTP packet carrying a control frame of a PPP protocol.
pub open spec fn control_packet(protocol: u16, code: u8, id: u8, data: Seq<u8>) -> Seq<u8> {
    sstp_data_bytes(protocol, control_frame_bytes(code, id, data))
}

/// IPCP started: Up and Open given to the IPCP machine.
pub open spec fn start_ipcp(n: NegView) -> (NegView, Seq<Seq<u8>>) {
    let (i1, a1) = step(n.ipcp, EventView::Up);
    let (i2, a2) = step(i1, EventView::Open);
    (NegView { ipcp: i2, ipcp_started: true, ..n }, action_packets(a1, PPP_IPCP) + action_packets(a2, PPP_IPCP))
}

/// Authentication succeeded: IPCP starts.
pub open spec fn auth_success(n: NegView) -> StepView {
    let (n2, pk) = start_ipcp(NegView { auth_done: true, ..n });
    (n2, pk, seq![StatusEvent::NegotiatingIpcp], Ok(()))
}

/// The authentication method LCP agreed on.
pub open spec fn agreed_method(lcp: FsmView) -> Option<AuthMethod> {
    match option_data(lcp.negotiated_remote, PPP_LCP_CONFIG_AUTH_PROTO) {
        Some(d) => auth_method_of(d),
        None => None,
    }
}

/// An LCP frame from the server; once LCP is open, authentication starts
/// (with PAP our request goes out at once; with CHAP we wait for the challenge).
pub open spec fn lcp_frame_step(n: NegView, ctrl: FrameView, user: Seq<u8>, pass: Seq<u8>) -> StepView {
    let (l2, acts) = step(n.lcp, EventView::Receive(ctrl));
    let n2 = NegView { lcp: l2, ..n };
    let pk = action_packets(acts, PPP_LCP);
    if acts.contains(ActionView::Shutdown) {
        (n2, pk, Seq::empty(), Err(ProtoError::ShutdownRequested))
    } else if l2.state == FsmState::Opened && !n.auth_done {
        if agreed_method(l2) == Some(AuthMethod::Pap) {
            (n2, pk.push(control_packet(PPP_PAP, PPP_PAP_REQUEST, 1, pap_payload(user, pass))), seq![StatusEvent::Authenticating], Ok(()))
        } else {
            (n2, pk, seq![StatusEvent::Authenticating], Ok(()))
        }
    } else {
        (n2, pk, Seq::empty(), Ok(()))
    }
}

/// A PAP frame from the server.
pub open spec fn pap_frame_step(n: NegView, ctrl: FrameView) -> StepView {
    if ctrl.0 == PPP_PAP_SUCCESS {
        auth_success(n)
    } else if ctrl.0 == PPP_PAP_FAILURE {
        (n, Seq::empty(), seq![StatusEvent::AuthFailed], Err(ProtoError::PapFailed))
    } else {
        (n, Seq::empty(), Seq::empty(), Ok(()))
    }
}

/// The response value for a challenge; `peer` is the MS-CHAPv2 peer challenge.
pub open spec fn auth_value(m: AuthMethod, user: Seq<u8>, pass: Seq<u8>, challenge: Seq<u8>, peer: Seq<u8>) -> Seq<u8> {
    match m {
        AuthMethod::Pap => pap_payload(user, pass),
        AuthMethod::MsChapV1 => mschap_v1_response(pass, challenge),
        AuthMethod::MsChapV2 => mschap_v2_response(user, pass, challenge, peer),
    }
}

/// A CHAP frame from the server: a challenge is answered with the response of
/// the agreed method (the peer challenge `peer` is drawn at random).
pub open spec fn chap_frame_step(n: NegView, ctrl: FrameView, user: Seq<u8>, pass: Seq<u8>, peer: Seq<u8>) -> StepView {
    if ctrl.0 == PPP_CHAP_CHALLENGE {
        match parse_chap_challenge_spec(ctrl.2) {
            Err(e) => (n, Seq::empty(), Seq::empty(), Err(e)),
            Ok(chal) => match agreed_method(n.lcp) {
                None => (n, Seq::empty(), Seq::empty(), Err(ProtoError::NoAuthMethod)),
                Some(m) => if m == AuthMethod::MsChapV2 && chal.len() < 16 {
                    (n, Seq::empty(), Seq::empty(), Err(ProtoError::ChallengeTooShort))
                } else {
                    let resp = auth_value(m, user, pass, chal, peer);
                    (n, seq![control_packet(PPP_CHAP, PPP_CHAP_RESPONSE, ctrl.1, chap_response_payload(resp, user))], Seq::empty(), Ok(()))
                },
            },
        }
    } else if ctrl.0 == PPP_CHAP_SUCCESS {
        auth_success(n)
    } else if ctrl.0 == PPP_CHAP_FAILURE {
        (n, Seq::empty(), seq![StatusEvent::AuthFailed], Err(ProtoError::ChapFailed))
    } else {
        (n, Seq::empty(), Seq::empty(), Ok(()))
    }
}

/// An IPCP frame from the server; IPCP is started first if the server began it
/// before authentication finished.
pub open spec fn ipcp_frame_step(n: NegView, ctrl: FrameView) -> StepView {
    let (n1, pk1, ev) = if !n.ipcp_started {
        let (m, p) = start_ipcp(n);
        (m, p, seq![StatusEvent::NegotiatingIpcp])
    } else {
        (n, Seq::<Seq<u8>>::empty(), Seq::<StatusEvent>::empty())
    };
    let (i2, acts) = step(n1.ipcp, EventView::Receive(ctrl));
    let pk = pk1 + action_packets(acts, PPP_IPCP);
    let n2 = NegView { ipcp: i2, ..n1 };
    if acts.contains(ActionView::Shutdown) {
        (n2, pk, ev, Err(ProtoError::ShutdownRequested))
    } else {
        (n2, pk, ev, Ok(()))
    }
}

/// A CCP frame from the server: every compression option is rejected.
pub open spec fn ccp_frame_step(n: NegView, ctrl: FrameView) -> StepView {
    if ctrl.0 == PPP_CONFIG_REQ {
        match parse_options_spec(ctrl.2) {
            Err(e) => (n, Seq::empty(), Seq::empty(), Err(e)),
            Ok(opts) => (n, seq![control_packet(PPP_CCP, PPP_CONFIG_REJECT, ctrl.1, options_bytes(opts))], Seq::empty(), Ok(())),
        }
    } else {
        (n, Seq::empty(), Seq::empty(), Ok(()))
    }
}

/// A PPP frame from the server, by protocol; other protocols are ignored.
pub open spec fn ppp_step(n: NegView, protocol: u16, info: Seq<u8>, user: Seq<u8>, pass: Seq<u8>, peer: Seq<u8>) -> StepView {
    if protocol == PPP_LCP || protocol == PPP_PAP || protocol == PPP_CHAP || protocol == PPP_IPCP || protocol == PPP_CCP {
        match parse_control_frame_spec(info) {
            Err(e) => (n, Seq::empty(), Seq::empty(), Err(e)),
            Ok(ctrl) => if protocol == PPP_LCP {
                lcp_frame_step(n, ctrl, user, pass)
            } else if protocol == PPP_PAP {
                pap_frame_step(n, ctrl)
            } else if protocol == PPP_CHAP {
                chap_frame_step(n, ctrl, user, pass, peer)
            } else if protocol == PPP_IPCP {
                ipcp_frame_step(n, ctrl)
            } else {
                ccp_frame_step(n, ctrl)
            },
        }
    } else {
        (n, Seq::empty(), Seq::empty(), Ok(()))
    }
}

/// An SSTP packet from the server during negotiation: CLOSE ends it, keepalive
/// traffic is ignored, any other non-DATA command is an error.
pub open spec fn packet_step(n: NegView, pkt: SstpView, user: Seq<u8>, pass: Seq<u8>, peer: Seq<u8>) -> StepView {
    if pkt.0 == SSTP_CMD_CLOSE {
        (n, Seq::empty(), Seq::empty(), Err(ProtoError::ServerClosed))
    } else if pkt.0 == SSTP_CMD_REPLY || pkt.0 == SSTP_CMD_REQUEST {
        (n, Seq::empty(), Seq::empty(), Ok(()))
    } else if pkt.0 != SSTP_CMD_DATA {
        (n, Seq::empty(), Seq::empty(), Err(ProtoError::UnexpectedCommand(pkt.0)))
    } else {
        match parse_ppp_frame_spec(pkt.2) {
            Err(e) => (n, Seq::empty(), Seq::empty(), Err(e)),
            Ok((protocol, info)) => ppp_step(n, protocol, info, user, pass, peer),
        }
    }
}

/// A read timeout: the machines that wait for an answer retransmit.
pub open spec fn timeout_packets(n: NegView) -> StepView {
    let (l2, la) = if negotiating(n.lcp.state) { step(n.lcp, EventView::Timeout) } else { (n.lcp, Seq::<ActionView>::empty()) };
    let n1 = NegView { lcp: l2, ..n };
    let lp = action_packets(la, PPP_LCP);
    if la.contains(ActionView::Shutdown) {
        (n1, lp, Seq::empty(), Err(ProtoError::ShutdownRequested))
    } else if n.ipcp_started && negotiating(n.ipcp.state) {
        let (i2, ia) = step(n.ipcp, EventView::Timeout);
        let n2 = NegView { ipcp: i2, ..n1 };
        let pk = lp + action_packets(ia, PPP_IPCP);
        if ia.contains(ActionView::Shutdown) {
            (n2, pk, Seq::empty(), Err(ProtoError::ShutdownRequested))
        } else {
            (n2, pk, Seq::empty(), Ok(()))
        }
    } else {
        (n1, lp, Seq::empty(), Ok(()))
    }
}

// ---------------------------------------------------------------------------
// Implementation.
// ---------------------------------------------------------------------------

fn push_packets(out: &mut Vec<Vec<u8>>, more: Vec<Vec<u8>>)
    ensures
        packet_views(final(out)@) == packet_views(old(out)@) + packet_views(more@),
{
    let ghost total = packet_views(out@) + packet_views(more@);
    let mut more = more;
    while more.len() > 0
        invariant
            packet_views(out@) + packet_views(more@) == total,
        decreases more@.len(),
    {
        let ghost before_out = packet_views(out@);
        let ghost before_more = packet_views(more@);
        let p = more.remove(0);
        out.push(p);
        proof {
            assert(packet_views(out@) =~= before_out.push(p@));
            assert(packet_views(more@) =~= before_more.drop_first());
            assert(before_more[0] == p@);
            assert(packet_views(out@) + packet_views(more@) =~= before_out + before_more);
        }
    }
    assert(packet_views(more@) =~= Seq::<Seq<u8>>::empty());
    assert(packet_views(out@) + Seq::<Seq<u8>>::empty() =~= packet_views(out@));
}

/// A packet list of one packet.
fn one_packet(p: Vec<u8>) -> (r: Vec<Vec<u8>>)
    ensures
        packet_views(r@) == seq![p@],
{
    let mut v: Vec<Vec<u8>> = Vec::new();
    v.push(p);
    assert(packet_views(v@) =~= seq![p@]);
    v
}

/// An empty packet list.
fn no_packets() -> (r: Vec<Vec<u8>>)
    ensures
        packet_views(r@) == Seq::<Seq<u8>>::empty(),
{
    let v: Vec<Vec<u8>> = Vec::new();
    assert(packet_views(v@) =~= Seq::<Seq<u8>>::empty());
    v
}

/// The SSTP packet carrying a control frame.
fn control_packet_bytes(protocol: u16, code: u8, id: u8, data: Vec<u8>) -> (r: Vec<u8>)
    ensures
        r@ == control_packet(protocol, code, id, data@),
{
    let mut frame = PppControlFrame::new(code, id);
    frame.data = data;
    PppFrame::new(protocol, frame.to_bytes()).to_sstp_bytes()
}

/// Feed an event to a machine: the packets its actions write, and whether it
/// asked for shutdown.
fn feed(fsm: &mut PppFsm, event: FsmEvent, protocol: u16) -> (r: (Vec<Vec<u8>>, bool))
    requires
        retries_bounded(old(fsm)@),
    ensures
        final(fsm)@ == step(old(fsm)@, event@).0,
        packet_views(r.0@) == action_packets(step(old(fsm)@, event@).1, protocol),
        r.1 == step(old(fsm)@, event@).1.contains(ActionView::Shutdown),
        retries_bounded(final(fsm)@),
        final(fsm).tag == old(fsm).tag,
{
    proof { lemma_retries_stay_bounded(fsm@, event@); }
    let actions = fsm.handle_event(event);
    let packets = frames_to_send(actions.as_slice(), protocol);
    let shutdown = check_shutdown(actions.as_slice()).is_err();
    (packets, shutdown)
}

impl Negotiator {
    /// The retry counters of both machines are within the limit.
    pub open spec fn wf(&self) -> bool {
        retries_bounded(self.lcp@) && retries_bounded(self.ipcp@)
    }

    /// Start negotiating: a new LCP machine for our MRU receives Up and Open
    /// (which sends our first Configure-Request); IPCP waits.
    pub fn start(mru: u16) -> (r: (Negotiator, Vec<Vec<u8>>))
        ensures
            r.0.wf(),
            !r.0.auth_done && !r.0.ipcp_started,
            r.0.lcp.tag == "LCP" && r.0.ipcp.tag == "IPCP",
            ({
                let (l1, a1) = step(crate::lcp::create_lcp_fsm_view(mru), EventView::Up);
                let (l2, a2) = step(l1, EventView::Open);
                &&& r.0@.lcp == l2
                &&& r.0@.ipcp == crate::ipcp::create_ipcp_fsm_view()
                &&& packet_views(r.1@) == action_packets(a1, PPP_LCP) + action_packets(a2, PPP_LCP)
            }),
    {
        let mut lcp = create_lcp_fsm(mru);
        let ipcp = create_ipcp_fsm();
        let (mut packets, _) = feed(&mut lcp, FsmEvent::Up, PPP_LCP);
        let (more, _) = feed(&mut lcp, FsmEvent::Open, PPP_LCP);
        push_packets(&mut packets, more);
        (Negotiator { lcp, ipcp, auth_done: false, ipcp_started: false }, packets)
    }

    /// Whether both layers are open: the negotiation is complete.
    pub fn is_done(&self) -> (r: bool)
        ensures
            r == (self.lcp.state == FsmState::Opened && self.ipcp.state == FsmState::Opened),
    {
        self.lcp.is_opened() && self.ipcp.is_opened()
    }

    fn start_ipcp(&mut self) -> (r: Vec<Vec<u8>>)
        requires
            old(self).wf(),
        ensures
            final(self).wf(),
            final(self)@ == start_ipcp(old(self)@).0,
            packet_views(r@) == start_ipcp(old(self)@).1,
            final(self).lcp.tag == old(self).lcp.tag && final(self).ipcp.tag == old(self).ipcp.tag,
    {
        let (mut packets, _) = feed(&mut self.ipcp, FsmEvent::Up, PPP_IPCP);
        let (more, _) = feed(&mut self.ipcp, FsmEvent::Open, PPP_IPCP);
        push_packets(&mut packets, more);
        self.ipcp_started = true;
        packets
    }

    fn on_auth_success(&mut self) -> (r: NegStep)
        requires
            old(self).wf(),
        ensures
            final(self).wf(),
            step_is(final(self)@, r, auth_success(old(self)@)),
            final(self).lcp.tag == old(self).lcp.tag && final(self).ipcp.tag == old(self).ipcp.tag,
    {
        self.auth_done = true;
        let packets = self.start_ipcp();
        let mut events: Vec<StatusEvent> = Vec::new();
        events.push(StatusEvent::NegotiatingIpcp);
        assert(events@ =~= seq![StatusEvent::NegotiatingIpcp]);
        NegStep { packets, events, outcome: Ok(()) }
    }

    fn on_lcp_frame(&mut self, ctrl: PppControlFrame, username: &str, password: &str) -> (r: NegStep)
        requires
            old(self).wf(),
        ensures
            final(self).wf(),
            step_is(final(self)@, r, lcp_frame_step(old(self)@, ctrl@, username.spec_bytes(), password.spec_bytes())),
            final(self).lcp.tag == old(self).lcp.tag && final(self).ipcp.tag == old(self).ipcp.tag,
    {
        let (mut packets, shutdown) = feed(&mut self.lcp, FsmEvent::ReceiveFrame(ctrl), PPP_LCP);
        let mut events: Vec<StatusEvent> = Vec::new();
        if shutdown {
            return NegStep { packets, events, outcome: Err(ProtoError::ShutdownRequested) };
        }
        if self.lcp.is_opened() && !self.auth_done {
            events.push(StatusEvent::Authenticating);
            assert(events@ =~= seq![StatusEvent::Authenticating]);
            match get_auth_method(&self.lcp) {
                Some(AuthMethod::Pap) => {
                    // PAP: send our request at once.
                    let pap = control_packet_bytes(PPP_PAP, PPP_PAP_REQUEST, 1, build_pap_payload(username, password));
                    let ghost before = packet_views(packets@);
                    packets.push(pap);
                    assert(packet_views(packets@) =~= before.push(pap@));
                },
                // CHAP: wait for the server's challenge.
                _ => {},
            }
        } else {
            assert(events@ =~= Seq::<StatusEvent>::empty());
        }
        NegStep { packets, events, outcome: Ok(()) }
    }

    fn on_pap_frame(&mut self, ctrl: PppControlFrame) -> (r: NegStep)
        requires
            old(self).wf(),
        ensures
            final(self).wf(),
            step_is(final(self)@, r, pap_frame_step(old(self)@, ctrl@)),
            final(self).lcp.tag == old(self).lcp.tag && final(self).ipcp.tag == old(self).ipcp.tag,
    {
        if ctrl.code == PPP_PAP_SUCCESS {
            self.on_auth_success()
        } else if ctrl.code == PPP_PAP_FAILURE {
            let mut events: Vec<StatusEvent> = Vec::new();
            events.push(StatusEvent::AuthFailed);
            assert(events@ =~= seq![StatusEvent::AuthFailed]);
            NegStep { packets: no_packets(), events, outcome: Err(ProtoError::PapFailed) }
        } else {
            let events: Vec<StatusEvent> = Vec::new();
            assert(events@ =~= Seq::<StatusEvent>::empty());
            NegStep { packets: no_packets(), events, outcome: Ok(()) }
        }
    }

    fn on_chap_frame(&mut self, ctrl: PppControlFrame, username: &str, password: &str) -> (r: NegStep)
        requires
            old(self).wf(),
        ensures
            final(self).wf(),
            exists|peer: Seq<u8>| peer.len() == 16 && step_is(final(self)@, r,
                #[trigger] chap_frame_step(old(self)@, ctrl@, username.spec_bytes(), password.spec_bytes(), peer)),
            final(self).lcp.tag == old(self).lcp.tag && final(self).ipcp.tag == old(self).ipcp.tag,
    {
        let ghost user = username.spec_bytes();
        let ghost pass = password.spec_bytes();
        let ghost zeros = Seq::new(16, |i: int| 0u8);
        let events: Vec<StatusEvent> = Vec::new();
        assert(events@ =~= Seq::<StatusEvent>::empty());
        if ctrl.code == PPP_CHAP_CHALLENGE {
            let challenge = match ChapChallenge::parse(ctrl.data.as_slice()) {
                Ok(c) => c,
                Err(e) => {
                    let r = NegStep { packets: no_packets(), events, outcome: Err(e) };
                    assert(step_is(self@, r, chap_frame_step(old(self)@, ctrl@, user, pass, zeros)));
                    return r;
                },
            };
            let method = match get_auth_method(&self.lcp) {
                Some(m) => m,
                None => {
                    let r = NegStep { packets: no_packets(), events, outcome: Err(ProtoError::NoAuthMethod) };
                    assert(step_is(self@, r, chap_frame_step(old(self)@, ctrl@, user, pass, zeros)));
                    return r;
                },
            };
            let v2 = match method {
                AuthMethod::MsChapV2 => true,
                _ => false,
            };
            if v2 && challenge.value.len() < 16 {
                let r = NegStep { packets: no_packets(), events, outcome: Err(ProtoError::ChallengeTooShort) };
                assert(step_is(self@, r, chap_frame_step(old(self)@, ctrl@, user, pass, zeros)));
                return r;
            }
            let response_value = match authenticate(method, username, password, challenge.value.as_slice()) {
                Ok(v) => v,
                Err(e) => {
                    let r = NegStep { packets: no_packets(), events, outcome: Err(e) };
                    return r;
                },
            };
            let ghost peer = if v2 { response_value@.take(16) } else { zeros };
            let chap_payload = build_chap_response(response_value.as_slice(), username);
            let pkt = control_packet_bytes(PPP_CHAP, PPP_CHAP_RESPONSE, ctrl.identifier, chap_payload);
            let r = NegStep { packets: one_packet(pkt), events, outcome: Ok(()) };
            assert(step_is(self@, r, chap_frame_step(old(self)@, ctrl@, user, pass, peer)));
            r
        } else if ctrl.code == PPP_CHAP_SUCCESS {
            let r = self.on_auth_success();
            assert(step_is(self@, r, chap_frame_step(old(self)@, ctrl@, user, pass, zeros)));
            r
        } else if ctrl.code == PPP_CHAP_FAILURE {
            let mut events: Vec<StatusEvent> = Vec::new();
            events.push(StatusEvent::AuthFailed);
            assert(events@ =~= seq![StatusEvent::AuthFailed]);
            let r = NegStep { packets: no_packets(), events, outcome: Err(ProtoError::ChapFailed) };
            assert(step_is(self@, r, chap_frame_step(old(self)@, ctrl@, user, pass, zeros)));
            r
        } else {
            let r = NegStep { packets: no_packets(), events, outcome: Ok(()) };
            assert(step_is(self@, r, chap_frame_step(old(self)@, ctrl@, user, pass, zeros)));
            r
        }
    }

    fn on_ipcp_frame(&mut self, ctrl: PppControlFrame) -> (r: NegStep)
        requires
            old(self).wf(),
        ensures
            final(self).wf(),
            step_is(final(self)@, r, ipcp_frame_step(old(self)@, ctrl@)),
            final(self).lcp.tag == old(self).lcp.tag && final(self).ipcp.tag == old(self).ipcp.tag,
    {
        let mut events: Vec<StatusEvent> = Vec::new();
        let mut packets = no_packets();
        if !self.ipcp_started {
            // The router may start IPCP before authentication completes.
            events.push(StatusEvent::NegotiatingIpcp);
            assert(events@ =~= seq![StatusEvent::NegotiatingIpcp]);
            packets = self.start_ipcp();
        } else {
            assert(events@ =~= Seq::<StatusEvent>::empty());
        }
        let (more, shutdown) = feed(&mut self.ipcp, FsmEvent::ReceiveFrame(ctrl), PPP_IPCP);
        push_packets(&mut packets, more);
        if shutdown {
            NegStep { packets, events, outcome: Err(ProtoError::ShutdownRequested) }
        } else {
            NegStep { packets, events, outcome: Ok(()) }
        }
    }

    fn on_ccp_frame(&mut self, ctrl: PppControlFrame) -> (r: NegStep)
        requires
            old(self).wf(),
        ensures
            final(self).wf(),
            step_is(final(self)@, r, ccp_frame_step(old(self)@, ctrl@)),
            final(self).lcp.tag == old(self).lcp.tag && final(self).ipcp.tag == old(self).ipcp.tag,
    {
        let events: Vec<StatusEvent> = Vec::new();
        assert(events@ =~= Seq::<StatusEvent>::empty());
        if ctrl.code == PPP_CONFIG_REQ {
            match ctrl.parse_options() {
                Ok(options) => {
                    let reject = PppControlFrame::config_reject(ctrl.identifier, options.as_slice());
                    let pkt = PppFrame::new(PPP_CCP, reject.to_bytes()).to_sstp_bytes();
                    NegStep { packets: one_packet(pkt), events, outcome: Ok(()) }
                },
                Err(e) => NegStep { packets: no_packets(), events, outcome: Err(e) },
            }
        } else {
            NegStep { packets: no_packets(), events, outcome: Ok(()) }
        }
    }

    /// Process one SSTP packet from the server. The packets of the result are
    /// to be written before its outcome is acted on; an `Err` outcome ends the
    /// negotiation. With MS-CHAPv2 the response carries a random peer challenge.
    pub fn on_packet(&mut self, sstp: &SstpPacket, username: &str, password: &str) -> (r: NegStep)
        requires
            old(self).wf(),
        ensures
            final(self).wf(),
            exists|peer: Seq<u8>| peer.len() == 16 && step_is(final(self)@, r,
                #[trigger] packet_step(old(self)@, sstp@, username.spec_bytes(), password.spec_bytes(), peer)),
            final(self).lcp.tag == old(self).lcp.tag && final(self).ipcp.tag == old(self).ipcp.tag,
    {
        let ghost user = username.spec_bytes();
        let ghost pass = password.spec_bytes();
        let ghost e = Seq::new(16, |i: int| 0u8);
        let events: Vec<StatusEvent> = Vec::new();
        assert(events@ =~= Seq::<StatusEvent>::empty());
        if sstp.is_close() {
            let r = NegStep { packets: no_packets(), events, outcome: Err(ProtoError::ServerClosed) };
            assert(step_is(self@, r, packet_step(old(self)@, sstp@, user, pass, e)));
            return r;
        }
        if sstp.is_reply() || sstp.is_request() {
            // Keepalive traffic is ignored during negotiation.
            let r = NegStep { packets: no_packets(), events, outcome: Ok(()) };
            assert(step_is(self@, r, packet_step(old(self)@, sstp@, user, pass, e)));
            return r;
        }
        if !sstp.is_data() {
            let r = NegStep { packets: no_packets(), events, outcome: Err(ProtoError::UnexpectedCommand(sstp.command)) };
            assert(step_is(self@, r, packet_step(old(self)@, sstp@, user, pass, e)));
            return r;
        }
        let ppp = match PppFrame::parse(sstp.data.as_slice()) {
            Ok(f) => f,
            Err(err) => {
                let r = NegStep { packets: no_packets(), events, outcome: Err(err) };
                assert(step_is(self@, r, packet_step(old(self)@, sstp@, user, pass, e)));
                return r;
            },
        };
        if ppp.is_lcp() || ppp.is_pap() || ppp.is_chap() || ppp.is_ipcp() || ppp.is_ccp() {
            let ctrl = match PppControlFrame::parse(ppp.information.as_slice()) {
                Ok(c) => c,
                Err(err) => {
                    let r = NegStep { packets: no_packets(), events, outcome: Err(err) };
                    assert(step_is(self@, r, packet_step(old(self)@, sstp@, user, pass, e)));
                    return r;
                },
            };
            if ppp.is_lcp() {
                let r = self.on_lcp_frame(ctrl, username, password);
                assert(step_is(self@, r, packet_step(old(self)@, sstp@, user, pass, e)));
                r
            } else if ppp.is_pap() {
                let r = self.on_pap_frame(ctrl);
                assert(step_is(self@, r, packet_step(old(self)@, sstp@, user, pass, e)));
                r
            } else if ppp.is_chap() {
                let ghost c = ctrl@;
                let r = self.on_chap_frame(ctrl, username, password);
                proof {
                    let peer = choose|peer: Seq<u8>| peer.len() == 16 && step_is(self@, r, #[trigger] chap_frame_step(old(self)@, c, user, pass, peer));
                    assert(step_is(self@, r, packet_step(old(self)@, sstp@, user, pass, peer)));
                }
                r
            } else if ppp.is_ipcp() {
                let r = self.on_ipcp_frame(ctrl);
                assert(step_is(self@, r, packet_step(old(self)@, sstp@, user, pass, e)));
                r
            } else {
                let r = self.on_ccp_frame(ctrl);
                assert(step_is(self@, r, packet_step(old(self)@, sstp@, user, pass, e)));
                r
            }
        } else {
            // Other protocols are ignored during negotiation.
            let r = NegStep { packets: no_packets(), events, outcome: Ok(()) };
            assert(step_is(self@, r, packet_step(old(self)@, sstp@, user, pass, e)));
            r
        }
    }

    /// A read timed out: the machines waiting for an answer retransmit.
    pub fn on_read_timeout(&mut self) -> (r: NegStep)
        requires
            old(self).wf(),
        ensures
            final(self).wf(),
            step_is(final(self)@, r, timeout_packets(old(self)@)),
            final(self).lcp.tag == old(self).lcp.tag && final(self).ipcp.tag == old(self).ipcp.tag,
    {
        let events: Vec<StatusEvent> = Vec::new();
        assert(events@ =~= Seq::<StatusEvent>::empty());
        let mut packets = no_packets();
        let st = self.lcp.state;
        if st == FsmState::ReqSent || st == FsmState::AckRecvd || st == FsmState::AckSent {
            let (p, shutdown) = feed(&mut self.lcp, FsmEvent::Timeout, PPP_LCP);
            packets = p;
            if shutdown {
                return NegStep { packets, events, outcome: Err(ProtoError::ShutdownRequested) };
            }
        } else {
            assert(action_packets(Seq::<ActionView>::empty(), PPP_LCP) =~= Seq::<Seq<u8>>::empty());
        }
        let ist = self.ipcp.state;
        if self.ipcp_started && (ist == FsmState::ReqSent || ist == FsmState::AckRecvd || ist == FsmState::AckSent) {
            let (more, shutdown) = feed(&mut self.ipcp, FsmEvent::Timeout, PPP_IPCP);
            push_packets(&mut packets, more);
            if shutdown {
                return NegStep { packets, events, outcome: Err(ProtoError::ShutdownRequested) };
            }
        }
        NegStep { packets, events, outcome: Ok(()) }
    }
}

/// Whether the negotiation has run out of time after `elapsed_nanos`
/// nanoseconds: once `NEGOTIATION_TIMEOUT_SECS` have passed it fails.
pub fn negotiation_expired(elapsed_nanos: u128) -> (r: bool)
    ensures
        r == (elapsed_nanos >= NEGOTIATION_TIMEOUT_SECS * crate::clock::NANOS_PER_SEC),
{
    elapsed_nanos >= NEGOTIATION_TIMEOUT_SECS as u128 * crate::clock::NANOS_PER_SEC
}

/// A refused login ends the negotiation: a PAP or CHAP failure from the
/// server is reported as an authentication failure, nothing is sent, and the
/// negotiation stops with an error.
pub proof fn lemma_refused_login_ends(n: NegView, protocol: u16, id: u8, data: Seq<u8>, user: Seq<u8>, pass: Seq<u8>, peer: Seq<u8>)
    requires
        protocol == PPP_PAP || protocol == PPP_CHAP,
        data.len() <= 65531,
    ensures
        ({
            let code = if protocol == PPP_PAP { PPP_PAP_FAILURE } else { PPP_CHAP_FAILURE };
            let (n2, packets, events, outcome) = ppp_step(n, protocol, control_frame_bytes(code, id, data), user, pass, peer);
            &&& n2 == n
            &&& packets.len() == 0
            &&& events == seq![StatusEvent::AuthFailed]
            &&& outcome is Err
        }),
{
    let code = if protocol == PPP_PAP { PPP_PAP_FAILURE } else { PPP_CHAP_FAILURE };
    crate::ppp_control::lemma_parse_control_frame_roundtrip(code, id, data, Seq::empty());
    assert(control_frame_bytes(code, id, data) + Seq::<u8>::empty() =~= control_frame_bytes(code, id, data));
}

/// What the negotiation settled, handed to the data phase.
pub struct NegotiationResult {
    pub lcp_fsm: PppFsm,
    pub ipcp_fsm: PppFsm,
    pub socket_buf: BytesMut,
    pub local_ip: Ipv4,
    pub remote_ip: Ipv4,
    pub dns: Option<Ipv4>,
    pub local_mru: u16,
    pub remote_mru: u16,
    pub mtu: u16,
}

/// An optional address as octets.
pub open spec fn ip_octets(ip: Option<Ipv4>) -> Option<Seq<u8>> {
    match ip {
        Some(a) => Some(a.octet_seq()),
        None => None,
    }
}

impl Negotiator {
    /// The negotiated parameters: our address (required), the peer's address
    /// (0.0.0.0 if none), the DNS server if assigned, both MRUs (the default if
    /// not negotiated) and the MTU, the smaller MRU.
    pub fn finish(self, socket_buf: BytesMut) -> (r: Result<NegotiationResult, ProtoError>)
        ensures
            ({
                let local = crate::ipcp::ip_of(option_data(self@.ipcp.negotiated_local, crate::constants::PPP_IPCP_CONFIG_IP_ADDR));
                let remote = crate::ipcp::ip_of(option_data(self@.ipcp.negotiated_remote, crate::constants::PPP_IPCP_CONFIG_IP_ADDR));
                let dns = crate::ipcp::ip_of(option_data(self@.ipcp.negotiated_local, crate::constants::PPP_IPCP_CONFIG_DNS_ADDR));
                let lm = crate::lcp::mru_of(option_data(self@.lcp.negotiated_local, crate::constants::PPP_LCP_CONFIG_MRU));
                let rm = crate::lcp::mru_of(option_data(self@.lcp.negotiated_remote, crate::constants::PPP_LCP_CONFIG_MRU));
                match r {
                    Err(e) => e == ProtoError::NoLocalIp && local is None,
                    Ok(n) => {
                        &&& local == Some(n.local_ip.octet_seq())
                        &&& n.remote_ip.octet_seq() == (match remote { Some(o) => o, None => seq![0u8, 0u8, 0u8, 0u8] })
                        &&& ip_octets(n.dns) == dns
                        &&& n.local_mru == (match lm { Some(m) => m, None => DEFAULT_MRU })
                        &&& n.remote_mru == (match rm { Some(m) => m, None => DEFAULT_MRU })
                        &&& n.mtu == (if n.local_mru <= n.remote_mru { n.local_mru } else { n.remote_mru })
                        &&& n.lcp_fsm@ == self@.lcp && n.ipcp_fsm@ == self@.ipcp
                        &&& n.socket_buf == socket_buf
                    },
                }
            }),
    {
        let local_ip = match get_local_ip(&self.ipcp) {
            Some(ip) => ip,
            None => return Err(ProtoError::NoLocalIp),
        };
        let remote_ip = match get_remote_ip(&self.ipcp) {
            Some(ip) => ip,
            None => Ipv4::new(0, 0, 0, 0),
        };
        let dns = get_local_dns(&self.ipcp);
        let local_mru = match get_local_mru(&self.lcp) {
            Some(m) => m,
            None => DEFAULT_MRU,
        };
        let remote_mru = match get_remote_mru(&self.lcp) {
            Some(m) => m,
            None => DEFAULT_MRU,
        };
        let mtu = if local_mru <= remote_mru { local_mru } else { remote_mru };
        Ok(NegotiationResult {
            lcp_fsm: self.lcp,
            ipcp_fsm: self.ipcp,
            socket_buf,
            local_ip,
            remote_ip,
            dns,
            local_mru,
            remote_mru,
            mtu,
        })
    }
}

} // verus!
