use draytek_vpn::addr::Ipv4;
use draytek_vpn::data_plane::DataPlane;
use draytek_vpn::engine_common::TunnelAddrs;
use draytek_vpn::constants::{PPP_CHAP, PPP_CHAP_FAILURE, PPP_PAP, PPP_PAP_FAILURE};
use draytek_vpn::negotiate::{Negotiator, StatusEvent};
use draytek_vpn::ppp::PppFrame;
use draytek_vpn::sstp::SstpPacket;
use draytek_vpn::constants::{
    AUTH_MSCHAPV1_DATA, AUTH_MSCHAPV2_DATA, AUTH_PAP_DATA, PPP_CONFIG_ACK, PPP_CONFIG_REJECT, PPP_CONFIG_REQ,
    PPP_IPCP_CONFIG_DNS_ADDR, PPP_IPCP_CONFIG_IP_ADDR, PPP_LCP_CONFIG_AUTH_PROTO, PPP_LCP_CONFIG_MRU,
    PPP_LCP_MAGIC_NUM, PPP_RESTART_LIMIT, PPP_TERMINATE_ACK, PPP_TERMINATE_REQ,
};
use draytek_vpn::fsm::{FsmAction, FsmEvent, FsmState, PppFsm};
use draytek_vpn::ipcp::create_ipcp_fsm;
use draytek_vpn::lcp::create_lcp_fsm;
use draytek_vpn::ppp_control::{PppControlFrame, PppControlOption};

fn test_lcp_fsm() -> PppFsm {
    let desired_local = vec![PppControlOption::new(PPP_LCP_CONFIG_MRU, vec![0x05, 0x00])];
    let acceptable_remote = vec![
        PppControlOption::new(PPP_LCP_MAGIC_NUM, vec![]),
        PppControlOption::new(PPP_LCP_CONFIG_AUTH_PROTO, AUTH_PAP_DATA.to_vec()),
        PppControlOption::new(PPP_LCP_CONFIG_AUTH_PROTO, AUTH_MSCHAPV2_DATA.to_vec()),
        PppControlOption::new(PPP_LCP_CONFIG_AUTH_PROTO, AUTH_MSCHAPV1_DATA.to_vec()),
        PppControlOption::new(PPP_LCP_CONFIG_MRU, vec![]),
    ];
    let desired_remote = vec![];
    PppFsm::new("LCP", desired_local, acceptable_remote, desired_remote)
}

#[test]
fn test_initial_to_req_sent() {
    let mut fsm = test_lcp_fsm();
    assert_eq!(fsm.state, FsmState::Initial);

    let actions = fsm.handle_event(FsmEvent::Up);
    assert!(actions.is_empty());
    assert_eq!(fsm.state, FsmState::Closed);

    let actions = fsm.handle_event(FsmEvent::Open);
    assert_eq!(fsm.state, FsmState::ReqSent);
    assert_eq!(actions.len(), 1);
    match &actions[0] {
        FsmAction::SendFrame(f) => {
            assert_eq!(f.code, PPP_CONFIG_REQ);
        }
        _ => panic!("Expected SendFrame"),
    }
}

#[test]
fn test_normal_negotiation() {
    let mut fsm = test_lcp_fsm();
    fsm.handle_event(FsmEvent::Up);
    let actions = fsm.handle_event(FsmEvent::Open);
    assert_eq!(fsm.state, FsmState::ReqSent);

    let our_id = match &actions[0] {
        FsmAction::SendFrame(f) => f.identifier,
        _ => panic!(),
    };

    let peer_req = PppControlFrame::config_request(
        0x01,
        &[
            PppControlOption::new(PPP_LCP_CONFIG_MRU, vec![0x05, 0x00]),
            PppControlOption::new(PPP_LCP_MAGIC_NUM, vec![0xAA, 0xBB, 0xCC, 0xDD]),
        ],
    );
    let actions = fsm.handle_event(FsmEvent::ReceiveFrame(peer_req));
    assert_eq!(fsm.state, FsmState::AckSent);
    assert_eq!(actions.len(), 1);
    match &actions[0] {
        FsmAction::SendFrame(f) => assert_eq!(f.code, PPP_CONFIG_ACK),
        _ => panic!("Expected Config-Ack"),
    }

    let peer_ack = PppControlFrame::config_ack(our_id, &[PppControlOption::new(PPP_LCP_CONFIG_MRU, vec![0x05, 0x00])]);
    let actions = fsm.handle_event(FsmEvent::ReceiveFrame(peer_ack));
    assert_eq!(fsm.state, FsmState::Opened);
    assert!(actions.contains(&FsmAction::LayerUp));
}

#[test]
fn test_config_nak_retry() {
    let mut fsm = test_lcp_fsm();
    fsm.handle_event(FsmEvent::Up);
    let actions = fsm.handle_event(FsmEvent::Open);
    let our_id = match &actions[0] {
        FsmAction::SendFrame(f) => f.identifier,
        _ => panic!(),
    };

    let nak = PppControlFrame::config_nak(our_id, &[PppControlOption::new(PPP_LCP_CONFIG_MRU, vec![0x05, 0xDC])]);
    let actions = fsm.handle_event(FsmEvent::ReceiveFrame(nak));
    assert_eq!(fsm.state, FsmState::ReqSent);
    assert_eq!(actions.len(), 1);
    match &actions[0] {
        FsmAction::SendFrame(f) => {
            assert_eq!(f.code, PPP_CONFIG_REQ);
            let opts = f.parse_options().unwrap();
            assert_eq!(opts[0].data, vec![0x05, 0xDC]);
        }
        _ => panic!("Expected Config-Request"),
    }
}

#[test]
fn test_config_reject() {
    let mut fsm = test_lcp_fsm();
    fsm.handle_event(FsmEvent::Up);
    let actions = fsm.handle_event(FsmEvent::Open);
    let our_id = match &actions[0] {
        FsmAction::SendFrame(f) => f.identifier,
        _ => panic!(),
    };

    let reject =
        PppControlFrame::config_reject(our_id, &[PppControlOption::new(PPP_LCP_CONFIG_MRU, vec![0x05, 0x00])]);
    let actions = fsm.handle_event(FsmEvent::ReceiveFrame(reject));
    assert_eq!(fsm.state, FsmState::ReqSent);
    match &actions[0] {
        FsmAction::SendFrame(f) => {
            assert_eq!(f.code, PPP_CONFIG_REQ);
            let opts = f.parse_options().unwrap();
            assert!(!opts.iter().any(|o| o.option_type == PPP_LCP_CONFIG_MRU), "MRU should have been removed");
        }
        _ => panic!("Expected Config-Request"),
    }
}

#[test]
fn test_timeout_retry_and_max() {
    let mut fsm = test_lcp_fsm();
    fsm.handle_event(FsmEvent::Up);
    fsm.handle_event(FsmEvent::Open);

    for i in 0..PPP_RESTART_LIMIT {
        let actions = fsm.handle_event(FsmEvent::Timeout);
        assert_eq!(actions.len(), 1, "Timeout {i} should produce a SendFrame");
        match &actions[0] {
            FsmAction::SendFrame(f) => assert_eq!(f.code, PPP_CONFIG_REQ),
            _ => panic!("Expected SendFrame on timeout {i}"),
        }
        assert_eq!(fsm.state, FsmState::ReqSent);
    }

    let actions = fsm.handle_event(FsmEvent::Timeout);
    assert!(actions.contains(&FsmAction::Shutdown));
    assert_eq!(fsm.state, FsmState::Stopped);
}

#[test]
fn test_peer_sends_unrecognized_option() {
    let mut fsm = test_lcp_fsm();
    fsm.handle_event(FsmEvent::Up);
    fsm.handle_event(FsmEvent::Open);

    let peer_req = PppControlFrame::config_request(
        0x01,
        &[PppControlOption::new(PPP_LCP_CONFIG_MRU, vec![0x05, 0x00]), PppControlOption::new(99, vec![0x01, 0x02])],
    );
    let actions = fsm.handle_event(FsmEvent::ReceiveFrame(peer_req));
    assert_eq!(actions.len(), 1);
    match &actions[0] {
        FsmAction::SendFrame(f) => {
            assert_eq!(f.code, PPP_CONFIG_REJECT);
            let opts = f.parse_options().unwrap();
            assert_eq!(opts.len(), 1);
            assert_eq!(opts[0].option_type, 99);
        }
        _ => panic!("Expected Config-Reject"),
    }
}

#[test]
fn fsm_test_terminate_request() {
    let mut fsm = test_lcp_fsm();
    fsm.handle_event(FsmEvent::Up);
    fsm.handle_event(FsmEvent::Open);

    let term_req = PppControlFrame::terminate_request(0x05);
    let actions = fsm.handle_event(FsmEvent::ReceiveFrame(term_req));
    assert_eq!(fsm.state, FsmState::Initial);
    assert_eq!(actions.len(), 1);
    match &actions[0] {
        FsmAction::SendFrame(f) => {
            assert_eq!(f.code, PPP_TERMINATE_ACK);
            assert_eq!(f.identifier, 0x05);
        }
        _ => panic!("Expected Terminate-Ack"),
    }
}

#[test]
fn test_close_sends_terminate() {
    let mut fsm = test_lcp_fsm();
    fsm.state = FsmState::Opened;

    let actions = fsm.handle_event(FsmEvent::Close);
    assert_eq!(fsm.state, FsmState::Closing);
    assert_eq!(actions.len(), 1);
    match &actions[0] {
        FsmAction::SendFrame(f) => {
            assert_eq!(f.code, PPP_TERMINATE_REQ);
        }
        _ => panic!("Expected Terminate-Request"),
    }

    let term_ack = PppControlFrame::terminate_ack(fsm.identifier);
    let actions = fsm.handle_event(FsmEvent::ReceiveFrame(term_ack));
    assert_eq!(fsm.state, FsmState::Closed);
    assert!(actions.is_empty());
}

#[test]
fn test_ack_id_mismatch_ignored() {
    let mut fsm = test_lcp_fsm();
    fsm.handle_event(FsmEvent::Up);
    fsm.handle_event(FsmEvent::Open);

    let bad_ack = PppControlFrame::config_ack(0xFF, &[PppControlOption::new(PPP_LCP_CONFIG_MRU, vec![0x05, 0x00])]);
    let actions = fsm.handle_event(FsmEvent::ReceiveFrame(bad_ack));
    assert!(actions.is_empty());
    assert_eq!(fsm.state, FsmState::ReqSent);
}

#[test]
fn test_ack_recv_then_config_request_goes_opened() {
    let mut fsm = test_lcp_fsm();
    fsm.handle_event(FsmEvent::Up);
    let actions = fsm.handle_event(FsmEvent::Open);
    let our_id = match &actions[0] {
        FsmAction::SendFrame(f) => f.identifier,
        _ => panic!(),
    };

    let peer_ack = PppControlFrame::config_ack(our_id, &[PppControlOption::new(PPP_LCP_CONFIG_MRU, vec![0x05, 0x00])]);
    fsm.handle_event(FsmEvent::ReceiveFrame(peer_ack));
    assert_eq!(fsm.state, FsmState::AckRecvd);

    let peer_req = PppControlFrame::config_request(0x01, &[PppControlOption::new(PPP_LCP_CONFIG_MRU, vec![0x05, 0x00])]);
    let actions = fsm.handle_event(FsmEvent::ReceiveFrame(peer_req));
    assert_eq!(fsm.state, FsmState::Opened);
    assert!(actions.iter().any(|a| matches!(a, FsmAction::LayerUp)));
    assert!(actions.iter().any(|a| matches!(a, FsmAction::SendFrame(f) if f.code == PPP_CONFIG_ACK)));
}

#[test]
fn test_create_ipcp_fsm() {
    let fsm = create_ipcp_fsm();
    assert_eq!(fsm.state, FsmState::Initial);
    assert_eq!(fsm.tag, "IPCP");
    assert_eq!(fsm.desired_local_options.len(), 2);
}

#[test]
fn test_ipcp_nak_assigns_ip() {
    let mut fsm = create_ipcp_fsm();
    fsm.handle_event(FsmEvent::Up);
    let actions = fsm.handle_event(FsmEvent::Open);
    let our_id = match &actions[0] {
        FsmAction::SendFrame(f) => f.identifier,
        _ => panic!(),
    };

    let nak = PppControlFrame::config_nak(
        our_id,
        &[
            PppControlOption::new(PPP_IPCP_CONFIG_IP_ADDR, vec![10, 0, 0, 100]),
            PppControlOption::new(PPP_IPCP_CONFIG_DNS_ADDR, vec![8, 8, 8, 8]),
        ],
    );
    let actions = fsm.handle_event(FsmEvent::ReceiveFrame(nak));
    match &actions[0] {
        FsmAction::SendFrame(f) => {
            let opts = f.parse_options().unwrap();
            let ip_opt = opts.iter().find(|o| o.option_type == PPP_IPCP_CONFIG_IP_ADDR).unwrap();
            assert_eq!(ip_opt.data, vec![10, 0, 0, 100]);
            let dns_opt = opts.iter().find(|o| o.option_type == PPP_IPCP_CONFIG_DNS_ADDR).unwrap();
            assert_eq!(dns_opt.data, vec![8, 8, 8, 8]);
        }
        _ => panic!(),
    }
}

#[test]
fn test_create_lcp_fsm() {
    let fsm = create_lcp_fsm(0);
    assert_eq!(fsm.state, FsmState::Initial);
    assert_eq!(fsm.tag, "LCP");
    assert_eq!(fsm.desired_local_options.len(), 1);
    assert_eq!(fsm.acceptable_remote_options.len(), 5);
    assert_eq!(fsm.desired_local_options[0].data, vec![0x05, 0x00]);
}

// A stopped machine answers nothing and stays stopped, whatever comes.
#[test]
fn stopped_machine_stays_stopped() {
    let mut fsm = test_lcp_fsm();
    fsm.state = FsmState::Stopped;
    for ev in [FsmEvent::Up, FsmEvent::Open, FsmEvent::Timeout] {
        fsm.handle_event(ev);
        assert_eq!(fsm.state, FsmState::Stopped);
    }
}

// An explicit MRU is proposed as given.
#[test]
fn lcp_fsm_with_mru_proposes_it() {
    let fsm = create_lcp_fsm(1400);
    assert_eq!(fsm.desired_local_options[0].data, vec![0x05, 0x78]);
}

fn server_packet(protocol: u16, frame: PppControlFrame) -> SstpPacket {
    let bytes = PppFrame::new(protocol, frame.to_bytes()).to_sstp_bytes();
    let (packet, used) = SstpPacket::parse(&bytes).unwrap().unwrap();
    assert_eq!(used, bytes.len());
    packet
}

#[test]
fn negotiator_refused_login_ends() {
    let (mut neg, first) = Negotiator::start(1400);
    assert_eq!(first.len(), 1);
    assert!(!neg.is_done());
    for protocol in [PPP_PAP, PPP_CHAP] {
        let code = if protocol == PPP_PAP { PPP_PAP_FAILURE } else { PPP_CHAP_FAILURE };
        let step = neg.on_packet(&server_packet(protocol, PppControlFrame::new(code, 7)), "user", "pass");
        assert!(step.packets.is_empty());
        assert_eq!(step.events, vec![StatusEvent::AuthFailed]);
        assert!(step.outcome.is_err());
    }
}

#[test]
fn negotiator_server_close_ends() {
    let (mut neg, _) = Negotiator::start(1400);
    let step = neg.on_packet(&SstpPacket::close(), "user", "pass");
    assert!(step.packets.is_empty());
    assert!(step.events.is_empty());
    assert!(step.outcome.is_err());
}

#[test]
fn open_before_up_does_not_report_layer_up() {
    let mut fsm = test_lcp_fsm();
    let actions = fsm.handle_event(FsmEvent::Open);
    assert!(actions.is_empty());
    assert_eq!(fsm.state, FsmState::Closed);
    let actions = fsm.handle_event(FsmEvent::Open);
    assert_eq!(fsm.state, FsmState::ReqSent);
    assert!(matches!(&actions[0], FsmAction::SendFrame(f) if f.code == PPP_CONFIG_REQ));
}

#[test]
fn acked_request_gives_remote_options() {
    let mut fsm = test_lcp_fsm();
    fsm.handle_event(FsmEvent::Up);
    fsm.handle_event(FsmEvent::Open);
    let opts = [
        PppControlOption::new(PPP_LCP_MAGIC_NUM, vec![1, 2, 3, 4]),
        PppControlOption::new(PPP_LCP_CONFIG_MRU, vec![0x05, 0x78]),
    ];
    let actions = fsm.handle_event(FsmEvent::ReceiveFrame(PppControlFrame::config_request(9, &opts)));
    assert!(actions.iter().any(|a| matches!(a, FsmAction::SendFrame(f) if f.code == PPP_CONFIG_ACK && f.identifier == 9)));
    assert_eq!(fsm.get_remote_option(PPP_LCP_CONFIG_MRU).unwrap().data, vec![0x05, 0x78]);
    assert_eq!(fsm.get_remote_option(PPP_LCP_MAGIC_NUM).unwrap().data, vec![1, 2, 3, 4]);
    assert!(fsm.get_remote_option(PPP_LCP_CONFIG_AUTH_PROTO).is_none());
}

#[test]
fn data_plane_timer_when_nothing_is_due() {
    let addrs = TunnelAddrs {
        mtu: 1400,
        local_ip: Ipv4 { a: 10, b: 0, c: 0, d: 2 },
        remote_ip: Ipv4 { a: 10, b: 0, c: 0, d: 1 },
    };
    let (mut dp, first_ping) = DataPlane::new(create_lcp_fsm(0), create_ipcp_fsm(), addrs, true);
    assert!(first_ping.is_some());
    let seq = dp.ping.seq;
    let step = dp.on_timer();
    assert!(step.outcome.is_ok());
    assert!(step.packets.is_empty());
    assert_eq!(dp.ping.seq, seq);
    assert!(dp.ping.enabled);
    assert_eq!(dp.keepalive.request_counter, 0);
}

#[test]
fn negotiation_deadline() {
    assert!(!draytek_vpn::negotiate::negotiation_expired(29_999_999_999));
    assert!(draytek_vpn::negotiate::negotiation_expired(30_000_000_000));
}
