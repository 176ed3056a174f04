//! IPCP (IP Control Protocol) option sets and the addresses IPCP negotiates.
use vstd::prelude::*;
use crate::addr::{parse_ip, Ipv4};
use crate::constants::{PPP_IPCP_CONFIG_DNS_ADDR, PPP_IPCP_CONFIG_IP_ADDR};
use crate::fsm::{FsmState, FsmView, PppFsm};
use crate::lcp::option_data;
use crate::ppp_control::{option_views, OptionView, PppControlOption};

verus! {

/// The options of a new IPCP machine: we ask for 0.0.0.0 as address and DNS
/// server (the router assigns them), accept any address and DNS from the
/// router, and demand nothing.
pub open spec fn ipcp_options() -> (Seq<OptionView>, Seq<OptionView>, Seq<OptionView>) {
    (
        seq![
            (PPP_IPCP_CONFIG_IP_ADDR, seq![0u8, 0u8, 0u8, 0u8], false),
            (PPP_IPCP_CONFIG_DNS_ADDR, seq![0u8, 0u8, 0u8, 0u8], false),
        ],
        seq![
            (PPP_IPCP_CONFIG_IP_ADDR, Seq::<u8>::empty(), false),
            (PPP_IPCP_CONFIG_DNS_ADDR, Seq::<u8>::empty(), false),
        ],
        Seq::empty(),
    )
}

/// A new IPCP machine as a value.
pub open spec fn create_ipcp_fsm_view() -> FsmView {
    FsmView {
        state: FsmState::Initial,
        desired_local: ipcp_options().0,
        acceptable_remote: ipcp_options().1,
        desired_remote: ipcp_options().2,
        negotiated_local: Seq::empty(),
        negotiated_remote: Seq::empty(),
        restart_counter: 0,
        identifier: 0,
        request_id: 0,
    }
}

fn zero_ip() -> (r: Vec<u8>)
    ensures
        r@ == seq![0u8, 0u8, 0u8, 0u8],
{
    let mut v: Vec<u8> = Vec::new();
    v.push(0u8);
    v.push(0u8);
    v.push(0u8);
    v.push(0u8);
    assert(v@ =~= seq![0u8, 0u8, 0u8, 0u8]);
    v
}

/// Create an IPCP machine.
pub fn create_ipcp_fsm() -> (r: PppFsm)
    ensures
        r.tag == "IPCP",
        r@ == create_ipcp_fsm_view(),
{
    let mut desired_local: Vec<PppControlOption> = Vec::new();
    desired_local.push(PppControlOption::new(PPP_IPCP_CONFIG_IP_ADDR, zero_ip()));
    desired_local.push(PppControlOption::new(PPP_IPCP_CONFIG_DNS_ADDR, zero_ip()));
    let mut acceptable_remote: Vec<PppControlOption> = Vec::new();
    acceptable_remote.push(PppControlOption::new(PPP_IPCP_CONFIG_IP_ADDR, Vec::new()));
    acceptable_remote.push(PppControlOption::new(PPP_IPCP_CONFIG_DNS_ADDR, Vec::new()));
    let desired_remote: Vec<PppControlOption> = Vec::new();
    proof {
        assert(option_views(desired_local@) =~= ipcp_options().0);
        assert(option_views(acceptable_remote@) =~= ipcp_options().1);
        assert(option_views(desired_remote@) =~= ipcp_options().2);
    }
    PppFsm::new("IPCP", desired_local, acceptable_remote, desired_remote)
}

/// The address an address option's data carries: its first four bytes.
pub open spec fn ip_of(data: Option<Seq<u8>>) -> Option<Seq<u8>> {
    match data {
        Some(d) => if d.len() >= 4 { Some(d.take(4)) } else { None },
        None => None,
    }
}

fn ip_from(fsm_opt: Option<&PppControlOption>) -> (r: Option<Ipv4>)
    ensures
        ip_of(match fsm_opt { Some(o) => Some(o.data@), None => None }) == (match r {
            Some(ip) => Some(ip.octet_seq()),
            None => None,
        }),
{
    match fsm_opt {
        Some(o) => parse_ip(o.data.as_slice()),
        None => None,
    }
}

/// The local address assigned to us, from our negotiated options.
pub fn get_local_ip(fsm: &PppFsm) -> (r: Option<Ipv4>)
    ensures
        ip_of(option_data(fsm@.negotiated_local, PPP_IPCP_CONFIG_IP_ADDR)) == (match r {
            Some(ip) => Some(ip.octet_seq()),
            None => None,
        }),
{
    ip_from(fsm.get_local_option(PPP_IPCP_CONFIG_IP_ADDR))
}

/// The DNS server assigned to us, from our negotiated options.
pub fn get_local_dns(fsm: &PppFsm) -> (r: Option<Ipv4>)
    ensures
        ip_of(option_data(fsm@.negotiated_local, PPP_IPCP_CONFIG_DNS_ADDR)) == (match r {
            Some(ip) => Some(ip.octet_seq()),
            None => None,
        }),
{
    ip_from(fsm.get_local_option(PPP_IPCP_CONFIG_DNS_ADDR))
}

/// The peer's address, from its negotiated options.
pub fn get_remote_ip(fsm: &PppFsm) -> (r: Option<Ipv4>)
    ensures
        ip_of(option_data(fsm@.negotiated_remote, PPP_IPCP_CONFIG_IP_ADDR)) == (match r {
            Some(ip) => Some(ip.octet_seq()),
            None => None,
        }),
{
    ip_from(fsm.get_remote_option(PPP_IPCP_CONFIG_IP_ADDR))
}

} // verus!
