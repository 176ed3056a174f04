//! LCP (Link Control Protocol) option sets and the results LCP negotiates.
use vstd::prelude::*;
use crate::constants::{AuthMethod, AUTH_MSCHAPV1_DATA, AUTH_MSCHAPV2_DATA, AUTH_PAP_DATA, DEFAULT_MRU, PPP_LCP_CONFIG_AUTH_PROTO, PPP_LCP_CONFIG_MRU, PPP_LCP_MAGIC_NUM};
use crate::fsm::{first_of_type, FsmState, FsmView, PppFsm};
use crate::ppp_control::{option_views, OptionView, PppControlOption};
use crate::wire::{be16, hi_byte, join_u16, lo_byte, split_u16};

verus! {

/// The MRU proposed for a configured value: 0 stands for the default.
pub open spec fn proposed_mru(mru: u16) -> u16 {
    if mru == 0 { DEFAULT_MRU } else { mru }
}

/// The options of a new LCP machine: we propose our MRU; we accept any MRU, any
/// magic number and PAP, MS-CHAPv2 or MS-CHAPv1; we demand nothing of the peer.
pub open spec fn lcp_options(mru: u16) -> (Seq<OptionView>, Seq<OptionView>, Seq<OptionView>) {
    let m = proposed_mru(mru);
    (
        seq![(PPP_LCP_CONFIG_MRU, seq![hi_byte(m), lo_byte(m)], false)],
        seq![
            (PPP_LCP_CONFIG_MRU, Seq::<u8>::empty(), false),
            (PPP_LCP_MAGIC_NUM, Seq::<u8>::empty(), false),
            (PPP_LCP_CONFIG_AUTH_PROTO, seq![0xC0u8, 0x23u8], false),
            (PPP_LCP_CONFIG_AUTH_PROTO, seq![0xC2u8, 0x23u8, 0x81u8], false),
            (PPP_LCP_CONFIG_AUTH_PROTO, seq![0xC2u8, 0x23u8, 0x80u8], false),
        ],
        Seq::empty(),
    )
}

/// A new LCP machine as a value.
pub open spec fn create_lcp_fsm_view(mru: u16) -> FsmView {
    FsmView {
        state: FsmState::Initial,
        desired_local: lcp_options(mru).0,
        acceptable_remote: lcp_options(mru).1,
        desired_remote: lcp_options(mru).2,
        negotiated_local: Seq::empty(),
        negotiated_remote: Seq::empty(),
        restart_counter: 0,
        identifier: 0,
        request_id: 0,
    }
}

fn bytes_vec(data: &[u8]) -> (r: Vec<u8>)
    ensures
        r@ == data@,
{
    vstd::slice::slice_to_vec(data)
}

/// Create an LCP machine. `mru` is the Maximum Receive Unit we propose; 0 means
/// the default.
pub fn create_lcp_fsm(mru: u16) -> (r: PppFsm)
    ensures
        r.tag == "LCP",
        r@ == create_lcp_fsm_view(mru),
{
    let m = if mru == 0 { DEFAULT_MRU } else { mru };
    let (h, l) = split_u16(m);
    let mut mru_data: Vec<u8> = Vec::new();
    mru_data.push(h);
    mru_data.push(l);
    assert(mru_data@ =~= seq![hi_byte(proposed_mru(mru)), lo_byte(proposed_mru(mru))]);
    let mut desired_local: Vec<PppControlOption> = Vec::new();
    desired_local.push(PppControlOption::new(PPP_LCP_CONFIG_MRU, mru_data));

    let mut acceptable_remote: Vec<PppControlOption> = Vec::new();
    acceptable_remote.push(PppControlOption::new(PPP_LCP_CONFIG_MRU, Vec::new()));
    acceptable_remote.push(PppControlOption::new(PPP_LCP_MAGIC_NUM, Vec::new()));
    acceptable_remote.push(PppControlOption::new(PPP_LCP_CONFIG_AUTH_PROTO, bytes_vec(AUTH_PAP_DATA.as_slice())));
    acceptable_remote.push(PppControlOption::new(PPP_LCP_CONFIG_AUTH_PROTO, bytes_vec(AUTH_MSCHAPV2_DATA.as_slice())));
    acceptable_remote.push(PppControlOption::new(PPP_LCP_CONFIG_AUTH_PROTO, bytes_vec(AUTH_MSCHAPV1_DATA.as_slice())));

    let desired_remote: Vec<PppControlOption> = Vec::new();
    proof {
        assert(AUTH_PAP_DATA@ =~= seq![0xC0u8, 0x23u8]);
        assert(AUTH_MSCHAPV2_DATA@ =~= seq![0xC2u8, 0x23u8, 0x81u8]);
        assert(AUTH_MSCHAPV1_DATA@ =~= seq![0xC2u8, 0x23u8, 0x80u8]);
        assert(option_views(desired_local@) =~= lcp_options(mru).0);
        assert(option_views(acceptable_remote@) =~= lcp_options(mru).1);
        assert(option_views(desired_remote@) =~= lcp_options(mru).2);
    }
    PppFsm::new("LCP", desired_local, acceptable_remote, desired_remote)
}

/// The authentication method that option data names.
pub open spec fn auth_method_of(data: Seq<u8>) -> Option<AuthMethod> {
    if data == seq![0xC0u8, 0x23u8] {
        Some(AuthMethod::Pap)
    } else if data == seq![0xC2u8, 0x23u8, 0x81u8] {
        Some(AuthMethod::MsChapV2)
    } else if data == seq![0xC2u8, 0x23u8, 0x80u8] {
        Some(AuthMethod::MsChapV1)
    } else {
        None
    }
}

/// The value of the first option of type `t` in `opts`, if there is one.
pub open spec fn option_data(opts: Seq<OptionView>, t: u8) -> Option<Seq<u8>> {
    let i = first_of_type(opts, t);
    if 0 <= i < opts.len() { Some(opts[i].1) } else { None }
}

/// The MRU an MRU option's data carries: its first two bytes, big-endian.
pub open spec fn mru_of(data: Option<Seq<u8>>) -> Option<u16> {
    match data {
        Some(d) => if d.len() >= 2 { Some(be16(d[0], d[1]) as u16) } else { None },
        None => None,
    }
}

fn data_is(data: &[u8], expected: &[u8]) -> (r: bool)
    ensures
        r == (data@ == expected@),
{
    if data.len() != expected.len() {
        return false;
    }
    let mut i: usize = 0;
    while i < data.len()
        invariant
            i <= data@.len(),
            data@.len() == expected@.len(),
            forall|j: int| 0 <= j < i ==> data@[j] == expected@[j],
        decreases data@.len() - i,
    {
        if data[i] != expected[i] {
            return false;
        }
        i = i + 1;
    }
    assert(data@ =~= expected@);
    true
}

/// Determine the authentication method from the peer's negotiated options.
pub fn get_auth_method(fsm: &PppFsm) -> (r: Option<AuthMethod>)
    ensures
        r == (match option_data(fsm@.negotiated_remote, PPP_LCP_CONFIG_AUTH_PROTO) {
            Some(d) => auth_method_of(d),
            None => None,
        }),
{
    proof {
        assert(AUTH_PAP_DATA@ =~= seq![0xC0u8, 0x23u8]);
        assert(AUTH_MSCHAPV2_DATA@ =~= seq![0xC2u8, 0x23u8, 0x81u8]);
        assert(AUTH_MSCHAPV1_DATA@ =~= seq![0xC2u8, 0x23u8, 0x80u8]);
    }
    let auth_opt = match fsm.get_remote_option(PPP_LCP_CONFIG_AUTH_PROTO) {
        Some(o) => o,
        None => return None,
    };
    if data_is(auth_opt.data.as_slice(), AUTH_PAP_DATA.as_slice()) {
        Some(AuthMethod::Pap)
    } else if data_is(auth_opt.data.as_slice(), AUTH_MSCHAPV2_DATA.as_slice()) {
        Some(AuthMethod::MsChapV2)
    } else if data_is(auth_opt.data.as_slice(), AUTH_MSCHAPV1_DATA.as_slice()) {
        Some(AuthMethod::MsChapV1)
    } else {
        None
    }
}

fn mru_from(opt: Option<&PppControlOption>) -> (r: Option<u16>)
    ensures
        r == mru_of(match opt { Some(o) => Some(o.data@), None => None }),
{
    match opt {
        Some(o) => if o.data.len() >= 2 {
            Some(join_u16(o.data[0], o.data[1]))
        } else {
            None
        },
        None => None,
    }
}

/// The peer's MRU from its negotiated options.
pub fn get_remote_mru(fsm: &PppFsm) -> (r: Option<u16>)
    ensures
        r == mru_of(option_data(fsm@.negotiated_remote, PPP_LCP_CONFIG_MRU)),
{
    mru_from(fsm.get_remote_option(PPP_LCP_CONFIG_MRU))
}

/// Our MRU as the peer acknowledged it.
pub fn get_local_mru(fsm: &PppFsm) -> (r: Option<u16>)
    ensures
        r == mru_of(option_data(fsm@.negotiated_local, PPP_LCP_CONFIG_MRU)),
{
    mru_from(fsm.get_local_option(PPP_LCP_CONFIG_MRU))
}


/// The MRU an MRU option carries is the big-endian value of its first two
/// data bytes: the first is the high byte.
pub proof fn lemma_mru_is_big_endian(d: Seq<u8>)
    requires
        d.len() >= 2,
    ensures
        mru_of(Some(d)) matches Some(m) && m as int == d[0] as int * 256 + d[1] as int,
{
}

/// The MRU option a new LCP machine proposes for `mru` reads back as the MRU
/// proposed (the default for 0): what we ask for is what is read once acked.
pub proof fn lemma_proposed_mru_reads_back(mru: u16)
    ensures
        mru_of(option_data(create_lcp_fsm_view(mru).desired_local, PPP_LCP_CONFIG_MRU)) == Some(proposed_mru(mru)),
{
    let d = create_lcp_fsm_view(mru).desired_local;
    assert(first_of_type(d, PPP_LCP_CONFIG_MRU) == 0);
}

} // verus!
