//! PPP frames as carried inside SSTP DATA packets:
//! `0xFF, 0x03, protocol (big-endian), information`.
use vstd::prelude::*;
use vstd::slice::slice_to_vec;
use crate::constants::{PPP_ADDRESS, PPP_CCP, PPP_CHAP, PPP_CONTROL, PPP_IPCP, PPP_IPV4_DATA, PPP_LCP, PPP_PAP, SSTP_CMD_DATA};
use crate::error::ProtoError;
use crate::wire::{be16, hi_byte, join_u16, lo_byte, split_u16, trunc16, truncate_len16};

verus! {

/// A PPP frame: protocol number and information field.
#[derive(Debug, Clone, PartialEq, Eq)]
pub struct PppFrame {
    pub protocol: u16,
    pub information: Vec<u8>,
}

/// The wire encoding of a PPP frame.
pub open spec fn ppp_frame_bytes(protocol: u16, information: Seq<u8>) -> Seq<u8> {
    seq![PPP_ADDRESS, PPP_CONTROL, hi_byte(protocol), lo_byte(protocol)] + information
}

/// The SSTP DATA packet carrying a PPP frame; its length field counts the PPP frame.
pub open spec fn sstp_data_bytes(protocol: u16, information: Seq<u8>) -> Seq<u8> {
    let ppp = ppp_frame_bytes(protocol, information);
    let len = trunc16(ppp.len() as int);
    seq![SSTP_CMD_DATA, 0u8, hi_byte(len), lo_byte(len)] + ppp
}

/// Decoding a PPP frame: address and control bytes are not checked.
pub open spec fn parse_ppp_frame_spec(b: Seq<u8>) -> Result<(u16, Seq<u8>), ProtoError> {
    if b.len() < 4 {
        Err(ProtoError::FrameTooShort)
    } else {
        Ok((be16(b[2], b[3]) as u16, b.skip(4)))
    }
}

impl PppFrame {
    /// A frame with the given protocol and information field.
    pub fn new(protocol: u16, information: Vec<u8>) -> (r: Self)
        ensures
            r.protocol == protocol,
            r.information@ == information@,
    {
        PppFrame { protocol, information }
    }

    /// An IPv4 data frame.
    pub fn ipv4(ip_packet: Vec<u8>) -> (r: Self)
        ensures
            r.protocol == PPP_IPV4_DATA,
            r.information@ == ip_packet@,
    {
        PppFrame::new(PPP_IPV4_DATA, ip_packet)
    }

    /// Serialize to bytes (4-byte PPP header + information).
    pub fn to_bytes(&self) -> (r: Vec<u8>)
        ensures
            r@ == ppp_frame_bytes(self.protocol, self.information@),
    {
        let (h, l) = split_u16(self.protocol);
        let mut buf: Vec<u8> = Vec::new();
        buf.push(PPP_ADDRESS);
        buf.push(PPP_CONTROL);
        buf.push(h);
        buf.push(l);
        buf.extend_from_slice(self.information.as_slice());
        assert(buf@ =~= ppp_frame_bytes(self.protocol, self.information@));
        buf
    }

    /// Serialize to a complete SSTP DATA packet (SSTP header + PPP frame).
    pub fn to_sstp_bytes(&self) -> (r: Vec<u8>)
        ensures
            r@ == sstp_data_bytes(self.protocol, self.information@),
    {
        let ppp_bytes = self.to_bytes();
        let len = truncate_len16(ppp_bytes.len(), 0);
        let (h, l) = split_u16(len);
        let mut buf: Vec<u8> = Vec::new();
        buf.push(SSTP_CMD_DATA);
        buf.push(0u8);
        buf.push(h);
        buf.push(l);
        buf.extend_from_slice(ppp_bytes.as_slice());
        assert(buf@ =~= sstp_data_bytes(self.protocol, self.information@));
        buf
    }

    /// Parse a PPP frame from raw bytes (address and control bytes included).
    pub fn parse(data: &[u8]) -> (r: Result<Self, ProtoError>)
        ensures
            match r {
                Ok(f) => parse_ppp_frame_spec(data@) == Ok::<(u16, Seq<u8>), ProtoError>((f.protocol, f.information@)),
                Err(e) => parse_ppp_frame_spec(data@) == Err::<(u16, Seq<u8>), ProtoError>(e),
            },
    {
        if data.len() < 4 {
            return Err(ProtoError::FrameTooShort);
        }
        let protocol = join_u16(data[2], data[3]);
        let information = slice_to_vec(&data[4..data.len()]);
        assert(data@.subrange(4, data@.len() as int) =~= data@.skip(4));
        Ok(PppFrame { protocol, information })
    }

    /// Whether this is an IPv4 data frame.
    pub fn is_ipv4(&self) -> (r: bool)
        ensures
            r == (self.protocol == PPP_IPV4_DATA),
    {
        self.protocol == PPP_IPV4_DATA
    }

    /// Whether this is an LCP frame.
    pub fn is_lcp(&self) -> (r: bool)
        ensures
            r == (self.protocol == PPP_LCP),
    {
        self.protocol == PPP_LCP
    }

    /// Whether this is an IPCP frame.
    pub fn is_ipcp(&self) -> (r: bool)
        ensures
            r == (self.protocol == PPP_IPCP),
    {
        self.protocol == PPP_IPCP
    }

    /// Whether this is a PAP frame.
    pub fn is_pap(&self) -> (r: bool)
        ensures
            r == (self.protocol == PPP_PAP),
    {
        self.protocol == PPP_PAP
    }

    /// Whether this is a CHAP frame.
    pub fn is_chap(&self) -> (r: bool)
        ensures
            r == (self.protocol == PPP_CHAP),
    {
        self.protocol == PPP_CHAP
    }

    /// Whether this is a CCP frame.
    pub fn is_ccp(&self) -> (r: bool)
        ensures
            r == (self.protocol == PPP_CCP),
    {
        self.protocol == PPP_CCP
    }
}

/// A PPP frame decodes to its protocol and information from its encoding.
pub proof fn lemma_parse_ppp_frame_roundtrip(protocol: u16, information: Seq<u8>)
    ensures
        parse_ppp_frame_spec(ppp_frame_bytes(protocol, information))
            == Ok::<(u16, Seq<u8>), ProtoError>((protocol, information)),
{
    crate::wire::lemma_be16_roundtrip(protocol);
    assert(ppp_frame_bytes(protocol, information).skip(4) =~= information);
}

} // verus!
