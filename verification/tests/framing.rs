use bytes::BytesMut;
use draytek_vpn::constants::{
    PPP_CCP, PPP_CHAP, PPP_CONFIG_REQ, PPP_IPCP, PPP_IPV4_DATA, PPP_LCP, PPP_LCP_CONFIG_MRU, PPP_LCP_MAGIC_NUM,
    PPP_PAP, PPP_TERMINATE_REQ, SSTP_CMD_CLOSE, SSTP_CMD_DATA, SSTP_CMD_REPLY, SSTP_CMD_REQUEST,
};
use draytek_vpn::error::ProtoError;
use draytek_vpn::ppp::PppFrame;
use draytek_vpn::ppp_control::{build_chap_response, build_pap_payload, parse_options, ChapChallenge, PppControlFrame, PppControlOption};
use draytek_vpn::sstp::SstpPacket;

#[test]
fn test_option_roundtrip() {
    let opt = PppControlOption::new(PPP_LCP_CONFIG_MRU, vec![0x05, 0x00]);
    let bytes = opt.to_bytes();
    assert_eq!(bytes, vec![0x01, 0x04, 0x05, 0x00]);

    let parsed = parse_options(&bytes).unwrap();
    assert_eq!(parsed.len(), 1);
    assert_eq!(parsed[0].option_type, PPP_LCP_CONFIG_MRU);
    assert_eq!(parsed[0].data, vec![0x05, 0x00]);
}

#[test]
fn test_multiple_options() {
    let opts = vec![
        PppControlOption::new(PPP_LCP_CONFIG_MRU, vec![0x05, 0x00]),
        PppControlOption::new(PPP_LCP_MAGIC_NUM, vec![0x12, 0x34, 0x56, 0x78]),
    ];
    let mut bytes = Vec::new();
    for o in &opts {
        bytes.extend_from_slice(&o.to_bytes());
    }

    let parsed = parse_options(&bytes).unwrap();
    assert_eq!(parsed.len(), 2);
    assert_eq!(parsed[0].option_type, PPP_LCP_CONFIG_MRU);
    assert_eq!(parsed[1].option_type, PPP_LCP_MAGIC_NUM);
    assert_eq!(parsed[1].data, vec![0x12, 0x34, 0x56, 0x78]);
}

#[test]
fn test_control_frame_roundtrip() {
    let opts = vec![PppControlOption::new(PPP_LCP_CONFIG_MRU, vec![0x05, 0x00])];
    let frame = PppControlFrame::config_request(0x01, &opts);
    let bytes = frame.to_bytes();

    assert_eq!(bytes[0], PPP_CONFIG_REQ);
    assert_eq!(bytes[1], 0x01);
    assert_eq!((bytes[2] as u16) << 8 | bytes[3] as u16, 8);

    let parsed = PppControlFrame::parse(&bytes).unwrap();
    assert_eq!(parsed, frame);

    let parsed_opts = parsed.parse_options().unwrap();
    assert_eq!(parsed_opts.len(), 1);
    assert_eq!(parsed_opts[0].option_type, PPP_LCP_CONFIG_MRU);
}

#[test]
fn ppp_control_test_terminate_request() {
    let frame = PppControlFrame::terminate_request(0x05);
    let bytes = frame.to_bytes();
    assert_eq!(bytes, vec![PPP_TERMINATE_REQ, 0x05, 0x00, 0x04]);
}

#[test]
fn test_pap_payload() {
    let payload = build_pap_payload("admin", "secret");
    assert_eq!(payload[0], 5);
    assert_eq!(&payload[1..6], b"admin");
    assert_eq!(payload[6], 6);
    assert_eq!(&payload[7..13], b"secret");
}

#[test]
fn test_chap_challenge_parse() {
    let mut data = vec![16u8];
    data.extend_from_slice(&[0xAA; 16]);
    data.extend_from_slice(b"router");

    let challenge = ChapChallenge::parse(&data).unwrap();
    assert_eq!(challenge.value.len(), 16);
    assert_eq!(challenge.value, vec![0xAA; 16]);
}

#[test]
fn test_chap_response_build() {
    let value = vec![0xBB; 49];
    let resp = build_chap_response(&value, "testuser");
    assert_eq!(resp[0], 49);
    assert_eq!(&resp[1..50], &value);
    assert_eq!(&resp[50..], b"testuser");
}

#[test]
fn test_control_frame_to_ppp_sstp() {
    let opts = vec![PppControlOption::new(PPP_LCP_CONFIG_MRU, vec![0x05, 0x00])];
    let frame = PppControlFrame::config_request(0x01, &opts);
    let ppp_frame = PppFrame::new(PPP_LCP, frame.to_bytes());
    let sstp_bytes = ppp_frame.to_sstp_bytes();

    assert_eq!(sstp_bytes[0], SSTP_CMD_DATA);
    assert_eq!(sstp_bytes[1], 0x00);

    assert_eq!(sstp_bytes[4], 0xFF);
    assert_eq!(sstp_bytes[5], 0x03);
    assert_eq!(sstp_bytes[6], 0xC0);
    assert_eq!(sstp_bytes[7], 0x21);

    assert_eq!(sstp_bytes[8], PPP_CONFIG_REQ);
    assert_eq!(sstp_bytes[9], 0x01);
}

#[test]
fn test_empty_option_data() {
    let opt = PppControlOption::new(PPP_LCP_MAGIC_NUM, vec![]);
    assert_eq!(opt.wire_len(), 2);
    let bytes = opt.to_bytes();
    assert_eq!(bytes, vec![0x05, 0x02]);
}

#[test]
fn test_ipv4_frame_roundtrip() {
    let ip_data = vec![0x45, 0x00, 0x00, 0x3C];
    let frame = PppFrame::ipv4(ip_data.clone());
    let bytes = frame.to_bytes();

    assert_eq!(bytes[0], 0xFF);
    assert_eq!(bytes[1], 0x03);
    assert_eq!(bytes[2], 0x00);
    assert_eq!(bytes[3], 0x21);
    assert_eq!(&bytes[4..], &ip_data);

    let parsed = PppFrame::parse(&bytes).unwrap();
    assert_eq!(parsed, frame);
    assert!(parsed.is_ipv4());
}

#[test]
fn test_lcp_frame() {
    let info = vec![0x01, 0x01, 0x00, 0x08, 0x01, 0x04, 0x05, 0x00];
    let frame = PppFrame::new(PPP_LCP, info.clone());
    let bytes = frame.to_bytes();

    assert_eq!(bytes[0], 0xFF);
    assert_eq!(bytes[1], 0x03);
    assert_eq!(bytes[2], 0xC0);
    assert_eq!(bytes[3], 0x21);

    let parsed = PppFrame::parse(&bytes).unwrap();
    assert!(parsed.is_lcp());
    assert_eq!(parsed.information, info);
}

#[test]
fn test_sstp_wrapped_frame() {
    let frame = PppFrame::ipv4(vec![0x45, 0x00]);
    let sstp_bytes = frame.to_sstp_bytes();

    assert_eq!(sstp_bytes[0], SSTP_CMD_DATA);
    assert_eq!(sstp_bytes[1], 0x00);
    let sstp_len = ((sstp_bytes[2] as u16) << 8) | (sstp_bytes[3] as u16);
    assert_eq!(sstp_len, 6);

    assert_eq!(sstp_bytes[4], 0xFF);
    assert_eq!(sstp_bytes[5], 0x03);
    assert_eq!(sstp_bytes[6], 0x00);
    assert_eq!(sstp_bytes[7], 0x21);

    assert_eq!(sstp_bytes[8], 0x45);
    assert_eq!(sstp_bytes[9], 0x00);
}

#[test]
fn test_parse_too_short() {
    assert!(PppFrame::parse(&[0xFF, 0x03]).is_err());
}

#[test]
fn test_protocol_detection() {
    assert!(PppFrame::new(PPP_LCP, vec![]).is_lcp());
    assert!(PppFrame::new(PPP_IPCP, vec![]).is_ipcp());
    assert!(PppFrame::new(PPP_PAP, vec![]).is_pap());
    assert!(PppFrame::new(PPP_CHAP, vec![]).is_chap());
    assert!(PppFrame::new(PPP_CCP, vec![]).is_ccp());
    assert!(PppFrame::new(PPP_IPV4_DATA, vec![]).is_ipv4());
}

#[test]
fn test_data_packet_roundtrip() {
    let payload = vec![0xFF, 0x03, 0x00, 0x21, 0x45, 0x00];
    let pkt = SstpPacket { command: SSTP_CMD_DATA, version: 0, data: payload.clone() };
    let bytes = pkt.to_bytes();

    assert_eq!(bytes[0], SSTP_CMD_DATA);
    assert_eq!(bytes[1], 0x00);
    assert_eq!((bytes[2] as u16) << 8 | bytes[3] as u16, payload.len() as u16);
    assert_eq!(&bytes[4..], &payload);

    let (parsed, consumed) = SstpPacket::parse(&bytes).unwrap().unwrap();
    assert_eq!(consumed, bytes.len());
    assert_eq!(parsed, pkt);
}

#[test]
fn test_close_packet() {
    let pkt = SstpPacket::close();
    let bytes = pkt.to_bytes();
    assert_eq!(bytes, vec![0x01, 0x00, 0x00, 0x00]);

    let (parsed, _) = SstpPacket::parse(&bytes).unwrap().unwrap();
    assert_eq!(parsed.command, SSTP_CMD_CLOSE);
    assert!(parsed.data.is_empty());
}

#[test]
fn test_keepalive_request() {
    let pkt = SstpPacket::keepalive_request(0);
    let bytes = pkt.to_bytes();

    assert_eq!(bytes[0], SSTP_CMD_REQUEST);
    assert_eq!(bytes[1], 0x00);
    assert_eq!(bytes[2], 0x00);
    assert_eq!(bytes[3], 0x10);
    let data_str = std::str::from_utf8(&bytes[4..4 + 9]).unwrap();
    assert_eq!(data_str, "REQUEST 0");
}

#[test]
fn test_parse_incomplete() {
    assert!(SstpPacket::parse(&[0x00, 0x00, 0x00]).unwrap().is_none());
    assert!(SstpPacket::parse(&[0x00, 0x00, 0x00, 0x04, 0xAA, 0xBB]).unwrap().is_none());
}

#[test]
fn test_parse_multiple_packets_in_buffer() {
    let pkt1 = SstpPacket { command: SSTP_CMD_DATA, version: 0, data: vec![0x01, 0x02] };
    let pkt2 = SstpPacket::close();
    let mut combined = pkt1.to_bytes();
    combined.extend_from_slice(&pkt2.to_bytes());

    let (parsed1, consumed1) = SstpPacket::parse(&combined).unwrap().unwrap();
    assert_eq!(parsed1, pkt1);

    let (parsed2, consumed2) = SstpPacket::parse(&combined[consumed1..]).unwrap().unwrap();
    assert_eq!(parsed2, pkt2);
    assert_eq!(consumed1 + consumed2, combined.len());
}

#[test]
fn test_packet_type_checks() {
    assert!(SstpPacket { command: SSTP_CMD_DATA, version: 0, data: vec![] }.is_data());
    assert!(SstpPacket::close().is_close());
    assert!(SstpPacket::keepalive_request(0).is_request());

    let reply = SstpPacket { command: SSTP_CMD_REPLY, version: 0, data: Vec::new() };
    assert!(reply.is_reply());
}

// The keepalive text is padded to 16 bytes with zeros, and cut to 16 when longer.
#[test]
fn keepalive_request_pads_and_cuts() {
    let pkt = SstpPacket::keepalive_request(7);
    assert_eq!(pkt.data.len(), 16);
    assert_eq!(&pkt.data[..9], b"REQUEST 7");
    assert!(pkt.data[9..].iter().all(|&b| b == 0));
    let big = SstpPacket::keepalive_request(4_000_000_000);
    assert_eq!(big.data.len(), 16);
    assert_eq!(&big.data[..], b"REQUEST 4000000000"[..16].as_ref());
}

// Packets come out of a stream buffer one by one, and a partial one waits.
#[test]
fn parse_from_buf_consumes_whole_packets() {
    let mut buf = BytesMut::new();
    buf.extend_from_slice(&SstpPacket::close().to_bytes());
    buf.extend_from_slice(&[0x00, 0x00, 0x00, 0x02, 0xAA]);
    let first = SstpPacket::parse_from_buf(&mut buf).unwrap().unwrap();
    assert!(first.is_close());
    assert_eq!(buf.len(), 5);
    assert!(SstpPacket::parse_from_buf(&mut buf).unwrap().is_none());
    assert_eq!(buf.len(), 5);
    buf.extend_from_slice(&[0xBB]);
    let second = SstpPacket::parse_from_buf(&mut buf).unwrap().unwrap();
    assert_eq!(second.data, vec![0xAA, 0xBB]);
    assert!(buf.is_empty());
}

// A control frame whose length field is shorter than its header is refused,
// one whose length passes the data too.
#[test]
fn control_frame_length_errors() {
    assert_eq!(PppControlFrame::parse(&[1, 1, 0]), Err(ProtoError::FrameTooShort));
    assert_eq!(PppControlFrame::parse(&[1, 1, 0, 3]), Err(ProtoError::InvalidFrameLength));
    assert_eq!(PppControlFrame::parse(&[1, 1, 0, 9, 0]), Err(ProtoError::FrameTruncated));
}

// Option lists: a lone type byte, a length below 2, a length past the end.
#[test]
fn option_list_errors() {
    assert_eq!(parse_options(&[1]), Err(ProtoError::TruncatedOption));
    assert_eq!(parse_options(&[1, 1]), Err(ProtoError::InvalidOptionLength));
    assert_eq!(parse_options(&[1, 5, 0]), Err(ProtoError::OptionOverrun));
}

// A CHAP challenge needs its value bytes.
#[test]
fn chap_challenge_errors() {
    assert!(matches!(ChapChallenge::parse(&[]), Err(ProtoError::EmptyChallenge)));
    assert!(matches!(ChapChallenge::parse(&[4, 1, 2]), Err(ProtoError::ChallengeTruncated)));
}
