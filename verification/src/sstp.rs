//! SSTP-like 4-byte framing over the TLS connection:
//! `command, version, length (big-endian, header excluded), data`.
use vstd::prelude::*;
use vstd::slice::slice_to_vec;
use bytes::{Buf, BytesMut};
use crate::constants::{SSTP_CMD_CLOSE, SSTP_CMD_DATA, SSTP_CMD_REPLY, SSTP_CMD_REQUEST};
use crate::error::ProtoError;
use crate::text::{decimal_digits, push_decimal};
use crate::wire::{be16, hi_byte, join_u16, lo_byte, split_u16, trunc16, truncate_len16};

verus! {

/// A packet as a value: command, version and data.
pub type SstpView = (u8, u8, Seq<u8>);

/// An SSTP packet.
#[derive(Debug, Clone, PartialEq, Eq)]
pub struct SstpPacket {
    pub command: u8,
    pub version: u8,
    pub data: Vec<u8>,
}

impl View for SstpPacket {
    type V = SstpView;

    open spec fn view(&self) -> SstpView {
        (self.command, self.version, self.data@)
    }
}

/// The wire encoding of a packet; the length field wraps at 65536 like `as u16`.
pub open spec fn sstp_packet_bytes(command: u8, version: u8, data: Seq<u8>) -> Seq<u8> {
    let len = trunc16(data.len() as int);
    seq![command, version, hi_byte(len), lo_byte(len)] + data
}

/// Decoding the first packet of a buffer: `None` while the header or the declared
/// data is not complete, else the packet and the number of bytes it takes.
pub open spec fn parse_sstp_spec(b: Seq<u8>) -> Option<(SstpView, nat)> {
    if b.len() < 4 {
        None
    } else if b.len() < 4 + be16(b[2], b[3]) {
        None
    } else {
        Some(((b[0], b[1], b.subrange(4, 4 + be16(b[2], b[3]))), (4 + be16(b[2], b[3])) as nat))
    }
}

/// "REQUEST " in ASCII.
pub open spec fn request_prefix() -> Seq<u8> {
    seq![82u8, 69u8, 81u8, 85u8, 69u8, 83u8, 84u8, 32u8]
}

/// The 16 payload bytes of a keepalive request: "REQUEST <counter>" in ASCII,
/// zero-padded or cut to 16 bytes.
pub open spec fn keepalive_payload(counter: u32) -> Seq<u8> {
    let text = request_prefix() + decimal_digits(counter as nat);
    Seq::new(16, |i: int| if i < text.len() { text[i] } else { 0u8 })
}

impl SstpPacket {
    /// A CLOSE packet.
    pub fn close() -> (r: Self)
        ensures
            r@ == (SSTP_CMD_CLOSE, 0u8, Seq::<u8>::empty()),
    {
        SstpPacket { command: SSTP_CMD_CLOSE, version: 0, data: Vec::new() }
    }

    /// A keepalive REQUEST packet with the given counter.
    pub fn keepalive_request(counter: u32) -> (r: Self)
        ensures
            r@ == (SSTP_CMD_REQUEST, 0u8, keepalive_payload(counter)),
    {
        let mut text: Vec<u8> = Vec::new();
        text.push(82u8);
        text.push(69u8);
        text.push(81u8);
        text.push(85u8);
        text.push(69u8);
        text.push(83u8);
        text.push(84u8);
        text.push(32u8);
        assert(text@ =~= request_prefix());
        push_decimal(&mut text, counter as u64);
        let ghost t = text@;
        let mut data: Vec<u8> = Vec::new();
        let mut i: usize = 0;
        while i < 16
            invariant
                i <= 16,
                text@ == t,
                t == request_prefix() + decimal_digits(counter as nat),
                data@.len() == i,
                forall|j: int| 0 <= j < i ==> data@[j] == (if j < t.len() { t[j] } else { 0u8 }),
            decreases 16 - i,
        {
            if i < text.len() {
                data.push(text[i]);
            } else {
                data.push(0u8);
            }
            i = i + 1;
        }
        assert(data@ =~= keepalive_payload(counter));
        SstpPacket { command: SSTP_CMD_REQUEST, version: 0, data }
    }

    /// Serialize to bytes (4-byte header + data).
    pub fn to_bytes(&self) -> (r: Vec<u8>)
        ensures
            r@ == sstp_packet_bytes(self.command, self.version, self.data@),
    {
        let len = truncate_len16(self.data.len(), 0);
        let (h, l) = split_u16(len);
        let mut buf: Vec<u8> = Vec::new();
        buf.push(self.command);
        buf.push(self.version);
        buf.push(h);
        buf.push(l);
        buf.extend_from_slice(self.data.as_slice());
        assert(buf@ =~= sstp_packet_bytes(self.command, self.version, self.data@));
        buf
    }

    /// Parse the first packet of a buffer.
    ///
    /// Returns `Ok(Some((packet, consumed)))` if a complete packet is available and
    /// `Ok(None)` if more data is needed; no input is rejected.
    pub fn parse(buf: &[u8]) -> (r: Result<Option<(Self, usize)>, ProtoError>)
        ensures
            match r {
                Ok(Some((p, n))) => parse_sstp_spec(buf@) == Some((p@, n as nat)),
                Ok(None) => parse_sstp_spec(buf@) is None,
                Err(_) => false,
            },
    {
        if buf.len() < 4 {
            return Ok(None);
        }
        let command = buf[0];
        let version = buf[1];
        let length = join_u16(buf[2], buf[3]);
        let total = 4 + length as usize;
        if buf.len() < total {
            return Ok(None);
        }
        let data = slice_to_vec(&buf[4..total]);
        Ok(Some((SstpPacket { command, version, data }, total)))
    }

    /// Parse from a `BytesMut`, consuming the packet's bytes if one is complete.
    pub fn parse_from_buf(buf: &mut BytesMut) -> (r: Result<Option<Self>, ProtoError>)
        ensures
            match r {
                Ok(Some(p)) => match parse_sstp_spec(bytes_mut_contents(*old(buf))) {
                    Some((v, n)) => p@ == v && bytes_mut_contents(*final(buf))
                        == bytes_mut_contents(*old(buf)).skip(n as int),
                    None => false,
                },
                Ok(None) => parse_sstp_spec(bytes_mut_contents(*old(buf))) is None
                    && bytes_mut_contents(*final(buf)) == bytes_mut_contents(*old(buf)),
                Err(_) => false,
            },
    {
        let parsed = Self::parse(bytes_mut_slice(buf));
        match parsed {
            Ok(Some((pkt, consumed))) => {
                bytes_mut_advance(buf, consumed);
                Ok(Some(pkt))
            },
            Ok(None) => Ok(None),
            Err(e) => Err(e),
        }
    }

    /// Whether this is a DATA packet.
    pub fn is_data(&self) -> (r: bool)
        ensures
            r == (self.command == SSTP_CMD_DATA),
    {
        self.command == SSTP_CMD_DATA
    }

    /// Whether this is a keepalive REPLY.
    pub fn is_reply(&self) -> (r: bool)
        ensures
            r == (self.command == SSTP_CMD_REPLY),
    {
        self.command == SSTP_CMD_REPLY
    }

    /// Whether this is a keepalive REQUEST.
    pub fn is_request(&self) -> (r: bool)
        ensures
            r == (self.command == SSTP_CMD_REQUEST),
    {
        self.command == SSTP_CMD_REQUEST
    }

    /// Whether this is a CLOSE packet.
    pub fn is_close(&self) -> (r: bool)
        ensures
            r == (self.command == SSTP_CMD_CLOSE),
    {
        self.command == SSTP_CMD_CLOSE
    }
}

/// `bytes::BytesMut`, the receive buffer of the connection.
#[verifier::external_type_specification]
#[verifier::external_body]
pub struct ExBytesMut(BytesMut);

/// The bytes a `BytesMut` holds, in order.
pub uninterp spec fn bytes_mut_contents(b: BytesMut) -> Seq<u8>;

/// `BytesMut`'s `Deref` to `[u8]`: the slice is the buffer's contents.
#[verifier::external_body]
fn bytes_mut_slice(b: &BytesMut) -> (r: &[u8])
    ensures
        r@ == bytes_mut_contents(*b),
{
    &b[..]
}

/// `Buf::advance` on a `BytesMut`: drops the first `n` bytes (it panics past the end,
/// which `requires` rules out).
#[verifier::external_body]
fn bytes_mut_advance(b: &mut BytesMut, n: usize)
    requires
        n <= bytes_mut_contents(*old(b)).len(),
    ensures
        bytes_mut_contents(*final(b)) == bytes_mut_contents(*old(b)).skip(n as int),
{
    b.advance(n)
}

/// A packet whose data fits the 16-bit length field is decoded back from its
/// encoding, whatever bytes follow it in the buffer.
pub proof fn lemma_parse_sstp_roundtrip(command: u8, version: u8, data: Seq<u8>, rest: Seq<u8>)
    requires
        data.len() <= 65535,
    ensures
        parse_sstp_spec(sstp_packet_bytes(command, version, data) + rest)
            == Some(((command, version, data), (4 + data.len()) as nat)),
{
    let len = trunc16(data.len() as int);
    assert(len == data.len());
    crate::wire::lemma_be16_roundtrip(len);
    let b = sstp_packet_bytes(command, version, data) + rest;
    assert(be16(b[2], b[3]) == data.len());
    assert(b.subrange(4, 4 + data.len() as int) =~= data);
}

} // verus!
