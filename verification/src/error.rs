use vstd::prelude::*;

verus! {

/// Errors reported by the parsers and validators of this library.
#[derive(Debug, Clone, Copy, PartialEq, Eq, Structural)]
pub enum ProtoError {
    /// A TLV option header runs past the end of the buffer.
    TruncatedOption,
    /// A TLV option declares a length below 2.
    InvalidOptionLength,
    /// A TLV option's data runs past the end of the buffer.
    OptionOverrun,
    /// A control or PPP frame is shorter than its 4-byte header.
    FrameTooShort,
    /// A control frame declares a length below its header size.
    InvalidFrameLength,
    /// A control frame's data runs past the end of the buffer.
    FrameTruncated,
    /// A CHAP challenge payload is empty.
    EmptyChallenge,
    /// A CHAP challenge value runs past the end of the payload.
    ChallengeTruncated,
    /// A negotiation state machine asked for shutdown (retries exhausted or a
    /// fatal error).
    ShutdownRequested,
    /// The server closed the SSTP session during negotiation.
    ServerClosed,
    /// An SSTP packet with an unexpected command arrived during negotiation.
    UnexpectedCommand(u8),
    /// The server refused our PAP credentials.
    PapFailed,
    /// The server refused our CHAP response.
    ChapFailed,
    /// A CHAP challenge arrived but LCP agreed on no authentication method.
    NoAuthMethod,
    /// An MS-CHAPv2 challenge shorter than 16 bytes.
    ChallengeTooShort,
    /// IPCP completed without assigning us an address.
    NoLocalIp,
    /// The server stopped answering keepalive requests.
    KeepaliveTimeout,
    /// A route is not of the form `address/prefix`.
    InvalidCidr,
    /// The prefix length of a route is not a number of at most 255.
    InvalidPrefix,
}

} // verus!
