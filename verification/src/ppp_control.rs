//! PPP control frames (LCP, IPCP, PAP, CHAP, CCP) and their TLV options.
//!
//! A control frame is `code, identifier, length (big-endian, header included), data`;
//! an option is `type, length (header included), data`.
use vstd::prelude::*;
use vstd::slice::slice_to_vec;
use vstd::string::StringSliceAdditionalSpecFns;
use crate::constants::{PPP_CODE_REJECT, PPP_CONFIG_ACK, PPP_CONFIG_NAK, PPP_CONFIG_REJECT, PPP_CONFIG_REQ, PPP_TERMINATE_ACK, PPP_TERMINATE_REQ};
use crate::error::ProtoError;
use crate::wire::{be16, hi_byte, join_u16, lo_byte, split_u16, trunc16, truncate_len16};

verus! {

/// An option as a value: its type, its data and whether it was already offered
/// as an alternative during negotiation.
pub type OptionView = (u8, Seq<u8>, bool);

/// A control frame as a value: code, identifier and data.
pub type FrameView = (u8, u8, Seq<u8>);

/// A TLV option of a PPP control frame.
#[derive(Debug, Clone, PartialEq, Eq)]
pub struct PppControlOption {
    pub option_type: u8,
    pub data: Vec<u8>,
    /// Whether this option has been tried as an alternative during negotiation.
    pub tried: bool,
}

impl View for PppControlOption {
    type V = OptionView;

    open spec fn view(&self) -> OptionView {
        (self.option_type, self.data@, self.tried)
    }
}

/// The views of a sequence of options.
pub open spec fn option_views(opts: Seq<PppControlOption>) -> Seq<OptionView> {
    opts.map_values(|o: PppControlOption| o@)
}

/// The wire length byte of an option with `len` data bytes (wraps like `as u8`).
pub open spec fn option_len_byte(len: nat) -> u8 {
    ((2 + len) % 256) as u8
}

/// The TLV encoding of one option.
pub open spec fn option_bytes(option_type: u8, data: Seq<u8>) -> Seq<u8> {
    seq![option_type, option_len_byte(data.len())] + data
}

/// The concatenated TLV encodings of a sequence of options, in order.
pub open spec fn options_bytes(opts: Seq<OptionView>) -> Seq<u8>
    decreases opts.len(),
{
    if opts.len() == 0 {
        Seq::empty()
    } else {
        options_bytes(opts.drop_last()) + option_bytes(opts.last().0, opts.last().1)
    }
}

/// Decoding a TLV option list: each option is read from the front; a buffer that
/// ends inside an option header, an option length below 2 and an option that runs
/// past the end are the three faults. Parsed options are not marked as tried.
pub open spec fn parse_options_spec(data: Seq<u8>) -> Result<Seq<OptionView>, ProtoError>
    decreases data.len(),
{
    if data.len() == 0 {
        Ok(Seq::empty())
    } else if data.len() < 2 {
        Err(ProtoError::TruncatedOption)
    } else if (data[1] as int) < 2 {
        Err(ProtoError::InvalidOptionLength)
    } else if data[1] as int > data.len() {
        Err(ProtoError::OptionOverrun)
    } else {
        match parse_options_spec(data.skip(data[1] as int)) {
            Ok(rest) => Ok(seq![(data[0], data.subrange(2, data[1] as int), false)] + rest),
            Err(e) => Err(e),
        }
    }
}

/// A copy of an option, field for field.
pub fn copy_option(opt: &PppControlOption) -> (r: PppControlOption)
    ensures
        r@ == opt@,
{
    PppControlOption { option_type: opt.option_type, data: slice_to_vec(opt.data.as_slice()), tried: opt.tried }
}

impl PppControlOption {
    /// A new option that has not been tried yet.
    pub fn new(option_type: u8, data: Vec<u8>) -> (r: Self)
        ensures
            r@ == (option_type, data@, false),
    {
        PppControlOption { option_type, data, tried: false }
    }

    /// Total wire length (type + length + data), wrapping at 256 like the length byte.
    pub fn wire_len(&self) -> (r: u8)
        ensures
            r == option_len_byte(self.data@.len()),
    {
        let low = (self.data.len() % 256) as u8;
        let r = low.wrapping_add(2);
        assert(r == option_len_byte(self.data@.len())) by (nonlinear_arith)
            requires
                low == self.data@.len() % 256,
                r == (if low + 2 > u8::MAX { low + 2 - 256 } else { low + 2 }),
        ;
        r
    }

    /// Serialize to TLV bytes.
    pub fn to_bytes(&self) -> (r: Vec<u8>)
        ensures
            r@ == option_bytes(self.option_type, self.data@),
    {
        let mut buf: Vec<u8> = Vec::new();
        buf.push(self.option_type);
        buf.push(self.wire_len());
        buf.extend_from_slice(self.data.as_slice());
        assert(buf@ =~= option_bytes(self.option_type, self.data@));
        buf
    }

    /// Replace the data of this option.
    pub fn update_data(&mut self, data: Vec<u8>)
        ensures
            final(self)@ == (old(self).option_type, data@, old(self).tried),
    {
        self.data = data;
    }
}

proof fn lemma_skip_skip(s: Seq<u8>, a: int, b: int)
    requires
        0 <= a,
        0 <= b,
        a + b <= s.len(),
    ensures
        s.skip(a).skip(b) =~= s.skip(a + b),
{
}

/// Parse a sequence of TLV options from raw bytes.
pub fn parse_options(data: &[u8]) -> (r: Result<Vec<PppControlOption>, ProtoError>)
    ensures
        match r {
            Ok(opts) => parse_options_spec(data@) == Ok::<Seq<OptionView>, ProtoError>(option_views(opts@)),
            Err(e) => parse_options_spec(data@) == Err::<Seq<OptionView>, ProtoError>(e),
        },
{
    let mut options: Vec<PppControlOption> = Vec::new();
    let mut pos: usize = 0;
    assert(data@.skip(0) =~= data@);
    assert(option_views(options@) =~= Seq::<OptionView>::empty());
    while pos < data.len()
        invariant
            pos <= data@.len(),
            parse_options_spec(data@) == (match parse_options_spec(data@.skip(pos as int)) {
                Ok(rest) => Ok(option_views(options@) + rest),
                Err(e) => Err(e),
            }),
        decreases data@.len() - pos,
    {
        let ghost s = data@.skip(pos as int);
        if data.len() - pos < 2 {
            return Err(ProtoError::TruncatedOption);
        }
        let option_type = data[pos];
        let length = data[pos + 1] as usize;
        assert(s[0] == option_type && s[1] as usize == length);
        if length < 2 {
            return Err(ProtoError::InvalidOptionLength);
        }
        if length > data.len() - pos {
            return Err(ProtoError::OptionOverrun);
        }
        let opt_data = slice_to_vec(&data[pos + 2..pos + length]);
        let ghost before = option_views(options@);
        options.push(PppControlOption::new(option_type, opt_data));
        proof {
            lemma_skip_skip(data@, pos as int, length as int);
            assert(s.subrange(2, length as int) =~= data@.subrange(pos + 2, pos + length));
            assert(option_views(options@) =~= before.push((option_type, data@.subrange(pos + 2, pos + length), false)));
            match parse_options_spec(data@.skip(pos + length)) {
                Ok(rest) => {
                    assert(before + (seq![(option_type, data@.subrange(pos + 2, pos + length), false)] + rest)
                        =~= option_views(options@) + rest);
                },
                Err(e) => {},
            }
        }
        pos = pos + length;
    }
    proof {
        assert(data@.skip(pos as int) =~= Seq::<u8>::empty());
        assert(option_views(options@) + Seq::<OptionView>::empty() =~= option_views(options@));
    }
    Ok(options)
}

/// A PPP control frame.
#[derive(Debug, Clone, PartialEq, Eq)]
pub struct PppControlFrame {
    pub code: u8,
    pub identifier: u8,
    pub data: Vec<u8>,
}

impl View for PppControlFrame {
    type V = FrameView;

    open spec fn view(&self) -> FrameView {
        (self.code, self.identifier, self.data@)
    }
}

/// The 16-bit length field of a control frame with `len` data bytes.
pub open spec fn frame_length_field(len: nat) -> u16 {
    trunc16(4 + len as int)
}

/// The wire encoding of a control frame.
pub open spec fn control_frame_bytes(code: u8, identifier: u8, data: Seq<u8>) -> Seq<u8> {
    let total = frame_length_field(data.len());
    seq![code, identifier, hi_byte(total), lo_byte(total)] + data
}

/// Decoding a control frame: a 4-byte header whose length field counts itself;
/// bytes past the declared length are ignored.
pub open spec fn parse_control_frame_spec(b: Seq<u8>) -> Result<FrameView, ProtoError> {
    if b.len() < 4 {
        Err(ProtoError::FrameTooShort)
    } else if be16(b[2], b[3]) < 4 {
        Err(ProtoError::InvalidFrameLength)
    } else if b.len() < be16(b[2], b[3]) {
        Err(ProtoError::FrameTruncated)
    } else {
        Ok((b[0], b[1], b.subrange(4, be16(b[2], b[3]))))
    }
}

/// A frame of `code` whose data is the TLV encoding of `opts`.
fn frame_with_options(code: u8, identifier: u8, options: &[PppControlOption]) -> (r: PppControlFrame)
    ensures
        r@ == (code, identifier, options_bytes(option_views(options@))),
{
    let mut data: Vec<u8> = Vec::new();
    let mut i: usize = 0;
    while i < options.len()
        invariant
            i <= options@.len(),
            data@ == options_bytes(option_views(options@.take(i as int))),
        decreases options@.len() - i,
    {
        let bytes = options[i].to_bytes();
        data.extend_from_slice(bytes.as_slice());
        proof {
            let v = option_views(options@.take(i + 1));
            assert(v.drop_last() =~= option_views(options@.take(i as int)));
            assert(v.last() == options@[i as int]@);
            assert(data@ =~= options_bytes(v));
        }
        i = i + 1;
    }
    assert(options@.take(options@.len() as int) =~= options@);
    PppControlFrame { code, identifier, data }
}

impl PppControlFrame {
    /// A frame with no data.
    pub fn new(code: u8, identifier: u8) -> (r: Self)
        ensures
            r@ == (code, identifier, Seq::<u8>::empty()),
    {
        PppControlFrame { code, identifier, data: Vec::new() }
    }

    /// A Configure-Request carrying `options`.
    pub fn config_request(identifier: u8, options: &[PppControlOption]) -> (r: Self)
        ensures
            r@ == (PPP_CONFIG_REQ, identifier, options_bytes(option_views(options@))),
    {
        frame_with_options(PPP_CONFIG_REQ, identifier, options)
    }

    /// A Configure-Ack echoing `options`.
    pub fn config_ack(identifier: u8, options: &[PppControlOption]) -> (r: Self)
        ensures
            r@ == (PPP_CONFIG_ACK, identifier, options_bytes(option_views(options@))),
    {
        frame_with_options(PPP_CONFIG_ACK, identifier, options)
    }

    /// A Configure-Nak suggesting `options`.
    pub fn config_nak(identifier: u8, options: &[PppControlOption]) -> (r: Self)
        ensures
            r@ == (PPP_CONFIG_NAK, identifier, options_bytes(option_views(options@))),
    {
        frame_with_options(PPP_CONFIG_NAK, identifier, options)
    }

    /// A Configure-Reject listing `options`.
    pub fn config_reject(identifier: u8, options: &[PppControlOption]) -> (r: Self)
        ensures
            r@ == (PPP_CONFIG_REJECT, identifier, options_bytes(option_views(options@))),
    {
        frame_with_options(PPP_CONFIG_REJECT, identifier, options)
    }

    /// A Terminate-Request.
    pub fn terminate_request(identifier: u8) -> (r: Self)
        ensures
            r@ == (PPP_TERMINATE_REQ, identifier, Seq::<u8>::empty()),
    {
        Self::new(PPP_TERMINATE_REQ, identifier)
    }

    /// A Terminate-Ack.
    pub fn terminate_ack(identifier: u8) -> (r: Self)
        ensures
            r@ == (PPP_TERMINATE_ACK, identifier, Seq::<u8>::empty()),
    {
        Self::new(PPP_TERMINATE_ACK, identifier)
    }

    /// A Code-Reject carrying the rejected frame's data.
    pub fn code_reject(identifier: u8, rejected_data: &[u8]) -> (r: Self)
        ensures
            r@ == (PPP_CODE_REJECT, identifier, rejected_data@),
    {
        PppControlFrame { code: PPP_CODE_REJECT, identifier, data: slice_to_vec(rejected_data) }
    }

    /// The length field: 4 header bytes plus the data, wrapping at 65536.
    pub fn total_length(&self) -> (r: u16)
        ensures
            r == frame_length_field(self.data@.len()),
    {
        truncate_len16(self.data.len(), 4)
    }

    /// Serialize to bytes.
    pub fn to_bytes(&self) -> (r: Vec<u8>)
        ensures
            r@ == control_frame_bytes(self.code, self.identifier, self.data@),
    {
        let total_len = self.total_length();
        let (h, l) = split_u16(total_len);
        let mut buf: Vec<u8> = Vec::new();
        buf.push(self.code);
        buf.push(self.identifier);
        buf.push(h);
        buf.push(l);
        buf.extend_from_slice(self.data.as_slice());
        assert(buf@ =~= control_frame_bytes(self.code, self.identifier, self.data@));
        buf
    }

    /// Parse a control frame from bytes.
    pub fn parse(data: &[u8]) -> (r: Result<Self, ProtoError>)
        ensures
            match r {
                Ok(f) => parse_control_frame_spec(data@) == Ok::<FrameView, ProtoError>(f@),
                Err(e) => parse_control_frame_spec(data@) == Err::<FrameView, ProtoError>(e),
            },
    {
        if data.len() < 4 {
            return Err(ProtoError::FrameTooShort);
        }
        let code = data[0];
        let identifier = data[1];
        let length = join_u16(data[2], data[3]) as usize;
        if length < 4 {
            return Err(ProtoError::InvalidFrameLength);
        }
        if data.len() < length {
            return Err(ProtoError::FrameTruncated);
        }
        Ok(PppControlFrame { code, identifier, data: slice_to_vec(&data[4..length]) })
    }

    /// Parse the data field as TLV options.
    pub fn parse_options(&self) -> (r: Result<Vec<PppControlOption>, ProtoError>)
        ensures
            match r {
                Ok(opts) => parse_options_spec(self.data@) == Ok::<Seq<OptionView>, ProtoError>(option_views(opts@)),
                Err(e) => parse_options_spec(self.data@) == Err::<Seq<OptionView>, ProtoError>(e),
            },
    {
        parse_options(self.data.as_slice())
    }
}

/// The byte `as u8` gives for a length.
pub open spec fn len_byte(n: nat) -> u8 {
    (n % 256) as u8
}

/// The PAP request payload: user name length, user name, password length, password.
pub open spec fn pap_payload(user: Seq<u8>, pass: Seq<u8>) -> Seq<u8> {
    seq![len_byte(user.len())] + user + seq![len_byte(pass.len())] + pass
}

/// The byte `as u8` gives for a slice length.
pub fn length_byte(n: usize) -> (r: u8)
    ensures
        r == len_byte(n as nat),
{
    (n % 256) as u8
}

/// PAP request payload: username_length + username + password_length + password.
pub fn build_pap_payload(username: &str, password: &str) -> (r: Vec<u8>)
    ensures
        r@ == pap_payload(username.spec_bytes(), password.spec_bytes()),
{
    let user_bytes = username.as_bytes();
    let pass_bytes = password.as_bytes();
    let mut buf: Vec<u8> = Vec::new();
    buf.push(length_byte(user_bytes.len()));
    buf.extend_from_slice(user_bytes);
    buf.push(length_byte(pass_bytes.len()));
    buf.extend_from_slice(pass_bytes);
    assert(buf@ =~= pap_payload(username.spec_bytes(), password.spec_bytes()));
    buf
}

/// A CHAP challenge: `value_length, value, name`; only the value is kept.
#[derive(Debug, Clone)]
pub struct ChapChallenge {
    pub value: Vec<u8>,
}

/// Decoding a CHAP challenge payload to its value.
pub open spec fn parse_chap_challenge_spec(data: Seq<u8>) -> Result<Seq<u8>, ProtoError> {
    if data.len() == 0 {
        Err(ProtoError::EmptyChallenge)
    } else if data.len() < 1 + data[0] {
        Err(ProtoError::ChallengeTruncated)
    } else {
        Ok(data.subrange(1, 1 + data[0]))
    }
}

impl ChapChallenge {
    /// Parse a CHAP challenge (code=1) data payload.
    pub fn parse(data: &[u8]) -> (r: Result<Self, ProtoError>)
        ensures
            match r {
                Ok(c) => parse_chap_challenge_spec(data@) == Ok::<Seq<u8>, ProtoError>(c.value@),
                Err(e) => parse_chap_challenge_spec(data@) == Err::<Seq<u8>, ProtoError>(e),
            },
    {
        if data.len() == 0 {
            return Err(ProtoError::EmptyChallenge);
        }
        let vlength = data[0] as usize;
        if data.len() - 1 < vlength {
            return Err(ProtoError::ChallengeTruncated);
        }
        Ok(ChapChallenge { value: slice_to_vec(&data[1..1 + vlength]) })
    }
}

/// The CHAP response payload: value length, value, then the name.
pub open spec fn chap_response_payload(value: Seq<u8>, name: Seq<u8>) -> Seq<u8> {
    seq![len_byte(value.len())] + value + name
}

/// CHAP response payload: vlength + value[vlength] + name[remaining].
pub fn build_chap_response(value: &[u8], username: &str) -> (r: Vec<u8>)
    ensures
        r@ == chap_response_payload(value@, username.spec_bytes()),
{
    let name_bytes = username.as_bytes();
    let mut buf: Vec<u8> = Vec::new();
    buf.push(length_byte(value.len()));
    buf.extend_from_slice(value);
    buf.extend_from_slice(name_bytes);
    assert(buf@ =~= chap_response_payload(value@, username.spec_bytes()));
    buf
}

/// The options of `opts` as a decoder returns them: not yet tried.
pub open spec fn untried(opts: Seq<OptionView>) -> Seq<OptionView> {
    opts.map_values(|o: OptionView| (o.0, o.1, false))
}

/// Encoding an option in front of others puts its bytes in front.
pub proof fn lemma_options_bytes_prepend(o: OptionView, rest: Seq<OptionView>)
    ensures
        options_bytes(seq![o] + rest) == option_bytes(o.0, o.1) + options_bytes(rest),
    decreases rest.len(),
{
    if rest.len() == 0 {
        assert(seq![o] + rest =~= seq![o]);
        assert((seq![o]).drop_last() =~= Seq::<OptionView>::empty());
        assert(options_bytes(Seq::<OptionView>::empty()) == Seq::<u8>::empty());
        assert((seq![o]).last() == o);
        assert(options_bytes(seq![o]) =~= Seq::<u8>::empty() + option_bytes(o.0, o.1));
        assert(options_bytes(seq![o]) =~= option_bytes(o.0, o.1));
        assert(option_bytes(o.0, o.1) + options_bytes(rest) =~= option_bytes(o.0, o.1));
    } else {
        lemma_options_bytes_prepend(o, rest.drop_last());
        assert((seq![o] + rest).drop_last() =~= seq![o] + rest.drop_last());
        assert((seq![o] + rest).last() == rest.last());
        assert(options_bytes(seq![o] + rest) =~= option_bytes(o.0, o.1) + options_bytes(rest));
    }
}

/// Options whose data fits the one-byte length field decode to themselves
/// (untried) from their encoding, whatever bytes follow.
pub proof fn lemma_parse_options_roundtrip(opts: Seq<OptionView>)
    requires
        forall|i: int| 0 <= i < opts.len() ==> #[trigger] opts[i].1.len() <= 253,
    ensures
        parse_options_spec(options_bytes(opts)) == Ok::<Seq<OptionView>, ProtoError>(untried(opts)),
    decreases opts.len(),
{
    if opts.len() == 0 {
        assert(untried(opts) =~= Seq::<OptionView>::empty());
    } else {
        let o = opts[0];
        let rest = opts.drop_first();
        assert(opts =~= seq![o] + rest);
        lemma_options_bytes_prepend(o, rest);
        assert forall|i: int| 0 <= i < rest.len() implies #[trigger] rest[i].1.len() <= 253 by {
            assert(rest[i] == opts[i + 1]);
        }
        lemma_parse_options_roundtrip(rest);
        let b = options_bytes(opts);
        let ob = option_bytes(o.0, o.1);
        assert(o.1.len() <= 253);
        assert(b =~= ob + options_bytes(rest));
        assert(b[1] as int == 2 + o.1.len());
        assert(b.skip(b[1] as int) =~= options_bytes(rest));
        assert(b.subrange(2, b[1] as int) =~= o.1);
        assert(untried(opts) =~= seq![(o.0, o.1, false)] + untried(rest));
    }
}

/// What decodes is exactly an encoding: when an option list decodes, its
/// options (untried, each with at most 253 data bytes) encode back to the very
/// bytes. With `lemma_parse_options_roundtrip`, a buffer decodes exactly when it
/// is the concatenation of well-formed options.
pub proof fn lemma_parse_options_reencode(data: Seq<u8>)
    ensures
        parse_options_spec(data) matches Ok(opts) ==> {
            &&& data == options_bytes(opts)
            &&& forall|i: int| 0 <= i < opts.len() ==> (#[trigger] opts[i]).1.len() <= 253 && !opts[i].2
        },
    decreases data.len(),
{
    if data.len() >= 2 && 2 <= data[1] as int && data[1] as int <= data.len() {
        let l = data[1] as int;
        let rest = data.skip(l);
        lemma_parse_options_reencode(rest);
        if let Ok(ropts) = parse_options_spec(rest) {
            let o = (data[0], data.subrange(2, l), false);
            lemma_options_bytes_prepend(o, ropts);
            assert(option_len_byte(o.1.len()) == data[1]);
            assert(option_bytes(o.0, o.1) =~= data.subrange(0, l));
            assert(data =~= data.subrange(0, l) + rest);
            let opts = seq![o] + ropts;
            assert forall|i: int| 0 <= i < opts.len() implies (#[trigger] opts[i]).1.len() <= 253 && !opts[i].2 by {
                if i > 0 {
                    assert(opts[i] == ropts[i - 1]);
                }
            }
        }
    }
}

/// A control frame whose data fits the 16-bit length field decodes to itself
/// from its encoding, and bytes after it are ignored.
pub proof fn lemma_parse_control_frame_roundtrip(code: u8, identifier: u8, data: Seq<u8>, extra: Seq<u8>)
    requires
        data.len() <= 65531,
    ensures
        parse_control_frame_spec(control_frame_bytes(code, identifier, data) + extra)
            == Ok::<FrameView, ProtoError>((code, identifier, data)),
{
    let b = control_frame_bytes(code, identifier, data) + extra;
    let total = frame_length_field(data.len());
    assert(total == 4 + data.len());
    crate::wire::lemma_be16_roundtrip(total);
    assert(be16(b[2], b[3]) == 4 + data.len());
    assert(b.subrange(4, 4 + data.len() as int) =~= data);
}

} // verus!
