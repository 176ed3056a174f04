//! The HTTP `CONNECT` handshake that opens the SSTP channel over TLS: the
//! request, when the reply has been read, and what the reply says.
use vstd::prelude::*;
use vstd::utf8::encode_utf8;
use base64::Engine;
use crate::constants::CLIENT_NAME;
use crate::text::{parse_uint, parse_uint_spec, push_char, str_chars, utf8_lossy, utf8_lossy_spec};

verus! {

/// What `regex::Regex::captures` finds: the text of capture group `group` in
/// the leftmost match of `pattern` in `text`, if the pattern compiles, matches
/// and the group took part.
pub uninterp spec fn regex_group_spec(pattern: Seq<char>, text: Seq<char>, group: usize) -> Option<Seq<char>>;

/// The character of a 6-bit value in the standard base64 alphabet
/// (`A`-`Z`, `a`-`z`, `0`-`9`, `+`, `/`).
pub open spec fn base64_char(v: int) -> char {
    if v < 26 {
        (65 + v) as char
    } else if v < 52 {
        (97 + v - 26) as char
    } else if v < 62 {
        (48 + v - 52) as char
    } else if v == 62 {
        '+'
    } else {
        '/'
    }
}

/// Padded standard base64 (RFC 4648): each 3 bytes give 4 characters; a last
/// group of 1 or 2 bytes gives 2 or 3 characters and `=` padding to 4.
pub open spec fn base64_spec(data: Seq<u8>) -> Seq<char>
    decreases data.len(),
{
    if data.len() == 0 {
        Seq::empty()
    } else {
        let b0 = data[0] as int;
        let b1 = if data.len() > 1 { data[1] as int } else { 0 };
        let b2 = if data.len() > 2 { data[2] as int } else { 0 };
        let c0 = base64_char(b0 / 4);
        let c1 = base64_char((b0 % 4) * 16 + b1 / 16);
        let c2 = base64_char((b1 % 16) * 4 + b2 / 64);
        let c3 = base64_char(b2 % 64);
        if data.len() == 1 {
            seq![c0, c1, '=', '=']
        } else if data.len() == 2 {
            seq![c0, c1, c2, '=']
        } else {
            seq![c0, c1, c2, c3] + base64_spec(data.skip(3))
        }
    }
}

/// `regex::Regex::new(pattern)` then `captures(text)` and the group's text.
/// The contract names the result; it claims nothing else of the regex crate.
#[verifier::external_body]
fn regex_group(pattern: &str, text: &str, group: usize) -> (r: Option<String>)
    ensures
        match r {
            Some(s) => regex_group_spec(pattern@, text@, group) == Some(s@),
            None => regex_group_spec(pattern@, text@, group) is None,
        },
{
    let re = regex::Regex::new(pattern).ok()?;
    let caps = re.captures(text)?;
    caps.get(group).map(|m| m.as_str().to_owned())
}

/// Whether standard padded base64 of `n` bytes has a length that fits in a
/// `usize` (the encoder panics otherwise).
pub open spec fn base64_fits(n: nat) -> bool {
    if n % 3 == 0 {
        (n / 3) * 4 <= usize::MAX
    } else {
        (n / 3) * 4 + 4 <= usize::MAX
    }
}

/// `base64::engine::general_purpose::STANDARD.encode(data)`: padded standard
/// base64 of `data`.
#[verifier::external_body]
fn base64_encode(data: &[u8]) -> (r: String)
    requires
        base64_fits(data@.len()),
    ensures
        r@ == base64_spec(data@),
{
    base64::engine::general_purpose::STANDARD.encode(data)
}

/// Why the handshake fails.
#[derive(Debug, Clone, Copy, PartialEq, Eq, Structural)]
pub enum HttpError {
    /// The first line of the reply is not an HTTP status line.
    NoStatusLine,
    /// The status code does not fit a `u16`.
    InvalidStatus,
    /// The reply headers pass 4096 bytes.
    ResponseTooLarge,
    /// The server answered with another status than 200.
    Refused(u16),
}

/// What matches an HTTP status line; group 1 is the status code.
pub const STATUS_PATTERN: &'static str = r"HTTP/[\d.]+ (\d+)";

/// The status code found by the pattern: none is an error, one that does not
/// parse as a `u16` another.
pub open spec fn status_from_capture_spec(capture: Option<Seq<char>>) -> Result<u16, HttpError> {
    match capture {
        None => Err(HttpError::NoStatusLine),
        Some(d) => match parse_uint_spec(d, u16::MAX as nat) {
            Some(n) => Ok(n as u16),
            None => Err(HttpError::InvalidStatus),
        },
    }
}

/// The status code from the digits that the pattern captured, if any.
pub fn status_from_capture(capture: Option<&str>) -> (r: Result<u16, HttpError>)
    ensures
        r == status_from_capture_spec(match capture { Some(c) => Some(c@), None => None }),
{
    match capture {
        None => Err(HttpError::NoStatusLine),
        Some(c) => {
            let chars = str_chars(c);
            match parse_uint(chars.as_slice(), u16::MAX as u64) {
                Some(n) => Ok(n as u16),
                None => Err(HttpError::InvalidStatus),
            }
        },
    }
}

/// The status code of a line such as `HTTP/1.0 200 OK`.
pub fn parse_http_status(line: &str) -> (r: Result<u16, HttpError>)
    ensures
        r == status_from_capture_spec(regex_group_spec(STATUS_PATTERN@, line@, 1)),
{
    let cap = regex_group(STATUS_PATTERN, line, 1);
    match cap {
        Some(c) => status_from_capture(Some(c.as_str())),
        None => status_from_capture(None),
    }
}

/// The `CONNECT` request, with the credentials in basic authentication.
pub open spec fn connect_request_spec(server: Seq<char>, username: Seq<char>, password: Seq<char>) -> Seq<char> {
    "CONNECT / HTTP/1.0\r\nHost:"@ + server + "\r\nAgent: "@ + CLIENT_NAME@
        + "\r\nAuthorization: Basic "@ + base64_spec(encode_utf8(username + ":"@ + password)) + "\r\n\r\n"@
}

fn push_text(out: &mut String, s: &str)
    ensures
        final(out)@ == old(out)@ + s@,
{
    let chars = str_chars(s);
    let ghost start = out@;
    let mut i: usize = 0;
    while i < chars.len()
        invariant
            i <= chars@.len(),
            chars@ == s@,
            out@ == start + chars@.take(i as int),
        decreases chars@.len() - i,
    {
        push_char(out, chars[i]);
        assert(out@ =~= start + chars@.take(i + 1));
        i = i + 1;
    }
    assert(chars@.take(chars@.len() as int) =~= chars@);
}

/// The request that opens the channel.
pub fn connect_request(server: &str, username: &str, password: &str) -> (r: String)
    requires
        base64_fits(encode_utf8(username@ + ":"@ + password@).len()),
    ensures
        r@ == connect_request_spec(server@, username@, password@),
{
    let mut cred = String::new();
    push_text(&mut cred, username);
    push_text(&mut cred, ":");
    push_text(&mut cred, password);
    assert(cred@ =~= username@ + ":"@ + password@);
    let cred_bytes = cred.as_str().as_bytes();
    let encoded = base64_encode(cred_bytes);
    let mut req = String::new();
    push_text(&mut req, "CONNECT / HTTP/1.0\r\nHost:");
    push_text(&mut req, server);
    push_text(&mut req, "\r\nAgent: ");
    push_text(&mut req, CLIENT_NAME);
    push_text(&mut req, "\r\nAuthorization: Basic ");
    push_text(&mut req, encoded.as_str());
    push_text(&mut req, "\r\n\r\n");
    assert(req@ =~= connect_request_spec(server@, username@, password@));
    req
}

/// The most bytes of reply headers read.
pub const MAX_RESPONSE_LEN: usize = 4096;

/// How far reading the reply has come.
#[derive(Debug, Clone, Copy, PartialEq, Eq, Structural)]
pub enum ResponseRead {
    /// The headers end with an empty line.
    Complete,
    /// More than 4096 bytes came without the end of the headers.
    TooLarge,
    /// More bytes are needed.
    Incomplete,
}

/// Whether `buf` ends with `\r\n\r\n`.
pub open spec fn ends_headers(buf: Seq<u8>) -> bool {
    buf.len() >= 4 && buf.subrange(buf.len() - 4, buf.len() as int) == seq![13u8, 10u8, 13u8, 10u8]
}

/// Where reading stands once `buf` has been read, one byte at a time.
pub fn response_state(buf: &[u8]) -> (r: ResponseRead)
    ensures
        r == (if ends_headers(buf@) {
            ResponseRead::Complete
        } else if buf@.len() > MAX_RESPONSE_LEN {
            ResponseRead::TooLarge
        } else {
            ResponseRead::Incomplete
        }),
{
    let n = buf.len();
    if n >= 4 && buf[n - 4] == 13 && buf[n - 3] == 10 && buf[n - 2] == 13 && buf[n - 1] == 10 {
        assert(buf@.subrange(n - 4, n as int) =~= seq![13u8, 10u8, 13u8, 10u8]);
        return ResponseRead::Complete;
    }
    proof {
        if n >= 4 {
            let t = buf@.subrange(n - 4, n as int);
            if t == seq![13u8, 10u8, 13u8, 10u8] {
                assert(t[0] == buf@[n - 4] && t[1] == buf@[n - 3] && t[2] == buf@[n - 2] && t[3] == buf@[n - 1]);
            }
        }
    }
    if n > MAX_RESPONSE_LEN {
        ResponseRead::TooLarge
    } else {
        ResponseRead::Incomplete
    }
}

/// `str::lines().next()`, or the empty text when there is no line: the text up
/// to the first `\n`, without a `\r` just before it.
pub open spec fn first_line_spec(s: Seq<char>) -> Seq<char> {
    match first_newline(s, 0) {
        None => s,
        Some(i) => if i > 0 && s[i - 1] == '\r' { s.take(i - 1) } else { s.take(i) },
    }
}

/// The index of the first `\n` at or after `i`.
pub open spec fn first_newline(s: Seq<char>, i: int) -> Option<int>
    decreases s.len() - i,
{
    if i < 0 || i >= s.len() {
        None
    } else if s[i] == '\n' {
        Some(i)
    } else {
        first_newline(s, i + 1)
    }
}

proof fn lemma_first_newline(s: Seq<char>, i: int)
    requires
        0 <= i <= s.len(),
    ensures
        match first_newline(s, i) {
            Some(j) => i <= j < s.len() && s[j] == '\n',
            None => true,
        },
    decreases s.len() - i,
{
    if i < s.len() && s[i] != '\n' {
        lemma_first_newline(s, i + 1);
    }
}

/// The first line of a text.
pub fn first_line(s: &str) -> (r: String)
    ensures
        r@ == first_line_spec(s@),
{
    let chars = str_chars(s);
    let mut i: usize = 0;
    while i < chars.len() && chars[i] != '\n'
        invariant
            i <= chars@.len(),
            chars@ == s@,
            first_newline(s@, 0) == first_newline(s@, i as int),
        decreases chars@.len() - i,
    {
        i = i + 1;
    }
    proof { lemma_first_newline(s@, i as int); }
    let end: usize = if i < chars.len() && i > 0 && chars[i - 1] == '\r' { i - 1 } else { i };
    let mut out = String::new();
    let mut k: usize = 0;
    while k < end
        invariant
            k <= end <= chars@.len(),
            out@ == chars@.take(k as int),
        decreases end - k,
    {
        push_char(&mut out, chars[k]);
        assert(out@ =~= chars@.take(k + 1));
        k = k + 1;
    }
    proof {
        if i == chars@.len() {
            assert(chars@.take(end as int) =~= chars@);
        }
    }
    out
}

/// What the reply to `CONNECT` says: its status line is read from the bytes
/// as text (invalid UTF-8 replaced), and anything but 200 refuses.
pub open spec fn connect_reply_spec(buf: Seq<u8>) -> Result<(), HttpError> {
    match status_from_capture_spec(regex_group_spec(STATUS_PATTERN@, first_line_spec(utf8_lossy_spec(buf)), 1)) {
        Err(e) => Err(e),
        Ok(code) => if code == 200 { Ok(()) } else { Err(HttpError::Refused(code)) },
    }
}

/// Check the reply to `CONNECT`.
pub fn check_connect_reply(buf: &[u8]) -> (r: Result<(), HttpError>)
    ensures
        r == connect_reply_spec(buf@),
{
    let text = utf8_lossy(buf);
    let line = first_line(text.as_str());
    let code = parse_http_status(line.as_str())?;
    if code != 200 {
        return Err(HttpError::Refused(code));
    }
    Ok(())
}

} // verus!

