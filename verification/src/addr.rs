//! IPv4 addresses as four octets.
use vstd::prelude::*;
use crate::text::{all_digits, decimal_text, digits_value, is_digit, lemma_decimal_text, lemma_split_concat, lemma_split_single, push_char, push_decimal_text, split_chars, split_on, str_chars, char_vec_views};

verus! {

/// An IPv4 address `a.b.c.d`.
#[derive(Debug, Clone, Copy, PartialEq, Eq, Structural)]
pub struct Ipv4 {
    pub a: u8,
    pub b: u8,
    pub c: u8,
    pub d: u8,
}

impl Ipv4 {
    /// The four octets, most significant first.
    pub open spec fn octet_seq(self) -> Seq<u8> {
        seq![self.a, self.b, self.c, self.d]
    }

    /// The address `a.b.c.d`.
    pub fn new(a: u8, b: u8, c: u8, d: u8) -> (r: Self)
        ensures
            r.octet_seq() == seq![a, b, c, d],
    {
        Ipv4 { a, b, c, d }
    }

    /// The four octets, most significant first.
    pub fn octets(&self) -> (r: [u8; 4])
        ensures
            r@ == self.octet_seq(),
    {
        let r = [self.a, self.b, self.c, self.d];
        assert(r@ =~= self.octet_seq());
        r
    }
}

/// The address made of the first four bytes of `data`, if it has four.
pub fn parse_ip(data: &[u8]) -> (r: Option<Ipv4>)
    ensures
        match r {
            Some(ip) => data@.len() >= 4 && ip.octet_seq() == data@.take(4),
            None => data@.len() < 4,
        },
{
    if data.len() >= 4 {
        let ip = Ipv4::new(data[0], data[1], data[2], data[3]);
        assert(ip.octet_seq() =~= data@.take(4));
        Some(ip)
    } else {
        None
    }
}

/// Whether `g` is a valid dotted-quad group: 1 to 3 digits, no leading zero,
/// at most 255.
pub open spec fn octet_text_ok(g: Seq<char>) -> bool {
    &&& 1 <= g.len() <= 3
    &&& all_digits(g)
    &&& (g.len() > 1 ==> g[0] != '0')
    &&& digits_value(g) <= 255
}

/// `Ipv4Addr::from_str`: exactly four dot-separated groups, each a valid octet.
pub open spec fn parse_ipv4_spec(s: Seq<char>) -> Option<Seq<u8>> {
    let p = split_on(s, '.');
    if p.len() == 4 && octet_text_ok(p[0]) && octet_text_ok(p[1]) && octet_text_ok(p[2]) && octet_text_ok(p[3]) {
        Some(seq![digits_value(p[0]) as u8, digits_value(p[1]) as u8, digits_value(p[2]) as u8, digits_value(p[3]) as u8])
    } else {
        None
    }
}

/// The dotted-quad text of an address.
pub open spec fn ipv4_text(ip: Ipv4) -> Seq<char> {
    decimal_text(ip.a as nat) + seq!['.'] + decimal_text(ip.b as nat) + seq!['.'] + decimal_text(ip.c as nat)
        + seq!['.'] + decimal_text(ip.d as nat)
}

fn parse_octet(g: &[char]) -> (r: Option<u8>)
    ensures
        match r {
            Some(v) => octet_text_ok(g@) && v == digits_value(g@),
            None => !octet_text_ok(g@),
        },
{
    if g.len() == 0 || g.len() > 3 {
        return None;
    }
    if g.len() > 1 && g[0] == '0' {
        return None;
    }
    let mut v: u32 = 0;
    let mut i: usize = 0;
    assert(g@.take(0) =~= Seq::<char>::empty());
    while i < g.len()
        invariant
            i <= g@.len() <= 3,
            forall|j: int| 0 <= j < i ==> is_digit(#[trigger] g@[j]),
            v == digits_value(g@.take(i as int)),
            i == 0 ==> v == 0,
            i == 1 ==> v < 10,
            i == 2 ==> v < 100,
            i == 3 ==> v < 1000,
        decreases g@.len() - i,
    {
        let c = g[i];
        if c < '0' || c > '9' {
            assert(!is_digit(g@[i as int]));
            return None;
        }
        proof {
            let t = g@.take(i + 1);
            assert(t.drop_last() =~= g@.take(i as int));
            assert(t.last() == c);
            assert(digits_value(t) == digits_value(t.drop_last()) * 10 + ((t.last() as int - 48) as nat));
        }
        let d = c as u32 - 48;
        v = v * 10 + d;
        i = i + 1;
    }
    assert(g@.take(g@.len() as int) =~= g@);
    if v > 255 {
        return None;
    }
    Some(v as u8)
}

/// Parse a dotted-quad IPv4 address given as characters.
pub fn parse_ipv4_chars(s: &[char]) -> (r: Option<Ipv4>)
    ensures
        match r {
            Some(ip) => parse_ipv4_spec(s@) == Some(ip.octet_seq()),
            None => parse_ipv4_spec(s@) is None,
        },
{
    let parts = split_chars(s, '.');
    assert(char_vec_views(parts@) == split_on(s@, '.'));
    if parts.len() != 4 {
        return None;
    }
    proof {
        let p = split_on(s@, '.');
        assert(parts@[0]@ == p[0] && parts@[1]@ == p[1] && parts@[2]@ == p[2] && parts@[3]@ == p[3]);
    }
    let a = match parse_octet(parts[0].as_slice()) {
        Some(v) => v,
        None => return None,
    };
    let b = match parse_octet(parts[1].as_slice()) {
        Some(v) => v,
        None => return None,
    };
    let c = match parse_octet(parts[2].as_slice()) {
        Some(v) => v,
        None => return None,
    };
    let d = match parse_octet(parts[3].as_slice()) {
        Some(v) => v,
        None => return None,
    };
    let ip = Ipv4::new(a, b, c, d);
    assert(ip.octet_seq() =~= parse_ipv4_spec(s@).unwrap());
    Some(ip)
}

/// Parse a dotted-quad IPv4 address.
pub fn parse_ipv4(s: &str) -> (r: Option<Ipv4>)
    ensures
        match r {
            Some(ip) => parse_ipv4_spec(s@) == Some(ip.octet_seq()),
            None => parse_ipv4_spec(s@) is None,
        },
{
    let chars = str_chars(s);
    parse_ipv4_chars(chars.as_slice())
}

/// Appends the dotted-quad text of an address.
pub fn push_ipv4_text(out: &mut String, ip: Ipv4)
    ensures
        final(out)@ == old(out)@ + ipv4_text(ip),
{
    push_decimal_text(out, ip.a as u64);
    push_char(out, '.');
    push_decimal_text(out, ip.b as u64);
    push_char(out, '.');
    push_decimal_text(out, ip.c as u64);
    push_char(out, '.');
    push_decimal_text(out, ip.d as u64);
    assert(final(out)@ =~= old(out)@ + ipv4_text(ip));
}

/// The dotted-quad text of an address, as `Ipv4Addr`'s `Display` writes it.
pub fn ipv4_to_string(ip: Ipv4) -> (r: String)
    ensures
        r@ == ipv4_text(ip),
{
    let mut s = String::new();
    push_ipv4_text(&mut s, ip);
    assert(s@ =~= ipv4_text(ip));
    s
}

proof fn lemma_octet_text(n: u8)
    ensures
        octet_text_ok(decimal_text(n as nat)),
        digits_value(decimal_text(n as nat)) == n,
        forall|i: int| 0 <= i < decimal_text(n as nat).len() ==> decimal_text(n as nat)[i] != '.',
{
    lemma_decimal_text(n as nat);
    let t = decimal_text(n as nat);
    assert forall|i: int| 0 <= i < t.len() implies t[i] != '.' by {
        assert(is_digit(t[i]));
    }
}

/// An address's dotted-quad text parses back to the address.
#[verifier::spinoff_prover]
#[verifier::rlimit(40)]
pub proof fn lemma_parse_ipv4_text(ip: Ipv4)
    ensures
        parse_ipv4_spec(ipv4_text(ip)) == Some(ip.octet_seq()),
{
    let ta = decimal_text(ip.a as nat);
    let tb = decimal_text(ip.b as nat);
    let tc = decimal_text(ip.c as nat);
    let td = decimal_text(ip.d as nat);
    lemma_octet_text(ip.a);
    lemma_octet_text(ip.b);
    lemma_octet_text(ip.c);
    lemma_octet_text(ip.d);
    lemma_split_single(ta, '.');
    lemma_split_single(tb, '.');
    lemma_split_single(tc, '.');
    lemma_split_single(td, '.');
    let rest_c = tc + seq!['.'] + td;
    lemma_split_concat(tc, td, '.');
    let rest_b = tb + seq!['.'] + rest_c;
    lemma_split_concat(tb, rest_c, '.');
    lemma_split_concat(ta, rest_b, '.');
    assert(ipv4_text(ip) =~= ta + seq!['.'] + rest_b);
    let p = split_on(ipv4_text(ip), '.');
    assert(p =~= seq![ta, tb, tc, td]);
    assert(p[0] == ta && p[1] == tb && p[2] == tc && p[3] == td);
    assert(parse_ipv4_spec(ipv4_text(ip)).unwrap() =~= ip.octet_seq());
}

} // verus!
