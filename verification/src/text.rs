//! Decimal numbers as ASCII text.
use vstd::prelude::*;

verus! {

/// The ASCII decimal digits of `n`, most significant first, without leading zeros.
pub open spec fn decimal_digits(n: nat) -> Seq<u8>
    decreases n,
{
    if n < 10 {
        seq![(48 + n) as u8]
    } else {
        decimal_digits(n / 10).push((48 + n % 10) as u8)
    }
}

/// Appends the ASCII decimal digits of `n` to `out`.
pub fn push_decimal(out: &mut Vec<u8>, n: u64)
    ensures
        final(out)@ == old(out)@ + decimal_digits(n as nat),
    decreases n,
{
    if n >= 10 {
        push_decimal(out, n / 10);
    }
    let d = (n % 10) as u8;
    out.push(48u8 + d);
    proof {
        if n < 10 {
            assert(final(out)@ =~= old(out)@ + decimal_digits(n as nat));
        } else {
            assert((old(out)@ + decimal_digits((n / 10) as nat)).push((48 + n % 10) as u8)
                =~= old(out)@ + decimal_digits(n as nat));
        }
    }
}

/// The characters of a string slice.
pub fn str_chars(s: &str) -> (r: Vec<char>)
    ensures
        r@ == s@,
{
    broadcast use vstd::string::group_string_axioms;
    let mut out: Vec<char> = Vec::new();
    for c in it: s.chars()
        invariant
            out@ == it.seq().take(it.index()),
    {
        out.push(c);
    }
    assert(out@ =~= s@);
    out
}

/// Append the characters of `s`.
pub(crate) fn push_text(out: &mut String, s: &str)
    ensures
        final(out)@ == old(out)@ + s@,
{
    let chars = str_chars(s);
    let ghost start = out@;
    let mut i: usize = 0;
    while i < chars.len()
        invariant
            i <= chars@.len(),
            chars@ == s@,
            out@ == start + chars@.take(i as int),
        decreases chars@.len() - i,
    {
        push_char(out, chars[i]);
        assert(out@ =~= start + chars@.take(i + 1));
        i = i + 1;
    }
    assert(chars@.take(chars@.len() as int) =~= chars@);
}

/// `String::push`: appends one character.
#[verifier::external_body]
pub(crate) fn push_char(s: &mut String, c: char)
    ensures
        final(s)@ == old(s)@.push(c),
{
    s.push(c)
}

/// A string holding the given characters.
pub fn string_from_chars(v: &[char]) -> (r: String)
    ensures
        r@ == v@,
{
    let mut out = String::new();
    let mut i: usize = 0;
    while i < v.len()
        invariant
            i <= v@.len(),
            out@ == v@.take(i as int),
        decreases v@.len() - i,
    {
        push_char(&mut out, v[i]);
        assert(v@.take(i + 1) =~= v@.take(i as int).push(v@[i as int]));
        i = i + 1;
    }
    assert(v@.take(v@.len() as int) =~= v@);
    out
}

/// Whether `c` is an ASCII decimal digit.
pub open spec fn is_digit(c: char) -> bool {
    '0' <= c && c <= '9'
}

/// Whether every character of `s` is an ASCII decimal digit.
pub open spec fn all_digits(s: Seq<char>) -> bool {
    forall|i: int| 0 <= i < s.len() ==> is_digit(#[trigger] s[i])
}

/// The value of a string of decimal digits.
pub open spec fn digits_value(s: Seq<char>) -> nat
    decreases s.len(),
{
    if s.len() == 0 {
        0
    } else {
        digits_value(s.drop_last()) * 10 + ((s.last() as int - 48) as nat)
    }
}

/// `str::parse` for an unsigned integer type whose largest value is `max`:
/// an optional `+`, then one or more ASCII digits, of value at most `max`.
pub open spec fn parse_uint_spec(s: Seq<char>, max: nat) -> Option<nat> {
    let d = if s.len() > 0 && s[0] == '+' { s.drop_first() } else { s };
    if d.len() > 0 && all_digits(d) && digits_value(d) <= max {
        Some(digits_value(d))
    } else {
        None
    }
}

proof fn lemma_digits_value_prefix(s: Seq<char>, i: int)
    requires
        0 <= i <= s.len(),
        all_digits(s),
    ensures
        digits_value(s.take(i)) <= digits_value(s),
    decreases s.len() - i,
{
    if i < s.len() {
        lemma_digits_value_prefix(s, i + 1);
        let t = s.take(i + 1);
        assert(t.drop_last() =~= s.take(i));
        assert(is_digit(s[i]));
    } else {
        assert(s.take(i) =~= s);
    }
}

/// Parse an unsigned decimal number of at most `max` with the rules of `str::parse`.
pub fn parse_uint(s: &[char], max: u64) -> (r: Option<u64>)
    ensures
        match r {
            Some(v) => parse_uint_spec(s@, max as nat) == Some(v as nat),
            None => parse_uint_spec(s@, max as nat) is None,
        },
{
    let start: usize = if s.len() > 0 && s[0] == '+' { 1 } else { 0 };
    let ghost d = if s@.len() > 0 && s@[0] == '+' { s@.drop_first() } else { s@ };
    assert(d =~= s@.skip(start as int));
    if start >= s.len() {
        return None;
    }
    let mut i: usize = start;
    while i < s.len()
        invariant
            start <= i <= s@.len(),
            d =~= s@.skip(start as int),
            d == (if s@.len() > 0 && s@[0] == '+' { s@.drop_first() } else { s@ }),
            forall|j: int| 0 <= j < i - start ==> is_digit(#[trigger] d[j]),
        decreases s@.len() - i,
    {
        let c = s[i];
        assert(d[i - start] == s@[i as int]);
        if c < '0' || c > '9' {
            assert(!is_digit(d[i - start]));
            assert(!all_digits(d));
            return None;
        }
        i = i + 1;
    }
    assert(all_digits(d));
    let mut acc: u64 = 0;
    let mut k: usize = start;
    assert(d.take(0) =~= Seq::<char>::empty());
    while k < s.len()
        invariant
            start <= k <= s@.len(),
            d =~= s@.skip(start as int),
            d == (if s@.len() > 0 && s@[0] == '+' { s@.drop_first() } else { s@ }),
            all_digits(d),
            acc as nat == digits_value(d.take(k - start)),
            acc <= max,
        decreases s@.len() - k,
    {
        let c = s[k];
        assert(d[k - start] == c);
        assert(is_digit(d[k - start]));
        let digit = (c as u32 - 48) as u64;
        let next: u128 = acc as u128 * 10 + digit as u128;
        proof {
            let t = d.take(k - start + 1);
            assert(t.drop_last() =~= d.take(k - start));
            assert(t.last() == c);
            assert(is_digit(c));
            assert(digits_value(t) == digits_value(t.drop_last()) * 10 + ((t.last() as int - 48) as nat));
            assert(next == digits_value(t));
        }
        if next > max as u128 {
            proof { lemma_digits_value_prefix(d, k - start + 1); }
            return None;
        }
        acc = next as u64;
        k = k + 1;
    }
    assert(d.take(s@.len() - start) =~= d);
    Some(acc)
}

/// The ten decimal digit characters.
pub open spec fn digit_chars() -> Seq<char> {
    seq!['0', '1', '2', '3', '4', '5', '6', '7', '8', '9']
}

/// The decimal text of `n`, most significant digit first, without leading zeros.
pub open spec fn decimal_text(n: nat) -> Seq<char>
    decreases n,
{
    if n < 10 {
        seq![digit_chars()[n as int]]
    } else {
        decimal_text(n / 10).push(digit_chars()[(n % 10) as int])
    }
}

proof fn lemma_digit_chars(d: int)
    requires
        0 <= d < 10,
    ensures
        is_digit(digit_chars()[d]),
        digit_chars()[d] as int - 48 == d,
        d != 0 ==> digit_chars()[d] != '0',
{
    assert('0' as int == 48 && '1' as int == 49 && '2' as int == 50 && '3' as int == 51 && '4' as int == 52);
    assert('5' as int == 53 && '6' as int == 54 && '7' as int == 55 && '8' as int == 56 && '9' as int == 57);
}

/// Appends the decimal text of `n` to `out`.
pub fn push_decimal_text(out: &mut String, n: u64)
    ensures
        final(out)@ == old(out)@ + decimal_text(n as nat),
    decreases n,
{
    if n >= 10 {
        push_decimal_text(out, n / 10);
    }
    let digits: [char; 10] = ['0', '1', '2', '3', '4', '5', '6', '7', '8', '9'];
    assert(digits@ =~= digit_chars());
    let c = digits[(n % 10) as usize];
    push_char(out, c);
    proof {
        if n < 10 {
            assert(final(out)@ =~= old(out)@ + decimal_text(n as nat));
        } else {
            assert((old(out)@ + decimal_text((n / 10) as nat)).push(c) =~= old(out)@ + decimal_text(n as nat));
        }
    }
}

/// The decimal text of a number.
pub fn u64_to_text(n: u64) -> (r: String)
    ensures
        r@ == decimal_text(n as nat),
{
    let mut s = String::new();
    push_decimal_text(&mut s, n);
    assert(s@ =~= decimal_text(n as nat));
    s
}

/// The pieces of `s` between occurrences of `sep`, as `str::split` gives them:
/// `k` separators give `k + 1` pieces, which may be empty.
pub open spec fn split_on(s: Seq<char>, sep: char) -> Seq<Seq<char>>
    decreases s.len(),
{
    if s.len() == 0 {
        seq![Seq::empty()]
    } else {
        let parts = split_on(s.drop_last(), sep);
        if s.last() == sep {
            parts.push(Seq::empty())
        } else {
            parts.update(parts.len() - 1, parts.last().push(s.last()))
        }
    }
}

proof fn lemma_split_nonempty(s: Seq<char>, sep: char)
    ensures
        split_on(s, sep).len() >= 1,
    decreases s.len(),
{
    if s.len() > 0 {
        lemma_split_nonempty(s.drop_last(), sep);
    }
}

/// The views of a list of character vectors.
pub open spec fn char_vec_views(v: Seq<Vec<char>>) -> Seq<Seq<char>> {
    v.map_values(|x: Vec<char>| x@)
}

/// Split a character string on `sep`.
pub fn split_chars(s: &[char], sep: char) -> (r: Vec<Vec<char>>)
    ensures
        char_vec_views(r@) == split_on(s@, sep),
{
    let mut parts: Vec<Vec<char>> = Vec::new();
    let mut current: Vec<char> = Vec::new();
    let mut i: usize = 0;
    assert(s@.take(0) =~= Seq::<char>::empty());
    while i < s.len()
        invariant
            i <= s@.len(),
            char_vec_views(parts@).push(current@) == split_on(s@.take(i as int), sep),
        decreases s@.len() - i,
    {
        let c = s[i];
        let ghost prev = split_on(s@.take(i as int), sep);
        proof {
            let t = s@.take(i + 1);
            assert(t.drop_last() =~= s@.take(i as int));
            assert(t.last() == c);
            lemma_split_nonempty(s@.take(i as int), sep);
        }
        if c == sep {
            let done = current;
            let ghost pv = char_vec_views(parts@);
            parts.push(done);
            current = Vec::new();
            assert(char_vec_views(parts@) =~= pv.push(done@));
            assert(char_vec_views(parts@).push(current@) =~= prev.push(Seq::<char>::empty()));
        } else {
            let ghost before = current@;
            current.push(c);
            assert(char_vec_views(parts@).push(current@) =~= prev.update(prev.len() - 1, prev.last().push(c)));
        }
        i = i + 1;
    }
    assert(s@.take(s@.len() as int) =~= s@);
    let ghost pv = char_vec_views(parts@);
    parts.push(current);
    assert(char_vec_views(parts@) =~= pv.push(current@));
    parts
}

/// The decimal text of a number is a non-empty string of digits whose value is
/// the number, with no leading zero, at most 3 digits long below 1000.
pub proof fn lemma_decimal_text(n: nat)
    ensures
        decimal_text(n).len() >= 1,
        all_digits(decimal_text(n)),
        digits_value(decimal_text(n)) == n,
        decimal_text(n).len() > 1 ==> decimal_text(n)[0] != '0',
        n < 10 ==> decimal_text(n).len() == 1,
        n < 100 ==> decimal_text(n).len() <= 2,
        n < 1000 ==> decimal_text(n).len() <= 3,
    decreases n,
{
    lemma_digit_chars((n % 10) as int);
    if n < 10 {
        assert(n % 10 == n);
        let t = decimal_text(n);
        assert(t.drop_last() =~= Seq::<char>::empty());
        assert(digits_value(t) == digits_value(t.drop_last()) * 10 + ((t.last() as int - 48) as nat));
    }
    if n >= 10 {
        lemma_decimal_text(n / 10);
        let t = decimal_text(n);
        assert(t.drop_last() =~= decimal_text(n / 10));
        assert forall|i: int| 0 <= i < t.len() implies is_digit(#[trigger] t[i]) by {
            if i < t.len() - 1 {
                assert(t[i] == decimal_text(n / 10)[i]);
            }
        }
        assert(t[0] == decimal_text(n / 10)[0]);
        assert(digits_value(t) == digits_value(t.drop_last()) * 10 + ((t.last() as int - 48) as nat));
        if decimal_text(n / 10).len() == 1 {
            assert(n / 10 >= 1);
            if n / 10 >= 10 {
                lemma_decimal_text(n / 10 / 10);
            }
            lemma_digit_chars((n / 10) as int);
            assert(decimal_text(n / 10)[0] != '0');
        }
    }
}

/// A number's decimal text parses back to it.
pub proof fn lemma_parse_decimal_text(n: nat, max: nat)
    requires
        n <= max,
    ensures
        parse_uint_spec(decimal_text(n), max) == Some(n),
{
    lemma_decimal_text(n);
    assert(is_digit(decimal_text(n)[0]));
}

/// Splitting at a separator splits the two sides independently.
pub proof fn lemma_split_concat(x: Seq<char>, y: Seq<char>, sep: char)
    ensures
        split_on(x + seq![sep] + y, sep) == split_on(x, sep) + split_on(y, sep),
    decreases y.len(),
{
    if y.len() == 0 {
        let s = x + seq![sep];
        assert(s.drop_last() =~= x);
        assert(x + seq![sep] + y =~= s);
        assert(split_on(y, sep) =~= seq![Seq::<char>::empty()]);
        assert(split_on(x, sep).push(Seq::<char>::empty()) =~= split_on(x, sep) + split_on(y, sep));
    } else {
        let y1 = y.drop_last();
        let c = y.last();
        lemma_split_concat(x, y1, sep);
        let s = x + seq![sep] + y;
        assert(s.drop_last() =~= x + seq![sep] + y1);
        assert(s.last() == c);
        lemma_split_nonempty(y1, sep);
        lemma_split_nonempty(x, sep);
        let a = split_on(x, sep);
        let b = split_on(y1, sep);
        if c == sep {
            assert((a + b).push(Seq::<char>::empty()) =~= a + b.push(Seq::<char>::empty()));
        } else {
            assert((a + b).update((a + b).len() - 1, (a + b).last().push(c)) =~= a + b.update(b.len() - 1, b.last().push(c)));
        }
    }
}

/// A string without the separator is a single piece.
pub proof fn lemma_split_single(x: Seq<char>, sep: char)
    requires
        forall|i: int| 0 <= i < x.len() ==> x[i] != sep,
    ensures
        split_on(x, sep) == seq![x],
    decreases x.len(),
{
    if x.len() > 0 {
        let x1 = x.drop_last();
        assert forall|i: int| 0 <= i < x1.len() implies x1[i] != sep by {
            assert(x1[i] == x[i]);
        }
        lemma_split_single(x1, sep);
        assert(x1.push(x.last()) =~= x);
        assert(seq![x1].update(0, x1.push(x.last())) =~= seq![x]);
    } else {
        assert(x =~= Seq::<char>::empty());
    }
}

/// `String::from_utf8_lossy` as text.
pub uninterp spec fn utf8_lossy_spec(bytes: Seq<u8>) -> Seq<char>;

/// Whether every byte is ASCII.
pub open spec fn is_ascii_bytes(b: Seq<u8>) -> bool {
    forall|i: int| 0 <= i < b.len() ==> b[i] < 128
}

/// ASCII bytes as the characters they encode, one each.
pub open spec fn ascii_chars(b: Seq<u8>) -> Seq<char> {
    Seq::new(b.len(), |i: int| b[i] as char)
}

/// `String::from_utf8_lossy`: the text of `bytes`, with invalid sequences
/// replaced. Of the text only this is stated: ASCII bytes, being valid UTF-8,
/// are kept as they are, one character each.
#[verifier::external_body]
pub(crate) fn utf8_lossy(bytes: &[u8]) -> (r: String)
    ensures
        r@ == utf8_lossy_spec(bytes@),
        is_ascii_bytes(bytes@) ==> r@ == ascii_chars(bytes@),
{
    String::from_utf8_lossy(bytes).into_owned()
}

/// Whether two strings hold the same characters.
pub fn str_eq(a: &str, b: &str) -> (r: bool)
    ensures
        r == (a@ == b@),
{
    let x = str_chars(a);
    let y = str_chars(b);
    if x.len() != y.len() {
        return false;
    }
    let mut i: usize = 0;
    while i < x.len()
        invariant
            i <= x@.len(),
            x@.len() == y@.len(),
            x@ == a@,
            y@ == b@,
            forall|j: int| 0 <= j < i ==> x@[j] == y@[j],
        decreases x@.len() - i,
    {
        if x[i] != y[i] {
            return false;
        }
        i = i + 1;
    }
    assert(x@ =~= y@);
    true
}

/// A copy of a string.
pub fn copy_string(s: &String) -> (r: String)
    ensures
        r@ == s@,
{
    s.as_str().to_owned()
}

} // verus!
