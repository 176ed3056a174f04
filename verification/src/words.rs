//! Whitespace, trimming, words and hexadecimal numbers, with the rules of
//! `char::is_whitespace`, `str::trim`, `str::split_whitespace` and
//! `u64::from_str_radix(_, 16)`.
use vstd::prelude::*;

verus! {

/// `char::is_whitespace`: the characters with the Unicode `White_Space` property.
pub open spec fn is_space(c: char) -> bool {
    ||| c == '\t' || c == '\n' || c == '\u{0B}' || c == '\u{0C}' || c == '\r' || c == ' '
    ||| c == '\u{85}' || c == '\u{A0}' || c == '\u{1680}'
    ||| ('\u{2000}' <= c && c <= '\u{200A}')
    ||| c == '\u{2028}' || c == '\u{2029}' || c == '\u{202F}' || c == '\u{205F}' || c == '\u{3000}'
}

/// Whether `c` is whitespace.
pub fn char_is_space(c: char) -> (r: bool)
    ensures
        r == is_space(c),
{
    c == '\t' || c == '\n' || c == '\u{0B}' || c == '\u{0C}' || c == '\r' || c == ' '
        || c == '\u{85}' || c == '\u{A0}' || c == '\u{1680}'
        || ('\u{2000}' <= c && c <= '\u{200A}')
        || c == '\u{2028}' || c == '\u{2029}' || c == '\u{202F}' || c == '\u{205F}' || c == '\u{3000}'
}

/// The index of the first character of `s` at or after `i` that is not whitespace.
pub open spec fn skip_space(s: Seq<char>, i: int) -> int
    decreases s.len() - i,
{
    if i < 0 || i >= s.len() || !is_space(s[i]) {
        i
    } else {
        skip_space(s, i + 1)
    }
}

/// The index just past the end of `s` once trailing whitespace before `j` is dropped.
pub open spec fn drop_space_back(s: Seq<char>, j: int) -> int
    decreases j,
{
    if j <= 0 || j > s.len() || !is_space(s[j - 1]) {
        j
    } else {
        drop_space_back(s, j - 1)
    }
}

/// `str::trim`: `s` without its leading and trailing whitespace.
pub open spec fn trim_spec(s: Seq<char>) -> Seq<char> {
    let a = skip_space(s, 0);
    let b = drop_space_back(s, s.len() as int);
    if a >= b {
        Seq::empty()
    } else {
        s.subrange(a, b)
    }
}

proof fn lemma_skip_space(s: Seq<char>, i: int)
    requires
        0 <= i <= s.len(),
    ensures
        i <= skip_space(s, i) <= s.len(),
        forall|k: int| i <= k < skip_space(s, i) ==> is_space(#[trigger] s[k]),
        skip_space(s, i) < s.len() ==> !is_space(s[skip_space(s, i)]),
    decreases s.len() - i,
{
    if i < s.len() && is_space(s[i]) {
        lemma_skip_space(s, i + 1);
    }
}

proof fn lemma_drop_space_back(s: Seq<char>, j: int)
    requires
        0 <= j <= s.len(),
    ensures
        0 <= drop_space_back(s, j) <= j,
        forall|k: int| drop_space_back(s, j) <= k < j ==> is_space(#[trigger] s[k]),
        drop_space_back(s, j) > 0 ==> !is_space(s[drop_space_back(s, j) - 1]),
    decreases j,
{
    if j > 0 && is_space(s[j - 1]) {
        lemma_drop_space_back(s, j - 1);
    }
}

/// Trim whitespace from both ends.
pub fn trim_chars(s: &[char]) -> (r: Vec<char>)
    ensures
        r@ == trim_spec(s@),
{
    let mut a: usize = 0;
    while a < s.len() && char_is_space(s[a])
        invariant
            a <= s@.len(),
            skip_space(s@, 0) == skip_space(s@, a as int),
        decreases s@.len() - a,
    {
        a = a + 1;
    }
    let mut b: usize = s.len();
    while b > 0 && char_is_space(s[b - 1])
        invariant
            b <= s@.len(),
            drop_space_back(s@, s@.len() as int) == drop_space_back(s@, b as int),
        decreases b,
    {
        b = b - 1;
    }
    let mut out: Vec<char> = Vec::new();
    if a < b {
        let mut k: usize = a;
        while k < b
            invariant
                a <= k <= b <= s@.len(),
                out@ == s@.subrange(a as int, k as int),
            decreases b - k,
        {
            out.push(s[k]);
            k = k + 1;
        }
    }
    proof {
        if a >= b {
            assert(out@ =~= Seq::<char>::empty());
        }
    }
    out
}

/// The end of the word that starts at `i`: the first whitespace at or after
/// `i`, or the end.
pub open spec fn word_end(s: Seq<char>, i: int) -> int
    decreases s.len() - i,
{
    if i < 0 || i >= s.len() || is_space(s[i]) {
        i
    } else {
        word_end(s, i + 1)
    }
}

/// `str::split_whitespace` from index `i` on: the maximal runs of characters
/// that are not whitespace, in order.
pub open spec fn words_from(s: Seq<char>, i: int) -> Seq<Seq<char>>
    decreases s.len() - i, 1int,
{
    if i < 0 || i >= s.len() {
        Seq::empty()
    } else if is_space(s[i]) {
        words_from(s, i + 1)
    } else {
        let j = word_end(s, i);
        if j <= i || j > s.len() {
            Seq::empty()
        } else {
            seq![s.subrange(i, j)] + words_from(s, j)
        }
    }
}

/// The words of `s`.
pub open spec fn words(s: Seq<char>) -> Seq<Seq<char>> {
    words_from(s, 0)
}

proof fn lemma_word_end(s: Seq<char>, i: int)
    requires
        0 <= i <= s.len(),
    ensures
        i <= word_end(s, i) <= s.len(),
        i < s.len() && !is_space(s[i]) ==> i < word_end(s, i),
    decreases s.len() - i,
{
    if i < s.len() && !is_space(s[i]) {
        lemma_word_end(s, i + 1);
    }
}

/// The views of a list of character vectors.
pub open spec fn char_vecs_view(v: Seq<Vec<char>>) -> Seq<Seq<char>> {
    v.map_values(|w: Vec<char>| w@)
}

/// Split at runs of whitespace, dropping empty pieces.
pub fn split_words(s: &[char]) -> (r: Vec<Vec<char>>)
    ensures
        char_vecs_view(r@) == words(s@),
{
    let mut out: Vec<Vec<char>> = Vec::new();
    let mut i: usize = 0;
    assert(char_vecs_view(out@) =~= Seq::<Seq<char>>::empty());
    while i < s.len()
        invariant
            i <= s@.len(),
            words(s@) == char_vecs_view(out@) + words_from(s@, i as int),
        decreases s@.len() - i,
    {
        if char_is_space(s[i]) {
            i = i + 1;
        } else {
            proof { lemma_word_end(s@, i as int); }
            let ghost before = char_vecs_view(out@);
            let mut w: Vec<char> = Vec::new();
            let mut j: usize = i;
            while j < s.len() && !char_is_space(s[j])
                invariant
                    i <= j <= s@.len(),
                    w@ == s@.subrange(i as int, j as int),
                    word_end(s@, i as int) == word_end(s@, j as int),
                decreases s@.len() - j,
            {
                w.push(s[j]);
                j = j + 1;
            }
            out.push(w);
            proof {
                assert(char_vecs_view(out@) =~= before.push(s@.subrange(i as int, j as int)));
                assert(before + words_from(s@, i as int)
                    =~= char_vecs_view(out@) + words_from(s@, j as int));
            }
            i = j;
        }
    }
    assert(words_from(s@, i as int) =~= Seq::<Seq<char>>::empty());
    assert(char_vecs_view(out@) + Seq::<Seq<char>>::empty() =~= char_vecs_view(out@));
    out
}

/// `str::trim_start_matches` with a fixed prefix: `s` without any number of
/// leading copies of `p`.
pub open spec fn strip_prefixes(s: Seq<char>, p: Seq<char>) -> Seq<char>
    decreases s.len(),
{
    if p.len() > 0 && s.len() >= p.len() && s.take(p.len() as int) == p {
        strip_prefixes(s.skip(p.len() as int), p)
    } else {
        s
    }
}

/// The value of a hexadecimal digit, if `c` is one.
pub open spec fn hex_digit(c: char) -> Option<nat> {
    if '0' <= c && c <= '9' {
        Some((c as int - 48) as nat)
    } else if 'a' <= c && c <= 'f' {
        Some((c as int - 87) as nat)
    } else if 'A' <= c && c <= 'F' {
        Some((c as int - 55) as nat)
    } else {
        None
    }
}

/// Whether every character of `s` is a hexadecimal digit.
pub open spec fn all_hex(s: Seq<char>) -> bool {
    forall|i: int| 0 <= i < s.len() ==> (#[trigger] hex_digit(s[i])) is Some
}

/// The value of a string of hexadecimal digits.
pub open spec fn hex_value(s: Seq<char>) -> nat
    decreases s.len(),
{
    if s.len() == 0 {
        0
    } else {
        hex_value(s.drop_last()) * 16 + match hex_digit(s.last()) {
            Some(d) => d,
            None => 0,
        }
    }
}

/// `u64::from_str_radix(s, 16)`: an optional `+`, then one or more hexadecimal
/// digits of either case, of value at most `u64::MAX`.
pub open spec fn parse_hex_spec(s: Seq<char>) -> Option<u64> {
    let d = if s.len() > 0 && s[0] == '+' { s.drop_first() } else { s };
    if d.len() > 0 && all_hex(d) && hex_value(d) <= u64::MAX {
        Some(hex_value(d) as u64)
    } else {
        None
    }
}

fn hex_digit_of(c: char) -> (r: Option<u64>)
    ensures
        match r {
            Some(v) => hex_digit(c) == Some(v as nat),
            None => hex_digit(c) is None,
        },
{
    if '0' <= c && c <= '9' {
        Some((c as u32 - 48) as u64)
    } else if 'a' <= c && c <= 'f' {
        Some((c as u32 - 87) as u64)
    } else if 'A' <= c && c <= 'F' {
        Some((c as u32 - 55) as u64)
    } else {
        None
    }
}

proof fn lemma_hex_value_prefix(s: Seq<char>, i: int)
    requires
        0 <= i <= s.len(),
    ensures
        hex_value(s.take(i)) <= hex_value(s),
    decreases s.len() - i,
{
    if i < s.len() {
        lemma_hex_value_prefix(s, i + 1);
        let t = s.take(i + 1);
        assert(t.drop_last() =~= s.take(i));
    } else {
        assert(s.take(i) =~= s);
    }
}

/// Parse a hexadecimal `u64` with the rules of `u64::from_str_radix(_, 16)`.
pub fn parse_hex(s: &[char]) -> (r: Option<u64>)
    ensures
        r == parse_hex_spec(s@),
{
    let start: usize = if s.len() > 0 && s[0] == '+' { 1 } else { 0 };
    let ghost d = if s@.len() > 0 && s@[0] == '+' { s@.drop_first() } else { s@ };
    assert(d =~= s@.skip(start as int));
    if start >= s.len() {
        return None;
    }
    let mut acc: u64 = 0;
    let mut k: usize = start;
    assert(d.take(0) =~= Seq::<char>::empty());
    while k < s.len()
        invariant
            start <= k <= s@.len(),
            d =~= s@.skip(start as int),
            d == (if s@.len() > 0 && s@[0] == '+' { s@.drop_first() } else { s@ }),
            d.len() > 0,
            all_hex(d.take(k - start)),
            acc as nat == hex_value(d.take(k - start)),
        decreases s@.len() - k,
    {
        let c = s[k];
        assert(d[k - start] == c);
        let digit = match hex_digit_of(c) {
            Some(v) => v,
            None => {
                assert(!(hex_digit(d[k - start]) is Some));
                assert(!all_hex(d));
                return None;
            },
        };
        let next: u128 = acc as u128 * 16 + digit as u128;
        proof {
            let t = d.take(k - start + 1);
            assert(t.drop_last() =~= d.take(k - start));
            assert(t.last() == c);
            assert(hex_value(t) == hex_value(t.drop_last()) * 16 + digit);
            assert(next == hex_value(t));
            assert forall|j: int| 0 <= j < t.len() implies (#[trigger] hex_digit(t[j])) is Some by {
                if j < k - start {
                    assert(t[j] == d.take(k - start)[j]);
                }
            }
        }
        if next > u64::MAX as u128 {
            proof {
                let t = d.take(k - start + 1);
                lemma_hex_value_prefix(d, k - start + 1);
            }
            return None;
        }
        acc = next as u64;
        k = k + 1;
    }
    assert(d.take(s@.len() - start) =~= d);
    Some(acc)
}

} // verus!
