//! Character-level helpers for line-oriented text: whitespace, trimming,
//! searching, decimal numbers.

use vstd::prelude::*;

verus! {

/// The characters with the Unicode `White_Space` property, which is what
/// `char::is_whitespace`, and hence `str::trim`, strips.
pub open spec fn is_white(c: char) -> bool {
    ('\u{9}' <= c && c <= '\u{d}') || c == ' ' || c == '\u{85}' || c == '\u{a0}'
        || c == '\u{1680}' || ('\u{2000}' <= c && c <= '\u{200a}') || c == '\u{2028}'
        || c == '\u{2029}' || c == '\u{202f}' || c == '\u{205f}' || c == '\u{3000}'
}

/// The characters stripped at each end: whitespace, or the cross-reference
/// delimiter `@` when `at_sign` holds.
pub open spec fn is_pad(c: char, at_sign: bool) -> bool {
    if at_sign {
        c == '@'
    } else {
        is_white(c)
    }
}

/// `s` without its leading pad characters.
pub open spec fn strip_front(s: Seq<char>, at_sign: bool) -> Seq<char>
    decreases s.len(),
{
    if s.len() > 0 && is_pad(s[0], at_sign) {
        strip_front(s.drop_first(), at_sign)
    } else {
        s
    }
}

/// `s` without its trailing pad characters.
pub open spec fn strip_back(s: Seq<char>, at_sign: bool) -> Seq<char>
    decreases s.len(),
{
    if s.len() > 0 && is_pad(s.last(), at_sign) {
        strip_back(s.drop_last(), at_sign)
    } else {
        s
    }
}

/// `s` without leading and trailing whitespace (`str::trim`).
pub open spec fn trim(s: Seq<char>) -> Seq<char> {
    strip_back(strip_front(s, false), false)
}

/// `s` without leading and trailing `@` (`str::trim_matches('@')`).
pub open spec fn trim_at_signs(s: Seq<char>) -> Seq<char> {
    strip_back(strip_front(s, true), true)
}

/// The index of the first `c` in `s` at or after `i`, or `s.len()` if none.
pub open spec fn find_from(s: Seq<char>, c: char, i: int) -> int
    decreases s.len() - i,
{
    if i < 0 || i >= s.len() {
        s.len() as int
    } else if s[i] == c {
        i
    } else {
        find_from(s, c, i + 1)
    }
}

pub proof fn lemma_find_from_bounds(s: Seq<char>, c: char, i: int)
    requires
        0 <= i <= s.len(),
    ensures
        i <= find_from(s, c, i) <= s.len(),
        find_from(s, c, i) < s.len() ==> s[find_from(s, c, i)] == c,
    decreases s.len() - i,
{
    if i < s.len() && s[i] != c {
        lemma_find_from_bounds(s, c, i + 1);
    }
}

pub open spec fn is_digit(c: char) -> bool {
    '0' <= c && c <= '9'
}

/// The value of a string of decimal digits.
pub open spec fn decimal_value(d: Seq<char>) -> nat
    decreases d.len(),
{
    if d.len() == 0 {
        0
    } else {
        decimal_value(d.drop_last()) * 10 + ((d.last() as nat) - ('0' as nat)) as nat
    }
}

/// The digits of an unsigned number's text: all but an optional leading `+`.
pub open spec fn unsigned_digits(s: Seq<char>) -> Seq<char> {
    if s.len() > 0 && s[0] == '+' {
        s.drop_first()
    } else {
        s
    }
}

/// Text that `u32::from_str` accepts: an optional `+` followed by one or more
/// decimal digits, of a value that fits in 32 bits.
pub open spec fn is_u32_text(s: Seq<char>) -> bool {
    let d = unsigned_digits(s);
    &&& d.len() > 0
    &&& forall|i: int| 0 <= i < d.len() ==> is_digit(#[trigger] d[i])
    &&& decimal_value(d) <= u32::MAX
}

#[verifier::external_type_specification]
#[verifier::external_body]
pub struct ExParseIntError(std::num::ParseIntError);

/// Relies on `u32::from_str`: it accepts exactly an optional `+` and decimal
/// digits whose value fits in a `u32`, and returns that value.
#[verifier::external_body]
pub(crate) fn parse_u32(s: &str) -> (r: Result<u32, std::num::ParseIntError>)
    ensures
        r is Ok <==> is_u32_text(s@),
        r is Ok ==> r->Ok_0 as nat == decimal_value(unsigned_digits(s@)),
{
    s.parse::<u32>()
}

/// Relies on `String::from_iter`: the string holds the given characters in order.
#[verifier::external_body]
pub(crate) fn string_of(cs: &Vec<char>, lo: usize, hi: usize) -> (r: String)
    requires
        lo <= hi <= cs@.len(),
    ensures
        r@ == cs@.subrange(lo as int, hi as int),
{
    String::from_iter(cs[lo..hi].iter())
}

/// The characters of `s`, in order.
pub(crate) fn chars_of(s: &str) -> (r: Vec<char>)
    ensures
        r@ == s@,
{
    let mut r: Vec<char> = Vec::new();
    for c in it: s.chars()
        invariant
            r@ == it.seq().subrange(0, it.index() as int),
    {
        r.push(c);
    }
    r
}

pub(crate) fn white(c: char) -> (r: bool)
    ensures
        r == is_white(c),
{
    ('\u{9}' <= c && c <= '\u{d}') || c == ' ' || c == '\u{85}' || c == '\u{a0}'
        || c == '\u{1680}' || ('\u{2000}' <= c && c <= '\u{200a}') || c == '\u{2028}'
        || c == '\u{2029}' || c == '\u{202f}' || c == '\u{205f}' || c == '\u{3000}'
}

pub(crate) fn pad(c: char, at_sign: bool) -> (r: bool)
    ensures
        r == is_pad(c, at_sign),
{
    if at_sign {
        c == '@'
    } else {
        white(c)
    }
}

/// The bounds of `cs[lo..hi]` with its pad characters stripped at both ends.
pub(crate) fn strip_bounds(cs: &Vec<char>, lo: usize, hi: usize, at_sign: bool) -> (r: (usize, usize))
    requires
        lo <= hi <= cs@.len(),
    ensures
        lo <= r.0 <= r.1 <= hi,
        cs@.subrange(r.0 as int, r.1 as int) == strip_back(
            strip_front(cs@.subrange(lo as int, hi as int), at_sign),
            at_sign,
        ),
{
    let mut i = lo;
    while i < hi && pad(cs[i], at_sign)
        invariant
            lo <= i <= hi <= cs@.len(),
            strip_front(cs@.subrange(lo as int, hi as int), at_sign) == strip_front(
                cs@.subrange(i as int, hi as int),
                at_sign,
            ),
        decreases hi - i,
    {
        assert(cs@.subrange(i as int, hi as int).drop_first() =~= cs@.subrange(
            i + 1,
            hi as int,
        ));
        i = i + 1;
    }
    let mut j = hi;
    while j > i && pad(cs[j - 1], at_sign)
        invariant
            lo <= i <= j <= hi <= cs@.len(),
            strip_back(cs@.subrange(i as int, hi as int), at_sign) == strip_back(
                cs@.subrange(i as int, j as int),
                at_sign,
            ),
        decreases j - i,
    {
        assert(cs@.subrange(i as int, j as int).drop_last() =~= cs@.subrange(
            i as int,
            j - 1,
        ));
        j = j - 1;
    }
    (i, j)
}

/// The index of the first `c` in `cs[lo..hi]` relative to `lo`, or `hi - lo`.
pub(crate) fn find_in(cs: &Vec<char>, lo: usize, hi: usize, c: char, from: usize) -> (r: usize)
    requires
        lo <= hi <= cs@.len(),
        from <= hi - lo,
    ensures
        r as int == find_from(cs@.subrange(lo as int, hi as int), c, from as int),
        from <= r <= hi - lo,
{
    let ghost t = cs@.subrange(lo as int, hi as int);
    let mut k = from;
    while k < hi - lo && cs[lo + k] != c
        invariant
            lo <= hi <= cs@.len(),
            from <= k <= hi - lo,
            t == cs@.subrange(lo as int, hi as int),
            find_from(t, c, from as int) == find_from(t, c, k as int),
        decreases hi - lo - k,
    {
        k = k + 1;
    }
    k
}

/// Whether `cs[lo..hi]` spells `w`.
pub(crate) fn word_is(cs: &Vec<char>, lo: usize, hi: usize, w: &str) -> (r: bool)
    requires
        lo <= hi <= cs@.len(),
    ensures
        r == (cs@.subrange(lo as int, hi as int) == w@),
{
    let n = w.unicode_len();
    if hi - lo != n {
        return false;
    }
    let mut i: usize = 0;
    while i < n
        invariant
            lo <= hi <= cs@.len(),
            hi - lo == n == w@.len(),
            i <= n,
            forall|j: int| 0 <= j < i ==> cs@[lo + j] == w@[j],
        decreases n - i,
    {
        if cs[lo + i] != w.get_char(i) {
            assert(cs@.subrange(lo as int, hi as int)[i as int] != w@[i as int]);
            return false;
        }
        i = i + 1;
    }
    assert(cs@.subrange(lo as int, hi as int) =~= w@);
    true
}

} // verus!
