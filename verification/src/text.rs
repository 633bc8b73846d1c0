//! Character and string helpers shared by the lexer, the parser and the session:
//! ASCII case folding, decimal rendering of integers, and character classes.

use vstd::prelude::*;

verus! {

/// Lower-cases one character if it is an ASCII capital letter; leaves every other
/// character as it is.
pub open spec fn ascii_lower_char(c: char) -> char {
    if 'A' <= c && c <= 'Z' {
        ((c as u32) + 32) as char
    } else {
        c
    }
}

/// ASCII lower-casing of a whole character sequence.
pub open spec fn ascii_lower(s: Seq<char>) -> Seq<char> {
    s.map_values(|c: char| ascii_lower_char(c))
}

/// The ASCII-case-insensitive equality of two character sequences.
pub open spec fn eq_ignore_case(a: Seq<char>, b: Seq<char>) -> bool {
    ascii_lower(a) == ascii_lower(b)
}

/// `String::push` appends the character at the end of the string, as its documentation
/// says; this contract states that and nothing more.
pub assume_specification[ String::push ](s: &mut String, ch: char)
    ensures
        final(s)@ == old(s)@.push(ch),
;

/// The characters of a string, in order.
pub fn chars_of(s: &str) -> (r: Vec<char>)
    ensures
        r@ == s@,
{
    let mut out: Vec<char> = Vec::new();
    for c in it: s.chars()
        invariant
            out@ == it.seq().take(it.index()),
            it.seq() == s@,
    {
        out.push(c);
        assert(it.seq().take(it.index() + 1) =~= it.seq().take(it.index()).push(c));
    }
    out
}

/// Whether `c` has the Unicode `Alphabetic` property, as `char::is_alphabetic` reports it.
pub uninterp spec fn char_alphabetic(c: char) -> bool;

/// Whether `c` is numeric in the sense of `char::is_numeric` (general categories `Nd`, `Nl`,
/// `No`).
pub uninterp spec fn char_numeric(c: char) -> bool;

/// `char::is_alphabetic`. The contract names the result and states it for ASCII, where
/// exactly the letters `A`-`Z` and `a`-`z` have the property; the rest of the Unicode
/// tables is not restated here.
#[verifier::external_body]
pub(crate) fn is_alphabetic(c: char) -> (r: bool)
    ensures
        r == char_alphabetic(c),
        c <= '\x7f' ==> (r <==> ('a' <= c <= 'z' || 'A' <= c <= 'Z')),
{
    c.is_alphabetic()
}

/// `char::is_numeric`. The contract names the result and states it for ASCII, where
/// exactly the digits `0`-`9` are numeric; the rest of the Unicode tables is not
/// restated here.
#[verifier::external_body]
pub(crate) fn is_numeric(c: char) -> (r: bool)
    ensures
        r == char_numeric(c),
        c <= '\x7f' ==> (r <==> '0' <= c <= '9'),
{
    c.is_numeric()
}

/// An ASCII decimal digit.
pub open spec fn is_digit(c: char) -> bool {
    '0' <= c && c <= '9'
}

/// A string whose characters are `cs[lo..hi]`.
pub fn string_of(cs: &Vec<char>, lo: usize, hi: usize) -> (s: String)
    requires
        lo <= hi <= cs.len(),
    ensures
        s@ == cs@.subrange(lo as int, hi as int),
{
    let mut s = String::new();
    let mut k = lo;
    while k < hi
        invariant
            lo <= k <= hi <= cs.len(),
            s@ == cs@.subrange(lo as int, k as int),
        decreases hi - k,
    {
        s.push(cs[k]);
        assert(cs@.subrange(lo as int, k + 1) =~= cs@.subrange(lo as int, k as int).push(cs@[k as int]));
        k += 1;
    }
    s
}

/// `ascii_lower_char`, computed.
pub fn lower_char(c: char) -> (r: char)
    ensures
        r == ascii_lower_char(c),
{
    if 'A' <= c && c <= 'Z' {
        let code = c as u32;
        let b = code as u8;
        assert(b == code) by (bit_vector)
            requires 65 <= code <= 90, b == code as u8;
        (b + 32) as char
    } else {
        c
    }
}

/// The ASCII lower-casing of a string.
pub fn to_lower(s: &str) -> (r: String)
    ensures
        r@ == ascii_lower(s@),
{
    let cs = chars_of(s);
    let mut out = String::new();
    let mut k: usize = 0;
    while k < cs.len()
        invariant
            k <= cs.len(),
            cs@ == s@,
            out@ == ascii_lower(s@.subrange(0, k as int)),
        decreases cs.len() - k,
    {
        out.push(lower_char(cs[k]));
        assert(ascii_lower(s@.subrange(0, k + 1)) =~= ascii_lower(s@.subrange(0, k as int)).push(
            ascii_lower_char(s@[k as int]),
        ));
        k += 1;
    }
    assert(s@.subrange(0, cs.len() as int) =~= s@);
    out
}

/// Whether two strings are equal ignoring ASCII case (`str::eq_ignore_ascii_case`).
pub fn eq_ignore_ascii_case(a: &str, b: &str) -> (r: bool)
    ensures
        r == eq_ignore_case(a@, b@),
{
    let ca = chars_of(a);
    let cb = chars_of(b);
    if ca.len() != cb.len() {
        assert(ascii_lower(a@).len() != ascii_lower(b@).len());
        return false;
    }
    let mut k: usize = 0;
    while k < ca.len()
        invariant
            k <= ca.len() == cb.len(),
            ca@ == a@,
            cb@ == b@,
            forall|j: int| 0 <= j < k ==> ascii_lower_char(a@[j]) == ascii_lower_char(b@[j]),
        decreases ca.len() - k,
    {
        if lower_char(ca[k]) != lower_char(cb[k]) {
            assert(ascii_lower(a@)[k as int] != ascii_lower(b@)[k as int]);
            return false;
        }
        k += 1;
    }
    assert(ascii_lower(a@) =~= ascii_lower(b@));
    true
}

/// An owned copy of a string slice.
pub fn owned(s: &str) -> (r: String)
    ensures
        r@ == s@,
{
    s.to_owned()
}

/// The ASCII digit for `d < 10`.
pub open spec fn digit_char(d: nat) -> char {
    if d == 0 { '0' } else if d == 1 { '1' } else if d == 2 { '2' } else if d == 3 { '3' }
    else if d == 4 { '4' } else if d == 5 { '5' } else if d == 6 { '6' } else if d == 7 { '7' }
    else if d == 8 { '8' } else { '9' }
}

/// The decimal digits of `n`, most significant first, without leading zeros (`"0"` for 0).
pub open spec fn decimal(n: nat) -> Seq<char>
    decreases n,
{
    if n < 10 {
        seq![digit_char(n)]
    } else {
        decimal(n / 10).push(digit_char(n % 10))
    }
}

fn digit(d: u32) -> (c: char)
    requires
        d < 10,
    ensures
        c == digit_char(d as nat),
{
    match d {
        0 => '0',
        1 => '1',
        2 => '2',
        3 => '3',
        4 => '4',
        5 => '5',
        6 => '6',
        7 => '7',
        8 => '8',
        _ => '9',
    }
}

/// Appends the decimal digits of `n` to `s`.
pub fn push_decimal(s: &mut String, n: u32)
    ensures
        final(s)@ == old(s)@ + decimal(n as nat),
{
    push_decimal_u64(s, n as u64);
}

/// Appends the decimal digits of `n` to `s`.
pub fn push_decimal_u64(s: &mut String, n: u64)
    ensures
        final(s)@ == old(s)@ + decimal(n as nat),
    decreases n,
{
    if n >= 10 {
        push_decimal_u64(s, n / 10);
    }
    s.push(digit((n % 10) as u32));
    proof {
        if n >= 10 {
            assert(old(s)@ + decimal(n as nat) =~= old(s)@ + decimal((n / 10) as nat) + seq![digit_char((n % 10) as nat)]);
        } else {
            assert(old(s)@ + decimal(n as nat) =~= old(s)@.push(digit_char(n as nat)));
        }
    }
}

/// The decimal digits of `n`, after a minus sign when it is negative.
pub open spec fn signed_decimal(n: int) -> Seq<char> {
    if n < 0 {
        "-"@ + decimal((-n) as nat)
    } else {
        decimal(n as nat)
    }
}

/// Appends `n` in decimal (with a minus sign when negative) to `s`.
pub fn push_signed_decimal(s: &mut String, n: i64)
    ensures
        final(s)@ == old(s)@ + signed_decimal(n as int),
{
    if n < 0 {
        s.push('-');
        let m: u64 = if n == i64::MIN { 9_223_372_036_854_775_808u64 } else { (-n) as u64 };
        push_decimal_u64(s, m);
        proof {
            reveal_strlit("-");
            assert(old(s)@ + signed_decimal(n as int) =~= old(s)@.push('-') + decimal(m as nat));
        }
    } else {
        push_decimal_u64(s, n as u64);
    }
}

/// Whether two strings hold the same characters.
pub fn str_eq(a: &str, b: &str) -> (r: bool)
    ensures
        r == (a@ == b@),
{
    let x = owned(a);
    let y = owned(b);
    x.eq(&y)
}

} // verus!
