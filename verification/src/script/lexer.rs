//! A small line-oriented tokenizer for the HyperTalk subset. HyperTalk statements are
//! separated by newlines, so newlines are significant tokens. `--` begins a comment to
//! end of line.
//!
//! The tokenizer is specified by `lex_from`, a recursive definition over the input
//! position; `lex` is proved to compute exactly `lex_spec` of its input.

use vstd::prelude::*;

use crate::text::{
    char_alphabetic, char_numeric, chars_of, is_alphabetic, is_digit, is_numeric, owned, string_of,
};

verus! {

/// One token. A number literal is kept as its source text (digits with at most one
/// `.`), which is exactly the text that `f64::from_str` accepts among such strings.
#[derive(Debug)]
pub enum Tok {
    Word(String),
    Number(String),
    Str(String),
    Newline,
    Amp,
    AmpAmp,
    Plus,
    Minus,
    Star,
    Slash,
    Eq,
    Ne,
    Lt,
    Gt,
    Le,
    Ge,
    LParen,
    RParen,
    Comma,
    Eof,
}

/// The mathematical value of a token: strings are character sequences.
pub enum SpecTok {
    Word(Seq<char>),
    Number(Seq<char>),
    Str(Seq<char>),
    Newline,
    Amp,
    AmpAmp,
    Plus,
    Minus,
    Star,
    Slash,
    Eq,
    Ne,
    Lt,
    Gt,
    Le,
    Ge,
    LParen,
    RParen,
    Comma,
    Eof,
}

impl View for Tok {
    type V = SpecTok;

    open spec fn view(&self) -> SpecTok {
        match self {
            Tok::Word(w) => SpecTok::Word(w@),
            Tok::Number(n) => SpecTok::Number(n@),
            Tok::Str(s) => SpecTok::Str(s@),
            Tok::Newline => SpecTok::Newline,
            Tok::Amp => SpecTok::Amp,
            Tok::AmpAmp => SpecTok::AmpAmp,
            Tok::Plus => SpecTok::Plus,
            Tok::Minus => SpecTok::Minus,
            Tok::Star => SpecTok::Star,
            Tok::Slash => SpecTok::Slash,
            Tok::Eq => SpecTok::Eq,
            Tok::Ne => SpecTok::Ne,
            Tok::Lt => SpecTok::Lt,
            Tok::Gt => SpecTok::Gt,
            Tok::Le => SpecTok::Le,
            Tok::Ge => SpecTok::Ge,
            Tok::LParen => SpecTok::LParen,
            Tok::RParen => SpecTok::RParen,
            Tok::Comma => SpecTok::Comma,
            Tok::Eof => SpecTok::Eof,
        }
    }
}

/// The views of a token sequence.
pub open spec fn toks_view(ts: Seq<Tok>) -> Seq<SpecTok> {
    ts.map_values(|t: Tok| t@)
}

/// Why the tokenizer rejected its input.
pub enum LexError {
    UnterminatedString,
    BadNumber(Seq<char>),
    UnexpectedChar(char),
}

impl LexError {
    /// The message the tokenizer reports for this error.
    pub open spec fn message(self) -> Seq<char> {
        match self {
            LexError::UnterminatedString => "unterminated string literal"@,
            LexError::BadNumber(s) => "invalid number literal: "@ + s,
            LexError::UnexpectedChar(c) => "unexpected character '"@ + seq![c] + "'"@,
        }
    }
}

/// A character that may start a word.
pub open spec fn word_start_char(c: char) -> bool {
    char_alphabetic(c) || c == '_'
}

/// A character that may continue a word (`char::is_alphanumeric` is documented as
/// `is_alphabetic() || is_numeric()`).
pub open spec fn word_part_char(c: char) -> bool {
    char_alphabetic(c) || char_numeric(c) || c == '_'
}

/// Whether `c` may start a word.
pub fn is_word_start(c: char) -> (r: bool)
    ensures
        r == word_start_char(c),
{
    is_alphabetic(c) || c == '_'
}

/// Whether `c` may continue a word.
pub fn is_word_part(c: char) -> (r: bool)
    ensures
        r == word_part_char(c),
{
    is_alphabetic(c) || is_numeric(c) || c == '_'
}

/// A character of a number literal.
pub open spec fn is_number_char(c: char) -> bool {
    is_digit(c) || c == '.'
}

/// The character classes the tokenizer scans over.
pub enum Class {
    /// Anything but a newline (the rest of a comment).
    NotNewline,
    /// Anything but a double quote (the body of a string literal).
    NotQuote,
    /// Digits and dots (a number literal).
    NumberChar,
    /// Word characters.
    WordPart,
}

/// Whether `c` belongs to class `k`.
pub open spec fn in_class(k: Class, c: char) -> bool {
    match k {
        Class::NotNewline => c != '\n',
        Class::NotQuote => c != '"',
        Class::NumberChar => is_number_char(c),
        Class::WordPart => word_part_char(c),
    }
}

/// The first position at or after `i` whose character is not in class `k`, or the end
/// of `cs`.
pub open spec fn span(cs: Seq<char>, i: int, k: Class) -> int
    decreases cs.len() - i,
{
    if 0 <= i < cs.len() && in_class(k, cs[i]) {
        span(cs, i + 1, k)
    } else {
        i
    }
}

/// A number literal made of digits and dots is accepted when it has at most one dot.
pub open spec fn two_dots(s: Seq<char>) -> bool {
    exists|a: int, b: int| 0 <= a < b < s.len() && s[a] == '.' && s[b] == '.'
}

/// Puts `t` in front of the tokens of a successful result.
pub open spec fn prepend(t: SpecTok, r: Result<Seq<SpecTok>, LexError>) -> Result<Seq<SpecTok>, LexError> {
    match r {
        Ok(ts) => Ok(seq![t] + ts),
        Err(e) => Err(e),
    }
}

/// Puts `o` in front of the tokens of a successful result.
pub open spec fn prepend_all(o: Seq<SpecTok>, r: Result<Seq<SpecTok>, LexError>) -> Result<Seq<SpecTok>, LexError> {
    match r {
        Ok(ts) => Ok(o + ts),
        Err(e) => Err(e),
    }
}

/// The token a one-character operator or bracket stands for.
pub open spec fn single_char_tok(c: char) -> Option<SpecTok> {
    if c == '+' {
        Some(SpecTok::Plus)
    } else if c == '-' {
        Some(SpecTok::Minus)
    } else if c == '*' {
        Some(SpecTok::Star)
    } else if c == '/' {
        Some(SpecTok::Slash)
    } else if c == '=' {
        Some(SpecTok::Eq)
    } else if c == '≠' {
        Some(SpecTok::Ne)
    } else if c == '≤' {
        Some(SpecTok::Le)
    } else if c == '≥' {
        Some(SpecTok::Ge)
    } else if c == '(' {
        Some(SpecTok::LParen)
    } else if c == ')' {
        Some(SpecTok::RParen)
    } else if c == ',' {
        Some(SpecTok::Comma)
    } else {
        None
    }
}

pub proof fn lemma_span_bounds(cs: Seq<char>, i: int, k: Class)
    requires
        0 <= i <= cs.len(),
    ensures
        i <= span(cs, i, k) <= cs.len(),
        i < cs.len() && in_class(k, cs[i]) ==> i < span(cs, i, k),
        forall|m: int| i <= m < span(cs, i, k) ==> in_class(k, #[trigger] cs[m]),
        span(cs, i, k) < cs.len() ==> !in_class(k, cs[span(cs, i, k)]),
    decreases cs.len() - i,
{
    if i < cs.len() && in_class(k, cs[i]) {
        lemma_span_bounds(cs, i + 1, k);
    }
}

/// The tokens of `cs` from position `i` on. `fresh` holds when no token has been emitted
/// yet or the last one is a newline: a newline there is not emitted, so runs of blank
/// lines collapse into one `Newline` and the output never starts with one.
pub open spec fn lex_from(cs: Seq<char>, i: int, fresh: bool) -> Result<Seq<SpecTok>, LexError>
    decreases cs.len() - i,
{
    if i < 0 || i >= cs.len() {
        Ok(seq![SpecTok::Eof])
    } else {
        let c = cs[i];
        let has_next = i + 1 < cs.len();
        if c == ' ' || c == '\t' || c == '\r' {
            lex_from(cs, i + 1, fresh)
        } else if c == '\n' {
            if fresh {
                lex_from(cs, i + 1, true)
            } else {
                prepend(SpecTok::Newline, lex_from(cs, i + 1, true))
            }
        } else if c == '-' && has_next && cs[i + 1] == '-' {
            let j = span(cs, i, Class::NotNewline);
            proof {
                lemma_span_bounds(cs, i, Class::NotNewline);
            }
            lex_from(cs, j, fresh)
        } else if c == '"' {
            let j = span(cs, i + 1, Class::NotQuote);
            proof {
                lemma_span_bounds(cs, i + 1, Class::NotQuote);
            }
            if j >= cs.len() {
                Err(LexError::UnterminatedString)
            } else {
                prepend(SpecTok::Str(cs.subrange(i + 1, j)), lex_from(cs, j + 1, false))
            }
        } else if c == '&' {
            if has_next && cs[i + 1] == '&' {
                prepend(SpecTok::AmpAmp, lex_from(cs, i + 2, false))
            } else {
                prepend(SpecTok::Amp, lex_from(cs, i + 1, false))
            }
        } else if c == '<' {
            if has_next && cs[i + 1] == '=' {
                prepend(SpecTok::Le, lex_from(cs, i + 2, false))
            } else if has_next && cs[i + 1] == '>' {
                prepend(SpecTok::Ne, lex_from(cs, i + 2, false))
            } else {
                prepend(SpecTok::Lt, lex_from(cs, i + 1, false))
            }
        } else if c == '>' {
            if has_next && cs[i + 1] == '=' {
                prepend(SpecTok::Ge, lex_from(cs, i + 2, false))
            } else {
                prepend(SpecTok::Gt, lex_from(cs, i + 1, false))
            }
        } else if single_char_tok(c) is Some {
            prepend(single_char_tok(c)->0, lex_from(cs, i + 1, false))
        } else if is_digit(c) || (c == '.' && has_next && is_digit(cs[i + 1])) {
            let j = span(cs, i, Class::NumberChar);
            proof {
                lemma_span_bounds(cs, i, Class::NumberChar);
            }
            let s = cs.subrange(i, j);
            if two_dots(s) {
                Err(LexError::BadNumber(s))
            } else {
                prepend(SpecTok::Number(s), lex_from(cs, j, false))
            }
        } else if word_start_char(c) {
            let j = span(cs, i, Class::WordPart);
            proof {
                lemma_span_bounds(cs, i, Class::WordPart);
            }
            prepend(SpecTok::Word(cs.subrange(i, j)), lex_from(cs, j, false))
        } else {
            Err(LexError::UnexpectedChar(c))
        }
    }
}

/// How the tokenizer reads operators and spacing at position `i`: `<=`, `<>`, `>=` and
/// `&&` are one token each (as are `≤`, `≠`, `≥`); a lone `<`, `>`, `&`, `-` and the other
/// one-character operators and brackets are tokens of their own; spaces, tabs and
/// carriage returns are skipped; `--` starts a comment that runs to the end of the line.
/// After each, the tokenizer goes on right behind it.
pub proof fn lemma_operator_tokens(cs: Seq<char>, i: int, fresh: bool)
    requires
        0 <= i < cs.len(),
    ensures
        ({
            let c = cs[i];
            let next: Option<char> = if i + 1 < cs.len() { Some(cs[i + 1]) } else { None };
            &&& c == '<' && next == Some('=') ==> lex_from(cs, i, fresh) == prepend(SpecTok::Le, lex_from(cs, i + 2, false))
            &&& c == '<' && next == Some('>') ==> lex_from(cs, i, fresh) == prepend(SpecTok::Ne, lex_from(cs, i + 2, false))
            &&& c == '<' && next != Some('=') && next != Some('>') ==> lex_from(cs, i, fresh) == prepend(
                SpecTok::Lt,
                lex_from(cs, i + 1, false),
            )
            &&& c == '>' && next == Some('=') ==> lex_from(cs, i, fresh) == prepend(SpecTok::Ge, lex_from(cs, i + 2, false))
            &&& c == '>' && next != Some('=') ==> lex_from(cs, i, fresh) == prepend(SpecTok::Gt, lex_from(cs, i + 1, false))
            &&& c == '&' && next == Some('&') ==> lex_from(cs, i, fresh) == prepend(
                SpecTok::AmpAmp,
                lex_from(cs, i + 2, false),
            )
            &&& c == '&' && next != Some('&') ==> lex_from(cs, i, fresh) == prepend(SpecTok::Amp, lex_from(cs, i + 1, false))
            &&& c == '-' && next != Some('-') ==> lex_from(cs, i, fresh) == prepend(
                SpecTok::Minus,
                lex_from(cs, i + 1, false),
            )
            &&& c == '-' && next == Some('-') ==> lex_from(cs, i, fresh) == lex_from(
                cs,
                span(cs, i, Class::NotNewline),
                fresh,
            )
            &&& (c == ' ' || c == '\t' || c == '\r') ==> lex_from(cs, i, fresh) == lex_from(cs, i + 1, fresh)
            &&& c == '+' ==> lex_from(cs, i, fresh) == prepend(SpecTok::Plus, lex_from(cs, i + 1, false))
            &&& c == '*' ==> lex_from(cs, i, fresh) == prepend(SpecTok::Star, lex_from(cs, i + 1, false))
            &&& c == '/' ==> lex_from(cs, i, fresh) == prepend(SpecTok::Slash, lex_from(cs, i + 1, false))
            &&& c == '=' ==> lex_from(cs, i, fresh) == prepend(SpecTok::Eq, lex_from(cs, i + 1, false))
            &&& c == '≠' ==> lex_from(cs, i, fresh) == prepend(SpecTok::Ne, lex_from(cs, i + 1, false))
            &&& c == '≤' ==> lex_from(cs, i, fresh) == prepend(SpecTok::Le, lex_from(cs, i + 1, false))
            &&& c == '≥' ==> lex_from(cs, i, fresh) == prepend(SpecTok::Ge, lex_from(cs, i + 1, false))
            &&& c == '(' ==> lex_from(cs, i, fresh) == prepend(SpecTok::LParen, lex_from(cs, i + 1, false))
            &&& c == ')' ==> lex_from(cs, i, fresh) == prepend(SpecTok::RParen, lex_from(cs, i + 1, false))
            &&& c == ',' ==> lex_from(cs, i, fresh) == prepend(SpecTok::Comma, lex_from(cs, i + 1, false))
        }),
{
}

/// The tokens of a whole source text.
pub open spec fn lex_spec(cs: Seq<char>) -> Result<Seq<SpecTok>, LexError> {
    lex_from(cs, 0, true)
}

/// The shape of one token: words are nonempty word characters, string bodies hold no
/// double quote, and number literals are nonempty digits and dots with at most one dot.
pub open spec fn tok_shape_ok(t: SpecTok) -> bool {
    match t {
        SpecTok::Word(w) => w.len() > 0 && forall|k: int| 0 <= k < w.len() ==> word_part_char(#[trigger] w[k]),
        SpecTok::Str(b) => forall|k: int| 0 <= k < b.len() ==> #[trigger] b[k] != '"',
        SpecTok::Number(n) => n.len() > 0 && !two_dots(n) && forall|k: int|
            0 <= k < n.len() ==> is_number_char(#[trigger] n[k]),
        _ => true,
    }
}

/// The shape of a token stream: it ends with the one `Eof`, holds no two newlines in a
/// row, and (when `fresh`) does not start with a newline.
pub open spec fn tokens_well_formed(ts: Seq<SpecTok>, fresh: bool) -> bool {
    &&& ts.len() >= 1
    &&& ts.last() == SpecTok::Eof
    &&& forall|k: int| 0 <= k < ts.len() - 1 ==> #[trigger] ts[k] != SpecTok::Eof
    &&& fresh ==> ts[0] != SpecTok::Newline
    &&& forall|k: int| 0 <= k < ts.len() - 1 ==> !(#[trigger] ts[k] == SpecTok::Newline && ts[k + 1] == SpecTok::Newline)
    &&& forall|k: int| 0 <= k < ts.len() ==> tok_shape_ok(#[trigger] ts[k])
}

proof fn lemma_prepend_well_formed(t: SpecTok, r: Result<Seq<SpecTok>, LexError>, fresh: bool, rest_fresh: bool)
    requires
        r matches Ok(ts) ==> tokens_well_formed(ts, rest_fresh),
        t != SpecTok::Eof,
        tok_shape_ok(t),
        t == SpecTok::Newline ==> rest_fresh && !fresh,
    ensures
        prepend(t, r) matches Ok(ts) ==> tokens_well_formed(ts, fresh),
{
    if let Ok(ts) = r {
        let all = seq![t] + ts;
        assert forall|k: int| 0 <= k < all.len() - 1 implies #[trigger] all[k] != SpecTok::Eof by {
            if k > 0 { assert(all[k] == ts[k - 1]); }
        }
        assert forall|k: int| 0 <= k < all.len() - 1 implies !(#[trigger] all[k] == SpecTok::Newline && all[k + 1] == SpecTok::Newline) by {
            if k > 0 { assert(all[k] == ts[k - 1] && all[k + 1] == ts[k]); } else { assert(all[1] == ts[0]); }
        }
        assert forall|k: int| 0 <= k < all.len() implies tok_shape_ok(#[trigger] all[k]) by {
            if k > 0 { assert(all[k] == ts[k - 1]); }
        }
        assert(all.last() == ts.last());
    }
}

/// Whatever the tokenizer accepts from position `i` on is a well-formed token stream.
pub proof fn lemma_lex_from_well_formed(cs: Seq<char>, i: int, fresh: bool)
    requires
        0 <= i <= cs.len(),
    ensures
        lex_from(cs, i, fresh) matches Ok(ts) ==> tokens_well_formed(ts, fresh),
    decreases cs.len() - i,
{
    if i >= cs.len() {
        return;
    }
    let c = cs[i];
    let has_next = i + 1 < cs.len();
    if c == ' ' || c == '\t' || c == '\r' {
        lemma_lex_from_well_formed(cs, i + 1, fresh);
    } else if c == '\n' {
        lemma_lex_from_well_formed(cs, i + 1, true);
        if !fresh {
            lemma_prepend_well_formed(SpecTok::Newline, lex_from(cs, i + 1, true), fresh, true);
        }
    } else if c == '-' && has_next && cs[i + 1] == '-' {
        lemma_span_bounds(cs, i, Class::NotNewline);
        lemma_lex_from_well_formed(cs, span(cs, i, Class::NotNewline), fresh);
    } else if c == '"' {
        lemma_span_bounds(cs, i + 1, Class::NotQuote);
        let j = span(cs, i + 1, Class::NotQuote);
        if j < cs.len() {
            lemma_lex_from_well_formed(cs, j + 1, false);
            let b = cs.subrange(i + 1, j);
            assert forall|k: int| 0 <= k < b.len() implies #[trigger] b[k] != '"' by {
                assert(in_class(Class::NotQuote, cs[i + 1 + k]));
            }
            lemma_prepend_well_formed(SpecTok::Str(b), lex_from(cs, j + 1, false), fresh, false);
        }
    } else if c == '&' || c == '<' || c == '>' {
        if has_next {
            lemma_lex_from_well_formed(cs, i + 2, false);
        }
        lemma_lex_from_well_formed(cs, i + 1, false);
    } else if single_char_tok(c) is Some {
        lemma_lex_from_well_formed(cs, i + 1, false);
    } else if is_digit(c) || (c == '.' && has_next && is_digit(cs[i + 1])) {
        lemma_span_bounds(cs, i, Class::NumberChar);
        let j = span(cs, i, Class::NumberChar);
        lemma_lex_from_well_formed(cs, j, false);
        let n = cs.subrange(i, j);
        assert forall|k: int| 0 <= k < n.len() implies is_number_char(#[trigger] n[k]) by {
            assert(in_class(Class::NumberChar, cs[i + k]));
        }
    } else if word_start_char(c) {
        lemma_span_bounds(cs, i, Class::WordPart);
        let j = span(cs, i, Class::WordPart);
        lemma_lex_from_well_formed(cs, j, false);
        let w = cs.subrange(i, j);
        assert forall|k: int| 0 <= k < w.len() implies word_part_char(#[trigger] w[k]) by {
            assert(in_class(Class::WordPart, cs[i + k]));
        }
    }
}

/// Every token stream the tokenizer produces ends with its only `Eof`, never starts
/// with a newline nor holds two newlines in a row (blank lines collapse), and holds only
/// well-shaped words, strings and number literals.
pub proof fn lemma_lex_well_formed(cs: Seq<char>)
    ensures
        lex_spec(cs) matches Ok(ts) ==> tokens_well_formed(ts, true),
{
    lemma_lex_from_well_formed(cs, 0, true);
}

/// Whether a token sequence holds no newline at its end.
pub open spec fn fresh_after(o: Seq<SpecTok>) -> bool {
    o.len() == 0 || o.last() == SpecTok::Newline
}

proof fn lemma_prepend_all_push(o: Seq<SpecTok>, t: SpecTok, r: Result<Seq<SpecTok>, LexError>)
    ensures
        prepend_all(o, prepend(t, r)) == prepend_all(o.push(t), r),
{
    match r {
        Ok(ts) => {
            assert(o + (seq![t] + ts) =~= o.push(t) + ts);
        },
        Err(e) => {},
    }
}

/// The first position at or after `i` whose character is not in class `k`.
fn scan(cs: &Vec<char>, i: usize, k: Class) -> (j: usize)
    requires
        i <= cs.len(),
    ensures
        j == span(cs@, i as int, k),
{
    let mut j = i;
    loop
        invariant
            i <= j <= cs.len(),
            span(cs@, i as int, k) == span(cs@, j as int, k),
        ensures
            span(cs@, i as int, k) == j,
        decreases cs.len() - j,
    {
        if j >= cs.len() {
            break;
        }
        let c = cs[j];
        let inside = match k {
            Class::NotNewline => c != '\n',
            Class::NotQuote => c != '"',
            Class::NumberChar => ('0' <= c && c <= '9') || c == '.',
            Class::WordPart => is_word_part(c),
        };
        if !inside {
            break;
        }
        j += 1;
    }
    j
}

/// Whether a number literal's text holds two dots.
fn has_two_dots(cs: &Vec<char>, lo: usize, hi: usize) -> (r: bool)
    requires
        lo <= hi <= cs.len(),
    ensures
        r == two_dots(cs@.subrange(lo as int, hi as int)),
{
    let ghost s = cs@.subrange(lo as int, hi as int);
    let mut seen: bool = false;
    let mut k = lo;
    while k < hi
        invariant
            lo <= k <= hi <= cs.len(),
            s == cs@.subrange(lo as int, hi as int),
            seen == exists|a: int| 0 <= a < k - lo && s[a] == '.',
            !two_dots(s.subrange(0, k - lo)),
        decreases hi - k,
    {
        let is_dot = cs[k] == '.';
        if is_dot {
            if seen {
                let ghost a = choose|a: int| 0 <= a < k - lo && s[a] == '.';
                assert(s[k - lo] == '.');
                assert(two_dots(s)) by {
                    assert(0 <= a < k - lo < s.len() && s[a] == '.' && s[k - lo] == '.');
                }
                return true;
            }
            seen = true;
        }
        proof {
            if is_dot {
                assert(0 <= k - lo < k + 1 - lo && s[k - lo] == '.');
            }
            assert(seen == exists|a: int| 0 <= a < k + 1 - lo && s[a] == '.') by {
                if !is_dot {
                    assert forall|a: int| 0 <= a < k + 1 - lo && s[a] == '.' implies 0 <= a < k - lo by {}
                }
            }
            let t = s.subrange(0, k + 1 - lo);
            if two_dots(t) {
                let (a, b) = choose|a: int, b: int| 0 <= a < b < t.len() && t[a] == '.' && t[b] == '.';
                if b < k - lo {
                    assert(s.subrange(0, k - lo)[a] == '.' && s.subrange(0, k - lo)[b] == '.');
                } else {
                    assert(s[a] == '.');
                }
            }
        }
        k += 1;
    }
    assert(s.subrange(0, hi - lo) =~= s);
    false
}

/// Tokenizes HyperTalk source. Ends with `Eof` on success; on failure returns the
/// message of the first error met.
pub fn lex(src: &str) -> (r: Result<Vec<Tok>, String>)
    ensures
        match r {
            Ok(ts) => lex_spec(src@) == Ok::<Seq<SpecTok>, LexError>(toks_view(ts@)),
            Err(m) => lex_spec(src@) is Err && m@ == lex_spec(src@)->Err_0.message(),
        },
{
    let chars = chars_of(src);
    let n = chars.len();
    let mut i: usize = 0;
    let mut out: Vec<Tok> = Vec::new();
    let mut fresh = true;
    let ghost cs = chars@;
    assert(toks_view(out@) =~= Seq::<SpecTok>::empty());
    assert(prepend_all(Seq::<SpecTok>::empty(), lex_from(cs, 0, true)) == lex_from(cs, 0, true)) by {
        match lex_from(cs, 0, true) {
            Ok(ts) => { assert(Seq::<SpecTok>::empty() + ts =~= ts); },
            Err(e) => {},
        }
    }
    while i < n
        invariant
            i <= n,
            n == chars@.len(),
            cs == chars@,
            cs == src@,
            fresh == fresh_after(toks_view(out@)),
            lex_spec(cs) == prepend_all(toks_view(out@), lex_from(cs, i as int, fresh)),
        decreases n - i,
    {
        let ghost o = toks_view(out@);
        let c = chars[i];
        let has_next = i + 1 < n;
        if c == ' ' || c == '\t' || c == '\r' {
            i += 1;
        } else if c == '\n' {
            if !fresh {
                proof { lemma_prepend_all_push(o, SpecTok::Newline, lex_from(cs, i + 1, true)); }
                out.push(Tok::Newline);
                assert(toks_view(out@) =~= o.push(SpecTok::Newline));
            }
            fresh = true;
            i += 1;
        } else if c == '-' && has_next && chars[i + 1] == '-' {
            proof { lemma_span_bounds(cs, i as int, Class::NotNewline); }
            i = scan(&chars, i, Class::NotNewline);
        } else if c == '"' {
            let j = scan(&chars, i + 1, Class::NotQuote);
            proof { lemma_span_bounds(cs, i + 1, Class::NotQuote); }
            if j >= n {
                return Err(owned("unterminated string literal"));
            }
            let s = string_of(&chars, i + 1, j);
            proof { lemma_prepend_all_push(o, SpecTok::Str(s@), lex_from(cs, j + 1, false)); }
            out.push(Tok::Str(s));
            assert(toks_view(out@) =~= o.push(SpecTok::Str(cs.subrange(i + 1, j as int))));
            fresh = false;
            i = j + 1;
        } else {
            // The remaining cases emit exactly one token and advance past it.
            let (t, next): (Tok, usize) = if c == '&' {
                if has_next && chars[i + 1] == '&' { (Tok::AmpAmp, i + 2) } else { (Tok::Amp, i + 1) }
            } else if c == '<' {
                if has_next && chars[i + 1] == '=' {
                    (Tok::Le, i + 2)
                } else if has_next && chars[i + 1] == '>' {
                    (Tok::Ne, i + 2)
                } else {
                    (Tok::Lt, i + 1)
                }
            } else if c == '>' {
                if has_next && chars[i + 1] == '=' { (Tok::Ge, i + 2) } else { (Tok::Gt, i + 1) }
            } else if c == '+' {
                (Tok::Plus, i + 1)
            } else if c == '-' {
                (Tok::Minus, i + 1)
            } else if c == '*' {
                (Tok::Star, i + 1)
            } else if c == '/' {
                (Tok::Slash, i + 1)
            } else if c == '=' {
                (Tok::Eq, i + 1)
            } else if c == '≠' {
                (Tok::Ne, i + 1)
            } else if c == '≤' {
                (Tok::Le, i + 1)
            } else if c == '≥' {
                (Tok::Ge, i + 1)
            } else if c == '(' {
                (Tok::LParen, i + 1)
            } else if c == ')' {
                (Tok::RParen, i + 1)
            } else if c == ',' {
                (Tok::Comma, i + 1)
            } else if ('0' <= c && c <= '9') || (c == '.' && has_next && '0' <= chars[i + 1]
                && chars[i + 1] <= '9') {
                let j = scan(&chars, i, Class::NumberChar);
                proof { lemma_span_bounds(cs, i as int, Class::NumberChar); }
                if has_two_dots(&chars, i, j) {
                    let mut m = owned("invalid number literal: ");
                    m.append(string_of(&chars, i, j).as_str());
                    return Err(m);
                }
                (Tok::Number(string_of(&chars, i, j)), j)
            } else if is_word_start(c) {
                let j = scan(&chars, i, Class::WordPart);
                proof { lemma_span_bounds(cs, i as int, Class::WordPart); }
                (Tok::Word(string_of(&chars, i, j)), j)
            } else {
                let mut m = owned("unexpected character '");
                m.push(c);
                m.append("'");
                return Err(m);
            };
            proof { lemma_prepend_all_push(o, t@, lex_from(cs, next as int, false)); }
            out.push(t);
            assert(toks_view(out@) =~= o.push(t@));
            fresh = false;
            i = next;
        }
    }
    proof { lemma_prepend_all_push(toks_view(out@), SpecTok::Eof, Ok(Seq::<SpecTok>::empty())); }
    let ghost o = toks_view(out@);
    out.push(Tok::Eof);
    assert(toks_view(out@) =~= o.push(SpecTok::Eof));
    assert(o + seq![SpecTok::Eof] =~= o.push(SpecTok::Eof));
    Ok(out)
}

} // verus!
