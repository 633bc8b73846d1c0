//! The grammar of the HyperTalk subset, as recursive spec functions over a token
//! sequence `t` and a position `p`. Each returns the parsed syntax (in its mathematical
//! form) and the position after it, or the error the parser reports when the text
//! does not parse.
//!
//! Keywords match case-insensitively; words that become names are lower-cased.
//! Recursive calls on a position produced by another call are guarded by `adv_ok`
//! (the position moved forward and stayed inside `t`), which is what makes the
//! definitions terminate; the parser proves that the guard always holds (where it
//! would fail, the result is `SpecParseError::Unreachable`).

use vstd::prelude::*;

use crate::script::ast::{
    ArithOp, BinOp, Layer, SpecContainer, SpecDestination, SpecExpr, SpecFieldRef, SpecHandler,
    SpecObjectRef, SpecRepeatKind, SpecScript, SpecSelector, SpecStmt, UnOp,
};
use crate::script::lexer::{lex_spec, SpecTok};
use crate::text::{ascii_lower, eq_ignore_case};

verus! {

/// Why a text does not parse: the tokenizer's message, a missing piece (`what`) where
/// another token stands, or a token that cannot start an expression. `Unreachable` is
/// the result of a failed guard, which the parser shows never happens.
pub enum SpecParseError {
    Lex(Seq<char>),
    Expected(Seq<char>, SpecTok),
    Unexpected(SpecTok),
    Unreachable,
}

pub type PR<X> = Result<(X, int), SpecParseError>;

/// The token at `p` (`Eof` past the end).
pub open spec fn cur(t: Seq<SpecTok>, p: int) -> SpecTok {
    if 0 <= p < t.len() {
        t[p]
    } else {
        SpecTok::Eof
    }
}

/// The error for a missing `what` where the token at `p` stands.
pub open spec fn expected_err(what: Seq<char>, t: Seq<SpecTok>, p: int) -> SpecParseError {
    SpecParseError::Expected(what, cur(t, p))
}

/// The position after the token at `p`; the last token is never passed.
pub open spec fn adv(t: Seq<SpecTok>, p: int) -> int {
    if p < t.len() - 1 {
        p + 1
    } else {
        p
    }
}

/// `q` lies strictly after `p` and inside `t`.
pub open spec fn adv_ok(t: Seq<SpecTok>, p: int, q: int) -> bool {
    p < q < t.len()
}

/// The current token is the word `kw`, ignoring ASCII case.
pub open spec fn is_kw(t: Seq<SpecTok>, p: int, kw: Seq<char>) -> bool {
    match cur(t, p) {
        SpecTok::Word(w) => eq_ignore_case(w, kw),
        _ => false,
    }
}

/// The token at `p + off` is the word `kw`, ignoring ASCII case.
pub open spec fn is_kw_at(t: Seq<SpecTok>, p: int, off: int, kw: Seq<char>) -> bool {
    0 <= p + off < t.len() && match t[p + off] {
        SpecTok::Word(w) => eq_ignore_case(w, kw),
        _ => false,
    }
}

pub open spec fn is_word(t: Seq<SpecTok>, p: int) -> bool {
    cur(t, p) is Word
}

pub open spec fn at_newline(t: Seq<SpecTok>, p: int) -> bool {
    cur(t, p) is Newline
}

pub open spec fn at_eof(t: Seq<SpecTok>, p: int) -> bool {
    cur(t, p) is Eof
}

/// Consumes the keyword `kw` if it is current.
pub open spec fn eat(t: Seq<SpecTok>, p: int, kw: Seq<char>) -> int {
    if is_kw(t, p, kw) {
        adv(t, p)
    } else {
        p
    }
}

/// Requires the keyword `kw`.
pub open spec fn expect(t: Seq<SpecTok>, p: int, kw: Seq<char>) -> Result<int, SpecParseError> {
    if is_kw(t, p, kw) {
        Ok(adv(t, p))
    } else {
        Err(expected_err("'"@ + kw + "'"@, t, p))
    }
}

/// Takes a word, lower-cased.
pub open spec fn take_word(t: Seq<SpecTok>, p: int) -> PR<Seq<char>> {
    match cur(t, p) {
        SpecTok::Word(w) => Ok((ascii_lower(w), adv(t, p))),
        _ => Err(expected_err("a word"@, t, p)),
    }
}

pub open spec fn skip_newlines(t: Seq<SpecTok>, p: int) -> int
    decreases t.len() - p,
{
    if at_newline(t, p) && 0 <= p < t.len() - 1 {
        skip_newlines(t, p + 1)
    } else {
        p
    }
}

pub proof fn lemma_skip_newlines(t: Seq<SpecTok>, p: int)
    ensures
        p <= skip_newlines(t, p),
        0 <= p < t.len() ==> skip_newlines(t, p) < t.len(),
        !(0 <= p < t.len()) ==> skip_newlines(t, p) == p,
    decreases t.len() - p,
{
    if at_newline(t, p) && 0 <= p < t.len() - 1 {
        lemma_skip_newlines(t, p + 1);
    }
}

/// The end of a statement: a newline, if there is one, is consumed.
pub open spec fn end_statement(t: Seq<SpecTok>, p: int) -> int {
    if at_newline(t, p) {
        adv(t, p)
    } else {
        p
    }
}

pub open spec fn is_number_lit(e: SpecExpr) -> bool {
    e is Number
}

/// The words `ws` joined by single spaces.
pub open spec fn join_words(ws: Seq<Seq<char>>) -> Seq<char>
    decreases ws.len(),
{
    if ws.len() == 0 {
        Seq::empty()
    } else if ws.len() == 1 {
        ws[0]
    } else {
        join_words(ws.drop_last()) + " "@ + ws.last()
    }
}

/// At `field`, `fld`, or a layer word followed by one of them.
pub open spec fn looks_like_field_ref(t: Seq<SpecTok>, p: int) -> bool {
    if is_kw(t, p, "field"@) || is_kw(t, p, "fld"@) {
        true
    } else if is_layer_word(t, p) {
        is_kw_at(t, p, 1, "field"@) || is_kw_at(t, p, 1, "fld"@)
    } else {
        false
    }
}

/// At `button`, `btn`, or a layer word followed by one of them.
pub open spec fn looks_like_button_ref(t: Seq<SpecTok>, p: int) -> bool {
    if is_kw(t, p, "button"@) || is_kw(t, p, "btn"@) {
        true
    } else if is_layer_word(t, p) {
        is_kw_at(t, p, 1, "button"@) || is_kw_at(t, p, 1, "btn"@)
    } else {
        false
    }
}

pub open spec fn is_card_word(t: Seq<SpecTok>, p: int) -> bool {
    is_kw(t, p, "card"@) || is_kw(t, p, "cd"@)
}

pub open spec fn is_bg_word(t: Seq<SpecTok>, p: int) -> bool {
    is_kw(t, p, "background"@) || is_kw(t, p, "bkgnd"@) || is_kw(t, p, "bg"@)
}

pub open spec fn is_layer_word(t: Seq<SpecTok>, p: int) -> bool {
    is_card_word(t, p) || is_bg_word(t, p)
}

/// An optional layer word (`card` when absent).
pub open spec fn layer(t: Seq<SpecTok>, p: int) -> (Layer, int) {
    if is_card_word(t, p) {
        (Layer::Card, adv(t, p))
    } else if is_bg_word(t, p) {
        (Layer::Background, adv(t, p))
    } else {
        (Layer::Card, p)
    }
}

/// The words of a property name, up to `of`.
pub open spec fn prop_words(t: Seq<SpecTok>, p: int) -> (Seq<Seq<char>>, int)
    decreases t.len() - p,
{
    if !is_kw(t, p, "of"@) && is_word(t, p) && adv_ok(t, p, adv(t, p)) {
        let (rest, q) = prop_words(t, adv(t, p));
        (seq![(take_word(t, p)->Ok_0).0] + rest, q)
    } else {
        (Seq::empty(), p)
    }
}

/// The binary operator of a comparison at `p`, and the position after it.
pub open spec fn compare_op(t: Seq<SpecTok>, p: int) -> Option<(BinOp, int)> {
    match cur(t, p) {
        SpecTok::Eq => Some((BinOp::Eq, adv(t, p))),
        SpecTok::Ne => Some((BinOp::Ne, adv(t, p))),
        SpecTok::Lt => Some((BinOp::Lt, adv(t, p))),
        SpecTok::Gt => Some((BinOp::Gt, adv(t, p))),
        SpecTok::Le => Some((BinOp::Le, adv(t, p))),
        SpecTok::Ge => Some((BinOp::Ge, adv(t, p))),
        SpecTok::Word(w) => if eq_ignore_case(w, "is"@) {
            let p1 = adv(t, p);
            if is_kw(t, p1, "not"@) {
                Some((BinOp::Ne, adv(t, p1)))
            } else {
                Some((BinOp::Eq, p1))
            }
        } else {
            None
        },
        _ => None,
    }
}

pub open spec fn concat_op(t: Seq<SpecTok>, p: int) -> Option<BinOp> {
    match cur(t, p) {
        SpecTok::AmpAmp => Some(BinOp::ConcatSpace),
        SpecTok::Amp => Some(BinOp::Concat),
        _ => None,
    }
}

pub open spec fn add_op(t: Seq<SpecTok>, p: int) -> Option<BinOp> {
    match cur(t, p) {
        SpecTok::Plus => Some(BinOp::Add),
        SpecTok::Minus => Some(BinOp::Sub),
        _ => None,
    }
}

pub open spec fn mul_op(t: Seq<SpecTok>, p: int) -> Option<BinOp> {
    match cur(t, p) {
        SpecTok::Star => Some(BinOp::Mul),
        SpecTok::Slash => Some(BinOp::Div),
        SpecTok::Word(w) => if eq_ignore_case(w, "mod"@) {
            Some(BinOp::Mod)
        } else if eq_ignore_case(w, "div"@) {
            Some(BinOp::Div)
        } else {
            None
        },
        _ => None,
    }
}

/// The comparison operators: `=` is equality and `<>` inequality, `<`, `>`, `<=` and `>=`
/// the orderings; the word `is` (in any case) is equality and `is not` inequality. Any
/// other token is no comparison.
pub proof fn lemma_comparison_operators(t: Seq<SpecTok>, p: int)
    ensures
        cur(t, p) is Eq ==> compare_op(t, p) == Some((BinOp::Eq, adv(t, p))),
        cur(t, p) is Ne ==> compare_op(t, p) == Some((BinOp::Ne, adv(t, p))),
        cur(t, p) is Lt ==> compare_op(t, p) == Some((BinOp::Lt, adv(t, p))),
        cur(t, p) is Gt ==> compare_op(t, p) == Some((BinOp::Gt, adv(t, p))),
        cur(t, p) is Le ==> compare_op(t, p) == Some((BinOp::Le, adv(t, p))),
        cur(t, p) is Ge ==> compare_op(t, p) == Some((BinOp::Ge, adv(t, p))),
        is_kw(t, p, "is"@) && is_kw(t, adv(t, p), "not"@) ==> compare_op(t, p) == Some(
            (BinOp::Ne, adv(t, adv(t, p))),
        ),
        is_kw(t, p, "is"@) && !is_kw(t, adv(t, p), "not"@) ==> compare_op(t, p) == Some((BinOp::Eq, adv(t, p))),
        !is_kw(t, p, "is"@) && !(cur(t, p) is Eq || cur(t, p) is Ne || cur(t, p) is Lt || cur(t, p) is Gt
            || cur(t, p) is Le || cur(t, p) is Ge) ==> compare_op(t, p) is None,
{
}

/// The arithmetic and joining operators: `+` adds, `-` subtracts, `*` multiplies, `/` and
/// the word `div` divide, the word `mod` takes the remainder (words in any case); `&`
/// joins and `&&` joins with a space.
pub proof fn lemma_arithmetic_operators(t: Seq<SpecTok>, p: int)
    ensures
        add_op(t, p) == (if cur(t, p) is Plus {
            Some(BinOp::Add)
        } else if cur(t, p) is Minus {
            Some(BinOp::Sub)
        } else {
            None
        }),
        cur(t, p) is Star ==> mul_op(t, p) == Some(BinOp::Mul),
        cur(t, p) is Slash ==> mul_op(t, p) == Some(BinOp::Div),
        is_kw(t, p, "div"@) ==> mul_op(t, p) == Some(BinOp::Div),
        is_kw(t, p, "mod"@) ==> mul_op(t, p) == Some(BinOp::Mod),
        !(cur(t, p) is Star || cur(t, p) is Slash || is_kw(t, p, "div"@) || is_kw(t, p, "mod"@)) ==> mul_op(t, p)
            is None,
        concat_op(t, p) == (if cur(t, p) is Amp {
            Some(BinOp::Concat)
        } else if cur(t, p) is AmpAmp {
            Some(BinOp::ConcatSpace)
        } else {
            None
        }),
{
    reveal_strlit("div");
    reveal_strlit("mod");
    assert("div"@ != "mod"@) by {
        assert("div"@[0] != "mod"@[0]);
    }
    if is_kw(t, p, "div"@) && is_kw(t, p, "mod"@) {
        let w = cur(t, p)->Word_0;
        assert(ascii_lower(w) == ascii_lower("div"@));
        assert(ascii_lower(w) == ascii_lower("mod"@));
        assert(ascii_lower("div"@)[0] == 'd');
        assert(ascii_lower("mod"@)[0] == 'm');
    }
}

pub open spec fn bin(op: BinOp, a: SpecExpr, b: SpecExpr) -> SpecExpr {
    SpecExpr::Binary(op, Box::new(a), Box::new(b))
}

// ---- expressions ----

/// A comma-separated list of expressions.
pub open spec fn args_list(t: Seq<SpecTok>, p: int) -> PR<Seq<SpecExpr>>
    decreases t.len() - p, 20int,
{
    match expr(t, p) {
        Ok((e, q)) => if cur(t, q) is Comma && adv_ok(t, p, adv(t, q)) {
            match args_list(t, adv(t, q)) {
                Ok((rest, r)) => Ok((seq![e] + rest, r)),
                Err(e) => Err(e),
            }
        } else {
            Ok((seq![e], q))
        },
        Err(e) => Err(e),
    }
}

pub open spec fn expr(t: Seq<SpecTok>, p: int) -> PR<SpecExpr>
    decreases t.len() - p, 19int,
{
    or_expr(t, p)
}

pub open spec fn or_expr(t: Seq<SpecTok>, p: int) -> PR<SpecExpr>
    decreases t.len() - p, 18int,
{
    match and_expr(t, p) {
        Ok((l, q)) => if adv_ok(t, p, q) { or_rest(t, q, l) } else { Err(SpecParseError::Unreachable) },
        Err(e) => Err(e),
    }
}

pub open spec fn or_rest(t: Seq<SpecTok>, p: int, l: SpecExpr) -> PR<SpecExpr>
    decreases t.len() - p, 0int,
{
    if is_kw(t, p, "or"@) && adv_ok(t, p, adv(t, p)) {
        match and_expr(t, adv(t, p)) {
            Ok((r, q)) => if adv_ok(t, p, q) {
                or_rest(t, q, bin(BinOp::Or, l, r))
            } else {
                Err(SpecParseError::Unreachable)
            },
            Err(e) => Err(e),
        }
    } else {
        Ok((l, p))
    }
}

pub open spec fn and_expr(t: Seq<SpecTok>, p: int) -> PR<SpecExpr>
    decreases t.len() - p, 17int,
{
    match compare_expr(t, p) {
        Ok((l, q)) => if adv_ok(t, p, q) { and_rest(t, q, l) } else { Err(SpecParseError::Unreachable) },
        Err(e) => Err(e),
    }
}

pub open spec fn and_rest(t: Seq<SpecTok>, p: int, l: SpecExpr) -> PR<SpecExpr>
    decreases t.len() - p, 0int,
{
    if is_kw(t, p, "and"@) && adv_ok(t, p, adv(t, p)) {
        match compare_expr(t, adv(t, p)) {
            Ok((r, q)) => if adv_ok(t, p, q) {
                and_rest(t, q, bin(BinOp::And, l, r))
            } else {
                Err(SpecParseError::Unreachable)
            },
            Err(e) => Err(e),
        }
    } else {
        Ok((l, p))
    }
}

pub open spec fn compare_expr(t: Seq<SpecTok>, p: int) -> PR<SpecExpr>
    decreases t.len() - p, 16int,
{
    match concat_expr(t, p) {
        Ok((l, q)) => if adv_ok(t, p, q) { compare_rest(t, q, l) } else { Err(SpecParseError::Unreachable) },
        Err(e) => Err(e),
    }
}

pub open spec fn compare_rest(t: Seq<SpecTok>, p: int, l: SpecExpr) -> PR<SpecExpr>
    decreases t.len() - p, 0int,
{
    match compare_op(t, p) {
        Some((op, p1)) => if adv_ok(t, p, p1) {
            match concat_expr(t, p1) {
                Ok((r, q)) => if adv_ok(t, p, q) {
                    compare_rest(t, q, bin(op, l, r))
                } else {
                    Err(SpecParseError::Unreachable)
                },
                Err(e) => Err(e),
            }
        } else {
            Err(SpecParseError::Unreachable)
        },
        None => Ok((l, p)),
    }
}

pub open spec fn concat_expr(t: Seq<SpecTok>, p: int) -> PR<SpecExpr>
    decreases t.len() - p, 15int,
{
    match add_expr(t, p) {
        Ok((l, q)) => if adv_ok(t, p, q) { concat_rest(t, q, l) } else { Err(SpecParseError::Unreachable) },
        Err(e) => Err(e),
    }
}

pub open spec fn concat_rest(t: Seq<SpecTok>, p: int, l: SpecExpr) -> PR<SpecExpr>
    decreases t.len() - p, 0int,
{
    match concat_op(t, p) {
        Some(op) => if adv_ok(t, p, adv(t, p)) {
            match add_expr(t, adv(t, p)) {
                Ok((r, q)) => if adv_ok(t, p, q) {
                    concat_rest(t, q, bin(op, l, r))
                } else {
                    Err(SpecParseError::Unreachable)
                },
                Err(e) => Err(e),
            }
        } else {
            Err(SpecParseError::Unreachable)
        },
        None => Ok((l, p)),
    }
}

pub open spec fn add_expr(t: Seq<SpecTok>, p: int) -> PR<SpecExpr>
    decreases t.len() - p, 14int,
{
    match mul_expr(t, p) {
        Ok((l, q)) => if adv_ok(t, p, q) { add_rest(t, q, l) } else { Err(SpecParseError::Unreachable) },
        Err(e) => Err(e),
    }
}

pub open spec fn add_rest(t: Seq<SpecTok>, p: int, l: SpecExpr) -> PR<SpecExpr>
    decreases t.len() - p, 0int,
{
    match add_op(t, p) {
        Some(op) => if adv_ok(t, p, adv(t, p)) {
            match mul_expr(t, adv(t, p)) {
                Ok((r, q)) => if adv_ok(t, p, q) {
                    add_rest(t, q, bin(op, l, r))
                } else {
                    Err(SpecParseError::Unreachable)
                },
                Err(e) => Err(e),
            }
        } else {
            Err(SpecParseError::Unreachable)
        },
        None => Ok((l, p)),
    }
}

pub open spec fn mul_expr(t: Seq<SpecTok>, p: int) -> PR<SpecExpr>
    decreases t.len() - p, 13int,
{
    match unary_expr(t, p) {
        Ok((l, q)) => if adv_ok(t, p, q) { mul_rest(t, q, l) } else { Err(SpecParseError::Unreachable) },
        Err(e) => Err(e),
    }
}

pub open spec fn mul_rest(t: Seq<SpecTok>, p: int, l: SpecExpr) -> PR<SpecExpr>
    decreases t.len() - p, 0int,
{
    match mul_op(t, p) {
        Some(op) => if adv_ok(t, p, adv(t, p)) {
            match unary_expr(t, adv(t, p)) {
                Ok((r, q)) => if adv_ok(t, p, q) {
                    mul_rest(t, q, bin(op, l, r))
                } else {
                    Err(SpecParseError::Unreachable)
                },
                Err(e) => Err(e),
            }
        } else {
            Err(SpecParseError::Unreachable)
        },
        None => Ok((l, p)),
    }
}

pub open spec fn unary_expr(t: Seq<SpecTok>, p: int) -> PR<SpecExpr>
    decreases t.len() - p, 12int,
{
    if (cur(t, p) is Minus || is_kw(t, p, "not"@)) && adv_ok(t, p, adv(t, p)) {
        let op = if cur(t, p) is Minus { UnOp::Neg } else { UnOp::Not };
        match unary_expr(t, adv(t, p)) {
            Ok((e, q)) => Ok((SpecExpr::Unary(op, Box::new(e)), q)),
            Err(e) => Err(e),
        }
    } else {
        primary(t, p)
    }
}

pub open spec fn primary(t: Seq<SpecTok>, p: int) -> PR<SpecExpr>
    decreases t.len() - p, 11int,
{
    match cur(t, p) {
        SpecTok::Number(n) => Ok((SpecExpr::Number(n), adv(t, p))),
        SpecTok::Str(s) => Ok((SpecExpr::Str(s), adv(t, p))),
        SpecTok::LParen => if adv_ok(t, p, adv(t, p)) {
            match expr(t, adv(t, p)) {
                Ok((e, q)) => if cur(t, q) is RParen {
                    Ok((e, adv(t, q)))
                } else {
                    Err(expected_err("')'"@, t, q))
                },
                Err(e) => Err(e),
            }
        } else {
            Err(SpecParseError::Unreachable)
        },
        SpecTok::Word(_) => word_primary(t, p),
        _ => Err(SpecParseError::Unexpected(cur(t, p))),
    }
}

/// A word followed by `(`.
pub open spec fn call_ahead(t: Seq<SpecTok>, p: int) -> bool {
    is_word(t, p) && 0 <= p + 1 < t.len() && t[p + 1] is LParen
}

pub open spec fn word_primary(t: Seq<SpecTok>, p: int) -> PR<SpecExpr>
    decreases t.len() - p, 10int,
{
    if is_kw(t, p, "the"@) {
        let p1 = adv(t, p);
        match take_word(t, p1) {
            Ok((w0, p2)) => {
                let (more, p3) = prop_words(t, p2);
                let name = join_words(seq![w0] + more);
                match expect(t, p3, "of"@) {
                    Ok(p4) => if name == "number"@ {
                        match take_word(t, p4) {
                            Ok((coll, p5)) => Ok(
                                (SpecExpr::Call("number_of"@, seq![SpecExpr::Str(coll)]), p5),
                            ),
                            Err(e) => Err(e),
                        }
                    } else if adv_ok(t, p, p4) {
                        match object_ref(t, p4) {
                            Ok((o, p5)) => Ok(
                                (SpecExpr::Property { name, target: Box::new(o) }, p5),
                            ),
                            Err(e) => Err(e),
                        }
                    } else {
                        Err(SpecParseError::Unreachable)
                    },
                    Err(e) => Err(e),
                }
            },
            Err(e) => Err(e),
        }
    } else if looks_like_field_ref(t, p) {
        match field_ref(t, p) {
            Ok((f, q)) => Ok((SpecExpr::FieldContents(Box::new(f)), q)),
            Err(e) => Err(e),
        }
    } else if call_ahead(t, p) {
        let name = (take_word(t, p)->Ok_0).0;
        let p2 = adv(t, adv(t, p));
        if cur(t, p2) is RParen {
            Ok((SpecExpr::Call(ascii_lower(name), Seq::empty()), adv(t, p2)))
        } else if adv_ok(t, p, p2) {
            match args_list(t, p2) {
                Ok((args, q)) => if cur(t, q) is RParen {
                    Ok((SpecExpr::Call(ascii_lower(name), args), adv(t, q)))
                } else {
                    Err(expected_err("')'"@, t, q))
                },
                Err(e) => Err(e),
            }
        } else {
            Err(SpecParseError::Unreachable)
        }
    } else {
        match take_word(t, p) {
            Ok((w, q)) => Ok((SpecExpr::Var(w), q)),
            Err(e) => Err(e),
        }
    }
}

pub open spec fn selector(t: Seq<SpecTok>, p: int) -> PR<SpecSelector>
    decreases t.len() - p, 12int,
{
    match primary(t, p) {
        Ok((e, q)) => if is_number_lit(e) {
            Ok((SpecSelector::ByNumber(e), q))
        } else {
            Ok((SpecSelector::ByName(e), q))
        },
        Err(e) => Err(e),
    }
}

/// `[layer] field|fld SELECTOR`, or with `button|btn` when `button` holds.
pub open spec fn obj_ref(t: Seq<SpecTok>, p: int, button: bool) -> PR<SpecFieldRef>
    decreases t.len() - p, 8int,
{
    let (l, p1) = layer(t, p);
    let (w1, w2) = if button { ("button"@, "btn"@) } else { ("field"@, "fld"@) };
    let p2 = if is_kw(t, p1, w1) {
        adv(t, p1)
    } else if is_kw(t, p1, w2) {
        adv(t, p1)
    } else {
        p1
    };
    if p2 == p1 {
        Err(expected_err(if button { "'button'"@ } else { "'field'"@ }, t, p1))
    } else if !adv_ok(t, p, p2) {
        Err(SpecParseError::Unreachable)
    } else {
        match selector(t, p2) {
            Ok((s, q)) => Ok((SpecFieldRef { layer: l, selector: s }, q)),
            Err(e) => Err(e),
        }
    }
}

pub open spec fn field_ref(t: Seq<SpecTok>, p: int) -> PR<SpecFieldRef>
    decreases t.len() - p, 9int,
{
    obj_ref(t, p, false)
}

pub open spec fn object_ref(t: Seq<SpecTok>, p: int) -> PR<SpecObjectRef>
    decreases t.len() - p, 10int,
{
    if is_kw(t, p, "me"@) {
        Ok((SpecObjectRef::Me, adv(t, p)))
    } else if looks_like_field_ref(t, p) {
        match obj_ref(t, p, false) {
            Ok((f, q)) => Ok((SpecObjectRef::Field(f), q)),
            Err(e) => Err(e),
        }
    } else if looks_like_button_ref(t, p) {
        match obj_ref(t, p, true) {
            Ok((b, q)) => Ok((SpecObjectRef::Button(b), q)),
            Err(e) => Err(e),
        }
    } else if is_kw(t, p, "this"@) {
        let p1 = adv(t, p);
        if is_kw(t, p1, "stack"@) {
            Ok((SpecObjectRef::Stack, adv(t, p1)))
        } else {
            Ok((SpecObjectRef::Card, eat(t, p1, "card"@)))
        }
    } else if is_card_word(t, p) {
        Ok((SpecObjectRef::Card, adv(t, p)))
    } else if is_kw(t, p, "stack"@) {
        Ok((SpecObjectRef::Stack, adv(t, p)))
    } else {
        Err(expected_err("an object"@, t, p))
    }
}

// ---- statements ----

pub open spec fn container(t: Seq<SpecTok>, p: int) -> PR<SpecContainer> {
    if looks_like_field_ref(t, p) {
        match field_ref(t, p) {
            Ok((f, q)) => Ok((SpecContainer::Field(f), q)),
            Err(e) => Err(e),
        }
    } else if is_kw(t, p, "it"@) {
        Ok((SpecContainer::It, adv(t, p)))
    } else {
        match take_word(t, p) {
            Ok((w, q)) => Ok((SpecContainer::Variable(w), q)),
            Err(e) => Err(e),
        }
    }
}

pub open spec fn put_stmt(t: Seq<SpecTok>, p: int) -> PR<SpecStmt> {
    match expect(t, p, "put"@) {
        Ok(p1) => match expr(t, p1) {
            Ok((v, p2)) => if is_kw(t, p2, "into"@) || is_kw(t, p2, "before"@) || is_kw(t, p2, "after"@) {
                match container(t, adv(t, p2)) {
                    Ok((c, q)) => Ok((SpecStmt::Put { value: v, container: Some(c) }, q)),
                    Err(e) => Err(e),
                }
            } else {
                Ok((SpecStmt::Put { value: v, container: None }, p2))
            },
            Err(e) => Err(e),
        },
        Err(e) => Err(e),
    }
}

pub open spec fn set_stmt(t: Seq<SpecTok>, p: int) -> PR<SpecStmt> {
    match expect(t, p, "set"@) {
        Ok(p1) => match take_word(t, eat(t, p1, "the"@)) {
            Ok((prop, p2)) => match expect(t, p2, "of"@) {
                Ok(p3) => match object_ref(t, p3) {
                    Ok((target, p4)) => match expect(t, p4, "to"@) {
                        Ok(p5) => match expr(t, p5) {
                            Ok((value, q)) => Ok((SpecStmt::SetProp { prop, target, value }, q)),
                            Err(e) => Err(e),
                        },
                        Err(e) => Err(e),
                    },
                    Err(e) => Err(e),
                },
                Err(e) => Err(e),
            },
            Err(e) => Err(e),
        },
        Err(e) => Err(e),
    }
}

pub open spec fn go_stmt(t: Seq<SpecTok>, p: int) -> PR<SpecStmt> {
    match expect(t, p, "go"@) {
        Ok(p1) => {
            let p2 = eat(t, p1, "to"@);
            let d: PR<SpecDestination> = if is_kw(t, p2, "next"@) {
                Ok((SpecDestination::NextCard, eat(t, adv(t, p2), "card"@)))
            } else if is_kw(t, p2, "previous"@) || is_kw(t, p2, "prev"@) {
                Ok((SpecDestination::PrevCard, eat(t, adv(t, p2), "card"@)))
            } else if is_kw(t, p2, "first"@) {
                Ok((SpecDestination::FirstCard, eat(t, adv(t, p2), "card"@)))
            } else if is_kw(t, p2, "last"@) {
                Ok((SpecDestination::LastCard, eat(t, adv(t, p2), "card"@)))
            } else if is_kw(t, p2, "stack"@) {
                match primary(t, adv(t, p2)) {
                    Ok((e, q)) => Ok((SpecDestination::Stack(e), q)),
                    Err(e) => Err(e),
                }
            } else if is_card_word(t, p2) {
                match primary(t, adv(t, p2)) {
                    Ok((e, q)) => if is_number_lit(e) {
                        Ok((SpecDestination::CardByNumber(e), q))
                    } else {
                        Ok((SpecDestination::CardByName(e), q))
                    },
                    Err(e) => Err(e),
                }
            } else {
                match primary(t, p2) {
                    Ok((e, q)) => Ok((SpecDestination::CardByName(e), q)),
                    Err(e) => Err(e),
                }
            };
            match d {
                Ok((d, q)) => Ok((SpecStmt::Go(d), q)),
                Err(e) => Err(e),
            }
        },
        Err(e) => Err(e),
    }
}

/// The arithmetic command word at `p`, if any.
pub open spec fn arith_word(t: Seq<SpecTok>, p: int) -> Option<ArithOp> {
    if is_kw(t, p, "add"@) {
        Some(ArithOp::Add)
    } else if is_kw(t, p, "subtract"@) {
        Some(ArithOp::Subtract)
    } else if is_kw(t, p, "multiply"@) {
        Some(ArithOp::Multiply)
    } else if is_kw(t, p, "divide"@) {
        Some(ArithOp::Divide)
    } else {
        None
    }
}

/// `add E to C`, `subtract E from C`, `multiply C by E`, `divide C by E`.
pub open spec fn arith_stmt(t: Seq<SpecTok>, p: int, op: ArithOp) -> PR<SpecStmt> {
    let p1 = adv(t, p);
    if op == ArithOp::Add || op == ArithOp::Subtract {
        let link = if op == ArithOp::Add { "to"@ } else { "from"@ };
        match expr(t, p1) {
            Ok((amount, p2)) => match expect(t, p2, link) {
                Ok(p3) => match container(t, p3) {
                    Ok((c, q)) => Ok((SpecStmt::Arith { op, amount, container: c }, q)),
                    Err(e) => Err(e),
                },
                Err(e) => Err(e),
            },
            Err(e) => Err(e),
        }
    } else {
        match container(t, p1) {
            Ok((c, p2)) => match expect(t, p2, "by"@) {
                Ok(p3) => match expr(t, p3) {
                    Ok((amount, q)) => Ok((SpecStmt::Arith { op, amount, container: c }, q)),
                    Err(e) => Err(e),
                },
                Err(e) => Err(e),
            },
            Err(e) => Err(e),
        }
    }
}

/// A bare message send: `NAME [ARG, ...]`.
pub open spec fn send_stmt(t: Seq<SpecTok>, p: int) -> PR<SpecStmt> {
    match take_word(t, p) {
        Ok((name, p1)) => if !at_newline(t, p1) && !at_eof(t, p1) && !is_kw(t, p1, "else"@)
            && !is_kw(t, p1, "end"@) {
            match args_list(t, p1) {
                Ok((args, q)) => Ok((SpecStmt::Send(name, args), q)),
                Err(e) => Err(e),
            }
        } else {
            Ok((SpecStmt::Send(name, Seq::empty()), p1))
        },
        Err(e) => Err(e),
    }
}

/// `get EXPR`, or `get url EXPR` (a fetch request) when `url` is followed by more than the
/// end of the line.
pub open spec fn get_stmt(t: Seq<SpecTok>, p: int) -> PR<SpecStmt> {
    let p1 = adv(t, p);
    let p2 = adv(t, p1);
    if is_kw(t, p1, "url"@) && !at_newline(t, p2) && !at_eof(t, p2) {
        match expr(t, p2) {
            Ok((e, q)) => Ok((SpecStmt::Send("geturl"@, seq![e]), q)),
            Err(e) => Err(e),
        }
    } else {
        match expr(t, p1) {
            Ok((e, q)) => Ok((SpecStmt::Get(e), q)),
            Err(e) => Err(e),
        }
    }
}

/// `open [url] EXPR`: a request to open a URL.
pub open spec fn open_stmt(t: Seq<SpecTok>, p: int) -> PR<SpecStmt> {
    match expr(t, eat(t, adv(t, p), "url"@)) {
        Ok((e, q)) => Ok((SpecStmt::Send("openurl"@, seq![e]), q)),
        Err(e) => Err(e),
    }
}

/// `ask permission EXPR`: a request for a runtime permission.
pub open spec fn ask_stmt(t: Seq<SpecTok>, p: int) -> PR<SpecStmt> {
    match expr(t, adv(t, adv(t, p))) {
        Ok((e, q)) => Ok((SpecStmt::Send("askpermission"@, seq![e]), q)),
        Err(e) => Err(e),
    }
}

/// `snackbar TEXT [action LABEL send MESSAGE]`.
pub open spec fn snackbar_stmt(t: Seq<SpecTok>, p: int) -> PR<SpecStmt> {
    match expr(t, adv(t, p)) {
        Ok((text, p2)) => if is_kw(t, p2, "action"@) {
            match expr(t, adv(t, p2)) {
                Ok((label, p3)) => match expect(t, p3, "send"@) {
                    Ok(p4) => match expr(t, p4) {
                        Ok((msg, q)) => Ok((SpecStmt::Send("snackbar"@, seq![text, label, msg]), q)),
                        Err(e) => Err(e),
                    },
                    Err(e) => Err(e),
                },
                Err(e) => Err(e),
            }
        } else {
            Ok((SpecStmt::Send("snackbar"@, seq![text]), p2))
        },
        Err(e) => Err(e),
    }
}

/// `notify TITLE[, BODY] [send MESSAGE]`.
pub open spec fn notify_stmt(t: Seq<SpecTok>, p: int) -> PR<SpecStmt> {
    match expr(t, adv(t, p)) {
        Ok((title, p2)) => {
            let body: PR<Seq<SpecExpr>> = if cur(t, p2) is Comma {
                match expr(t, adv(t, p2)) {
                    Ok((b, p3)) => Ok((seq![title, b], p3)),
                    Err(e) => Err(e),
                }
            } else {
                Ok((seq![title], p2))
            };
            match body {
                Ok((args, p3)) => if is_kw(t, p3, "send"@) {
                    match expr(t, adv(t, p3)) {
                        Ok((msg, q)) => Ok((SpecStmt::Send("notify"@, args.push(msg)), q)),
                        Err(e) => Err(e),
                    }
                } else {
                    Ok((SpecStmt::Send("notify"@, args), p3))
                },
                Err(e) => Err(e),
            }
        },
        Err(e) => Err(e),
    }
}

pub open spec fn repeat_kind(t: Seq<SpecTok>, p1: int) -> PR<SpecRepeatKind> {
    if is_kw(t, p1, "with"@) {
        match take_word(t, adv(t, p1)) {
            Ok((var, p3)) => if cur(t, p3) is Eq {
                match expr(t, adv(t, p3)) {
                    Ok((from, p5)) => match expect(t, p5, "to"@) {
                        Ok(p6) => match expr(t, p6) {
                            Ok((to, q)) => Ok((SpecRepeatKind::With { var, from, to }, q)),
                            Err(e) => Err(e),
                        },
                        Err(e) => Err(e),
                    },
                    Err(e) => Err(e),
                }
            } else {
                Err(expected_err("'='"@, t, p3))
            },
            Err(e) => Err(e),
        }
    } else if is_kw(t, p1, "for"@) {
        match expr(t, adv(t, p1)) {
            Ok((n, q)) => Ok((SpecRepeatKind::Times(n), eat(t, q, "times"@))),
            Err(e) => Err(e),
        }
    } else if at_newline(t, p1) {
        Ok((SpecRepeatKind::Times(SpecExpr::Number("0"@)), p1))
    } else {
        match expr(t, p1) {
            Ok((n, q)) => Ok((SpecRepeatKind::Times(n), eat(t, q, "times"@))),
            Err(e) => Err(e),
        }
    }
}

/// Whether the current word ends a block: `end`, or also `else` when `else_ends`.
pub open spec fn at_block_end(t: Seq<SpecTok>, p: int, else_ends: bool) -> bool {
    is_kw(t, p, "end"@) || (else_ends && is_kw(t, p, "else"@))
}

/// Statements up to the end of the text or a block-ending word.
pub open spec fn block(t: Seq<SpecTok>, p: int, else_ends: bool) -> PR<Seq<SpecStmt>>
    decreases t.len() - p, 3int,
{
    let q = skip_newlines(t, p);
    proof {
        lemma_skip_newlines(t, p);
    }
    if at_eof(t, q) || at_block_end(t, q, else_ends) {
        Ok((Seq::empty(), q))
    } else {
        match statement(t, q) {
            Ok((s, r)) => if adv_ok(t, q, r) {
                match block(t, r, else_ends) {
                    Ok((ss, e)) => Ok((seq![s] + ss, e)),
                    Err(e) => Err(e),
                }
            } else {
                Err(SpecParseError::Unreachable)
            },
            Err(e) => Err(e),
        }
    }
}

pub open spec fn statement(t: Seq<SpecTok>, p: int) -> PR<SpecStmt>
    decreases t.len() - p, 2int,
{
    let r: PR<SpecStmt> = if !is_word(t, p) {
        Err(expected_err("a statement"@, t, p))
    } else if is_kw(t, p, "put"@) {
        put_stmt(t, p)
    } else if is_kw(t, p, "get"@) {
        get_stmt(t, p)
    } else if is_kw(t, p, "set"@) {
        set_stmt(t, p)
    } else if is_kw(t, p, "go"@) {
        go_stmt(t, p)
    } else if is_kw(t, p, "answer"@) {
        match expr(t, adv(t, p)) {
            Ok((e, q)) => Ok((SpecStmt::Answer(e), q)),
            Err(e) => Err(e),
        }
    } else if is_kw(t, p, "beep"@) {
        Ok((SpecStmt::Beep, adv(t, p)))
    } else if arith_word(t, p) is Some {
        arith_stmt(t, p, arith_word(t, p)->0)
    } else if is_kw(t, p, "if"@) {
        if_stmt(t, p)
    } else if is_kw(t, p, "repeat"@) {
        repeat_stmt(t, p)
    } else if is_kw(t, p, "open"@) {
        open_stmt(t, p)
    } else if is_kw(t, p, "ask"@) && is_kw_at(t, p, 1, "permission"@) {
        ask_stmt(t, p)
    } else if is_kw(t, p, "snackbar"@) {
        snackbar_stmt(t, p)
    } else if is_kw(t, p, "notify"@) {
        notify_stmt(t, p)
    } else {
        send_stmt(t, p)
    };
    match r {
        Ok((s, q)) => Ok((s, end_statement(t, q))),
        Err(e) => Err(e),
    }
}

pub open spec fn if_stmt(t: Seq<SpecTok>, p: int) -> PR<SpecStmt>
    decreases t.len() - p, 1int,
{
    match expect(t, p, "if"@) {
        Ok(p1) => match expr(t, p1) {
            Ok((cond, p2)) => match expect(t, skip_newlines(t, p2), "then"@) {
                Ok(p4) => if !adv_ok(t, p, p4) {
                    Err(SpecParseError::Unreachable)
                } else if at_newline(t, p4) {
                    let p5 = end_statement(t, p4);
                    match block(t, p5, true) {
                        Ok((then_body, p6)) => {
                            let e: PR<Seq<SpecStmt>> = if is_kw(t, p6, "else"@) {
                                let p7 = adv(t, p6);
                                if !adv_ok(t, p, p7) {
                                    Err(SpecParseError::Unreachable)
                                } else if at_newline(t, p7) {
                                    block(t, end_statement(t, p7), false)
                                } else {
                                    match statement(t, p7) {
                                        Ok((s, q)) => Ok((seq![s], q)),
                                        Err(e) => Err(e),
                                    }
                                }
                            } else {
                                Ok((Seq::empty(), p6))
                            };
                            match e {
                                Ok((else_body, p8)) => match expect(t, p8, "end"@) {
                                    Ok(p9) => match expect(t, p9, "if"@) {
                                        Ok(q) => Ok((SpecStmt::If { cond, then_body, else_body }, q)),
                                        Err(e) => Err(e),
                                    },
                                    Err(e) => Err(e),
                                },
                                Err(e) => Err(e),
                            }
                        },
                        Err(e) => Err(e),
                    }
                } else {
                    match statement(t, p4) {
                        Ok((s, p5)) => if is_kw(t, p5, "else"@) && adv_ok(t, p, adv(t, p5)) {
                            match statement(t, adv(t, p5)) {
                                Ok((s2, q)) => Ok(
                                    (SpecStmt::If { cond, then_body: seq![s], else_body: seq![s2] }, q),
                                ),
                                Err(e) => Err(e),
                            }
                        } else if is_kw(t, p5, "else"@) {
                            Err(SpecParseError::Unreachable)
                        } else {
                            Ok((SpecStmt::If { cond, then_body: seq![s], else_body: Seq::empty() }, p5))
                        },
                        Err(e) => Err(e),
                    }
                },
                Err(e) => Err(e),
            },
            Err(e) => Err(e),
        },
        Err(e) => Err(e),
    }
}

pub open spec fn repeat_stmt(t: Seq<SpecTok>, p: int) -> PR<SpecStmt>
    decreases t.len() - p, 1int,
{
    match expect(t, p, "repeat"@) {
        Ok(p1) => match repeat_kind(t, p1) {
            Ok((kind, p2)) => {
                let p3 = end_statement(t, p2);
                if adv_ok(t, p, p3) {
                    match block(t, p3, false) {
                        Ok((body, p4)) => match expect(t, p4, "end"@) {
                            Ok(p5) => match expect(t, p5, "repeat"@) {
                                Ok(q) => Ok((SpecStmt::Repeat { kind, body }, q)),
                                Err(e) => Err(e),
                            },
                            Err(e) => Err(e),
                        },
                        Err(e) => Err(e),
                    }
                } else {
                    Err(SpecParseError::Unreachable)
                }
            },
            Err(e) => Err(e),
        },
        Err(e) => Err(e),
    }
}

// ---- handlers and scripts ----

pub open spec fn param_list(t: Seq<SpecTok>, p: int) -> PR<Seq<Seq<char>>>
    decreases t.len() - p,
{
    match take_word(t, p) {
        Ok((w, q)) => if cur(t, q) is Comma && adv_ok(t, p, adv(t, q)) {
            match param_list(t, adv(t, q)) {
                Ok((rest, r)) => Ok((seq![w] + rest, r)),
                Err(e) => Err(e),
            }
        } else {
            Ok((seq![w], q))
        },
        Err(e) => Err(e),
    }
}

pub open spec fn handler(t: Seq<SpecTok>, p: int) -> PR<SpecHandler> {
    match expect(t, p, "on"@) {
        Ok(p1) => match take_word(t, p1) {
            Ok((message, p2)) => {
                let params: PR<Seq<Seq<char>>> = if !at_newline(t, p2) && !at_eof(t, p2) {
                    param_list(t, p2)
                } else {
                    Ok((Seq::empty(), p2))
                };
                match params {
                    Ok((params, p3)) => match block(t, end_statement(t, p3), false) {
                        Ok((body, p4)) => match expect(t, p4, "end"@) {
                            Ok(p5) => {
                                let p6 = if is_word(t, p5) { adv(t, p5) } else { p5 };
                                Ok((SpecHandler { message, params, body }, end_statement(t, p6)))
                            },
                            Err(e) => Err(e),
                        },
                        Err(e) => Err(e),
                    },
                    Err(e) => Err(e),
                }
            },
            Err(e) => Err(e),
        },
        Err(e) => Err(e),
    }
}

pub open spec fn handlers(t: Seq<SpecTok>, p: int) -> PR<Seq<SpecHandler>>
    decreases t.len() - p,
{
    if at_eof(t, p) {
        Ok((Seq::empty(), p))
    } else {
        match handler(t, p) {
            Ok((h, q)) => {
                let r = skip_newlines(t, q);
                if adv_ok(t, p, r) {
                    match handlers(t, r) {
                        Ok((hs, e)) => Ok((seq![h] + hs, e)),
                        Err(e) => Err(e),
                    }
                } else {
                    Err(SpecParseError::Unreachable)
                }
            },
            Err(e) => Err(e),
        }
    }
}

/// The script a source text denotes, or the first error: the tokenizer's, or the
/// grammar's.
pub open spec fn script_result(cs: Seq<char>) -> Result<SpecScript, SpecParseError> {
    match lex_spec(cs) {
        Ok(t) => match handlers(t, skip_newlines(t, 0)) {
            Ok((hs, _)) => Ok(SpecScript { handlers: hs }),
            Err(e) => Err(e),
        },
        Err(e) => Err(SpecParseError::Lex(e.message())),
    }
}

/// The script a source text denotes, or `None` if it does not tokenize or parse.
pub open spec fn script_of(cs: Seq<char>) -> Option<SpecScript> {
    match script_result(cs) {
        Ok(s) => Some(s),
        Err(_) => None,
    }
}

} // verus!
