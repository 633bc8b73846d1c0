//! Recursive-descent parser for the HyperTalk subset. Produces a `Script` of handlers.
//! Keyword matching is case-insensitive; newlines separate statements.
//!
//! Every parsing function is proved to compute the grammar of `grammar.rs`: on success
//! the view of its result and the position after it are those the grammar gives, and it
//! fails exactly where the grammar has no parse.

use vstd::prelude::*;

use crate::script::ast::{
    buttonref_v, container_v, dest_v, expr_v, exprs_v, fieldref_v, handler_v, handlers_v, objref_v,
    repeat_kind_v, script_v, selector_v, stmt_v, stmts_v, strings_v, ArithOp, BinOp, ButtonRef,
    Container, Destination, Expr, FieldRef, Handler, Layer, ObjectRef, RepeatKind, Script,
    Selector, Stmt, UnOp,
};
use crate::script::grammar;
use crate::script::grammar::{script_result, PR};
use crate::script::lexer::{lex, lex_spec, lemma_lex_well_formed, toks_view, SpecTok, Tok};
use crate::text::{eq_ignore_ascii_case, owned, to_lower};

verus! {

/// The tokens the parser works on: nonempty and ending with `Eof`.
pub open spec fn toks_ok(t: Seq<SpecTok>) -> bool {
    t.len() >= 1 && t.last() is Eof
}

/// A parse result of `X` at position `p`, whose view is `v`, agrees with the grammar's
/// `s`, and consumed at least one token.
pub open spec fn agrees<X>(r: Result<(X, usize), ParseError>, s: PR<X::V>, p: int, n: int) -> bool
    where X: View,
{
    match r {
        Ok((x, q)) => s == Ok::<_, grammar::SpecParseError>((x@, q as int)) && p < q < n,
        Err(m) => (s matches Err(e) && e == m@),
    }
}

pub open spec fn agrees_exprs(r: Result<(Vec<Expr>, usize), ParseError>, s: PR<Seq<crate::script::ast::SpecExpr>>, p: int, n: int) -> bool {
    match r {
        Ok((x, q)) => s == Ok::<_, grammar::SpecParseError>((exprs_v(x@), q as int)) && p < q < n,
        Err(m) => (s matches Err(e) && e == m@),
    }
}

impl View for Expr {
    type V = crate::script::ast::SpecExpr;

    open spec fn view(&self) -> Self::V {
        expr_v(*self)
    }
}

impl View for Selector {
    type V = crate::script::ast::SpecSelector;

    open spec fn view(&self) -> Self::V {
        selector_v(*self)
    }
}

impl View for FieldRef {
    type V = crate::script::ast::SpecFieldRef;

    open spec fn view(&self) -> Self::V {
        fieldref_v(*self)
    }
}

impl View for ButtonRef {
    type V = crate::script::ast::SpecFieldRef;

    open spec fn view(&self) -> Self::V {
        buttonref_v(*self)
    }
}

impl View for ObjectRef {
    type V = crate::script::ast::SpecObjectRef;

    open spec fn view(&self) -> Self::V {
        objref_v(*self)
    }
}

impl View for Container {
    type V = crate::script::ast::SpecContainer;

    open spec fn view(&self) -> Self::V {
        container_v(*self)
    }
}

impl View for Stmt {
    type V = crate::script::ast::SpecStmt;

    open spec fn view(&self) -> Self::V {
        stmt_v(*self)
    }
}

impl View for Handler {
    type V = crate::script::ast::SpecHandler;

    open spec fn view(&self) -> Self::V {
        handler_v(*self)
    }
}

impl View for Script {
    type V = crate::script::ast::SpecScript;

    open spec fn view(&self) -> Self::V {
        script_v(*self)
    }
}

impl View for RepeatKind {
    type V = crate::script::ast::SpecRepeatKind;

    open spec fn view(&self) -> Self::V {
        repeat_kind_v(*self)
    }
}

impl View for Destination {
    type V = crate::script::ast::SpecDestination;

    open spec fn view(&self) -> Self::V {
        dest_v(*self)
    }
}

// ---- token helpers ----

fn is_kw(t: &Vec<Tok>, p: usize, kw: &str) -> (r: bool)
    requires
        p < t.len(),
    ensures
        r == grammar::is_kw(toks_view(t@), p as int, kw@),
{
    match &t[p] {
        Tok::Word(w) => eq_ignore_ascii_case(w.as_str(), kw),
        _ => false,
    }
}

fn is_kw_at(t: &Vec<Tok>, p: usize, kw: &str) -> (r: bool)
    requires
        p < t.len(),
    ensures
        r == grammar::is_kw_at(toks_view(t@), p as int, 1, kw@),
{
    if p + 1 < t.len() {
        match &t[p + 1] {
            Tok::Word(w) => eq_ignore_ascii_case(w.as_str(), kw),
            _ => false,
        }
    } else {
        false
    }
}

fn adv(t: &Vec<Tok>, p: usize) -> (q: usize)
    requires
        p < t.len(),
    ensures
        q == grammar::adv(toks_view(t@), p as int),
        q < t.len(),
{
    if p < t.len() - 1 {
        p + 1
    } else {
        p
    }
}

fn eat(t: &Vec<Tok>, p: usize, kw: &str) -> (q: usize)
    requires
        p < t.len(),
    ensures
        q == grammar::eat(toks_view(t@), p as int, kw@),
        p <= q < t.len(),
{
    if is_kw(t, p, kw) {
        adv(t, p)
    } else {
        p
    }
}

/// Why a text does not parse (see `grammar::SpecParseError`).
#[derive(Debug)]
pub enum ParseError {
    /// The tokenizer's message.
    Lex(String),
    /// `what` was expected where this token stands.
    Expected(String, Tok),
    /// This token cannot start an expression.
    Unexpected(Tok),
}

impl View for ParseError {
    type V = grammar::SpecParseError;

    open spec fn view(&self) -> grammar::SpecParseError {
        match self {
            ParseError::Lex(m) => grammar::SpecParseError::Lex(m@),
            ParseError::Expected(w, k) => grammar::SpecParseError::Expected(w@, k@),
            ParseError::Unexpected(k) => grammar::SpecParseError::Unexpected(k@),
        }
    }
}

/// A copy of a token.
fn tok_copy(k: &Tok) -> (r: Tok)
    ensures
        r@ == k@,
{
    match k {
        Tok::Word(w) => Tok::Word(w.clone()),
        Tok::Number(n) => Tok::Number(n.clone()),
        Tok::Str(x) => Tok::Str(x.clone()),
        Tok::Newline => Tok::Newline,
        Tok::Amp => Tok::Amp,
        Tok::AmpAmp => Tok::AmpAmp,
        Tok::Plus => Tok::Plus,
        Tok::Minus => Tok::Minus,
        Tok::Star => Tok::Star,
        Tok::Slash => Tok::Slash,
        Tok::Eq => Tok::Eq,
        Tok::Ne => Tok::Ne,
        Tok::Lt => Tok::Lt,
        Tok::Gt => Tok::Gt,
        Tok::Le => Tok::Le,
        Tok::Ge => Tok::Ge,
        Tok::LParen => Tok::LParen,
        Tok::RParen => Tok::RParen,
        Tok::Comma => Tok::Comma,
        Tok::Eof => Tok::Eof,
    }
}

/// The error for a missing `what` at `p` (see `grammar::expected_err`).
fn expected(what: &str, t: &Vec<Tok>, p: usize) -> (r: ParseError)
    requires
        p < t.len(),
    ensures
        r@ == grammar::expected_err(what@, toks_view(t@), p as int),
{
    assert(toks_view(t@)[p as int] == t@[p as int]@);
    ParseError::Expected(owned(what), tok_copy(&t[p]))
}

fn expect(t: &Vec<Tok>, p: usize, kw: &str) -> (r: Result<usize, ParseError>)
    requires
        p < t.len(),
        toks_ok(toks_view(t@)),
    ensures
        match r {
            Ok(q) => grammar::expect(toks_view(t@), p as int, kw@) == Ok::<_, grammar::SpecParseError>(q as int) && p < q < t.len(),
            Err(m) => (grammar::expect(toks_view(t@), p as int, kw@) matches Err(e) && e == m@),
        },
{
    if is_kw(t, p, kw) {
        Ok(adv(t, p))
    } else {
        let mut m = owned("'");
        m.append(kw);
        m.append("'");
        Err(expected(m.as_str(), t, p))
    }
}

fn take_word(t: &Vec<Tok>, p: usize) -> (r: Result<(String, usize), ParseError>)
    requires
        p < t.len(),
        toks_ok(toks_view(t@)),
    ensures
        agrees(r, grammar::take_word(toks_view(t@), p as int), p as int, t.len() as int),
{
    match &t[p] {
        Tok::Word(w) => Ok((to_lower(w.as_str()), adv(t, p))),
        _ => Err(expected("a word", t, p)),
    }
}

fn is_word(t: &Vec<Tok>, p: usize) -> (r: bool)
    requires
        p < t.len(),
    ensures
        r == grammar::is_word(toks_view(t@), p as int),
{
    match &t[p] {
        Tok::Word(_) => true,
        _ => false,
    }
}

fn at_newline(t: &Vec<Tok>, p: usize) -> (r: bool)
    requires
        p < t.len(),
    ensures
        r == grammar::at_newline(toks_view(t@), p as int),
{
    match &t[p] {
        Tok::Newline => true,
        _ => false,
    }
}

fn at_eof(t: &Vec<Tok>, p: usize) -> (r: bool)
    requires
        p < t.len(),
    ensures
        r == grammar::at_eof(toks_view(t@), p as int),
{
    match &t[p] {
        Tok::Eof => true,
        _ => false,
    }
}

fn skip_newlines(t: &Vec<Tok>, p: usize) -> (q: usize)
    requires
        p < t.len(),
        toks_ok(toks_view(t@)),
    ensures
        q == grammar::skip_newlines(toks_view(t@), p as int),
        p <= q < t.len(),
{
    let mut q = p;
    while at_newline(t, q)
        invariant
            p <= q < t.len(),
            toks_ok(toks_view(t@)),
            grammar::skip_newlines(toks_view(t@), p as int) == grammar::skip_newlines(toks_view(t@), q as int),
        decreases t.len() - q,
    {
        q = q + 1;
    }
    q
}

fn end_statement(t: &Vec<Tok>, p: usize) -> (q: usize)
    requires
        p < t.len(),
    ensures
        q == grammar::end_statement(toks_view(t@), p as int),
        p <= q < t.len(),
{
    if at_newline(t, p) {
        adv(t, p)
    } else {
        p
    }
}

fn is_card_word(t: &Vec<Tok>, p: usize) -> (r: bool)
    requires
        p < t.len(),
    ensures
        r == grammar::is_card_word(toks_view(t@), p as int),
{
    is_kw(t, p, "card") || is_kw(t, p, "cd")
}

fn is_bg_word(t: &Vec<Tok>, p: usize) -> (r: bool)
    requires
        p < t.len(),
    ensures
        r == grammar::is_bg_word(toks_view(t@), p as int),
{
    is_kw(t, p, "background") || is_kw(t, p, "bkgnd") || is_kw(t, p, "bg")
}

fn looks_like_field_ref(t: &Vec<Tok>, p: usize) -> (r: bool)
    requires
        p < t.len(),
    ensures
        r == grammar::looks_like_field_ref(toks_view(t@), p as int),
{
    if is_kw(t, p, "field") || is_kw(t, p, "fld") {
        true
    } else if is_card_word(t, p) || is_bg_word(t, p) {
        is_kw_at(t, p, "field") || is_kw_at(t, p, "fld")
    } else {
        false
    }
}

fn looks_like_button_ref(t: &Vec<Tok>, p: usize) -> (r: bool)
    requires
        p < t.len(),
    ensures
        r == grammar::looks_like_button_ref(toks_view(t@), p as int),
{
    if is_kw(t, p, "button") || is_kw(t, p, "btn") {
        true
    } else if is_card_word(t, p) || is_bg_word(t, p) {
        is_kw_at(t, p, "button") || is_kw_at(t, p, "btn")
    } else {
        false
    }
}

fn parse_layer(t: &Vec<Tok>, p: usize) -> (r: (Layer, usize))
    requires
        p < t.len(),
    ensures
        grammar::layer(toks_view(t@), p as int) == (r.0, r.1 as int),
        p <= r.1 < t.len(),
{
    if is_card_word(t, p) {
        (Layer::Card, adv(t, p))
    } else if is_bg_word(t, p) {
        (Layer::Background, adv(t, p))
    } else {
        (Layer::Card, p)
    }
}


// ---- expressions ----

/// A comma-separated list of expressions.
fn parse_args_list(t: &Vec<Tok>, p: usize) -> (r: Result<(Vec<Expr>, usize), ParseError>)
    requires
        p < t.len(),
        toks_ok(toks_view(t@)),
    ensures
        agrees_exprs(r, grammar::args_list(toks_view(t@), p as int), p as int, t.len() as int),
    decreases t.len() - p, 20int,
{
    let (e, q) = parse_expr(t, p)?;
    if matches!(&t[q], Tok::Comma) {
        let q1 = adv(t, q);
        let (mut rest, r) = parse_args_list(t, q1)?;
        let ghost old_rest = rest@;
        rest.insert(0, e);
        proof {
            lemma_exprs_v_cons(rest@);
            assert(rest@.drop_first() =~= old_rest);
        }
        Ok((rest, r))
    } else {
        let mut args = Vec::new();
        args.push(e);
        proof {
            lemma_exprs_v_cons(args@);
            assert(args@.drop_first() =~= Seq::<Expr>::empty());
        }
        Ok((args, q))
    }
}

pub fn parse_expr(t: &Vec<Tok>, p: usize) -> (r: Result<(Expr, usize), ParseError>)
    requires
        p < t.len(),
        toks_ok(toks_view(t@)),
    ensures
        agrees(r, grammar::expr(toks_view(t@), p as int), p as int, t.len() as int),
    decreases t.len() - p, 19int,
{
    parse_or(t, p)
}

fn parse_or(t: &Vec<Tok>, p: usize) -> (r: Result<(Expr, usize), ParseError>)
    requires
        p < t.len(),
        toks_ok(toks_view(t@)),
    ensures
        agrees(r, grammar::or_expr(toks_view(t@), p as int), p as int, t.len() as int),
    decreases t.len() - p, 18int,
{
    let (l, q) = parse_and(t, p)?;
    parse_or_rest(t, q, l)
}

fn parse_or_rest(t: &Vec<Tok>, p: usize, l: Expr) -> (r: Result<(Expr, usize), ParseError>)
    requires
        p < t.len(),
        toks_ok(toks_view(t@)),
    ensures
        match r {
            Ok((x, q)) => grammar::or_rest(toks_view(t@), p as int, l@) == Ok::<_, grammar::SpecParseError>((x@, q as int)) && p <= q < t.len(),
            Err(m) => (grammar::or_rest(toks_view(t@), p as int, l@) matches Err(e) && e == m@),
        },
    decreases t.len() - p, 0int,
{
    if is_kw(t, p, "or") {
        let (rhs, q) = parse_and(t, adv(t, p))?;
        parse_or_rest(t, q, Expr::Binary(BinOp::Or, Box::new(l), Box::new(rhs)))
    } else {
        Ok((l, p))
    }
}

fn parse_and(t: &Vec<Tok>, p: usize) -> (r: Result<(Expr, usize), ParseError>)
    requires
        p < t.len(),
        toks_ok(toks_view(t@)),
    ensures
        agrees(r, grammar::and_expr(toks_view(t@), p as int), p as int, t.len() as int),
    decreases t.len() - p, 17int,
{
    let (l, q) = parse_compare(t, p)?;
    parse_and_rest(t, q, l)
}

fn parse_and_rest(t: &Vec<Tok>, p: usize, l: Expr) -> (r: Result<(Expr, usize), ParseError>)
    requires
        p < t.len(),
        toks_ok(toks_view(t@)),
    ensures
        match r {
            Ok((x, q)) => grammar::and_rest(toks_view(t@), p as int, l@) == Ok::<_, grammar::SpecParseError>((x@, q as int)) && p <= q < t.len(),
            Err(m) => (grammar::and_rest(toks_view(t@), p as int, l@) matches Err(e) && e == m@),
        },
    decreases t.len() - p, 0int,
{
    if is_kw(t, p, "and") {
        let (rhs, q) = parse_compare(t, adv(t, p))?;
        parse_and_rest(t, q, Expr::Binary(BinOp::And, Box::new(l), Box::new(rhs)))
    } else {
        Ok((l, p))
    }
}

fn compare_op(t: &Vec<Tok>, p: usize) -> (r: Option<(BinOp, usize)>)
    requires
        p < t.len(),
        toks_ok(toks_view(t@)),
    ensures
        match r {
            Some((op, q)) => grammar::compare_op(toks_view(t@), p as int) == Some((op, q as int)) && p < q < t.len(),
            None => grammar::compare_op(toks_view(t@), p as int) is None,
        },
{
    match &t[p] {
        Tok::Eq => Some((BinOp::Eq, adv(t, p))),
        Tok::Ne => Some((BinOp::Ne, adv(t, p))),
        Tok::Lt => Some((BinOp::Lt, adv(t, p))),
        Tok::Gt => Some((BinOp::Gt, adv(t, p))),
        Tok::Le => Some((BinOp::Le, adv(t, p))),
        Tok::Ge => Some((BinOp::Ge, adv(t, p))),
        Tok::Word(w) => {
            if eq_ignore_ascii_case(w.as_str(), "is") {
                let p1 = adv(t, p);
                if is_kw(t, p1, "not") {
                    Some((BinOp::Ne, adv(t, p1)))
                } else {
                    Some((BinOp::Eq, p1))
                }
            } else {
                None
            }
        },
        _ => None,
    }
}

fn parse_compare(t: &Vec<Tok>, p: usize) -> (r: Result<(Expr, usize), ParseError>)
    requires
        p < t.len(),
        toks_ok(toks_view(t@)),
    ensures
        agrees(r, grammar::compare_expr(toks_view(t@), p as int), p as int, t.len() as int),
    decreases t.len() - p, 16int,
{
    let (l, q) = parse_concat(t, p)?;
    parse_compare_rest(t, q, l)
}

fn parse_compare_rest(t: &Vec<Tok>, p: usize, l: Expr) -> (r: Result<(Expr, usize), ParseError>)
    requires
        p < t.len(),
        toks_ok(toks_view(t@)),
    ensures
        match r {
            Ok((x, q)) => grammar::compare_rest(toks_view(t@), p as int, l@) == Ok::<_, grammar::SpecParseError>((x@, q as int)) && p <= q < t.len(),
            Err(m) => (grammar::compare_rest(toks_view(t@), p as int, l@) matches Err(e) && e == m@),
        },
    decreases t.len() - p, 0int,
{
    match compare_op(t, p) {
        Some((op, p1)) => {
            let (rhs, q) = parse_concat(t, p1)?;
            parse_compare_rest(t, q, Expr::Binary(op, Box::new(l), Box::new(rhs)))
        },
        None => Ok((l, p)),
    }
}

fn parse_concat(t: &Vec<Tok>, p: usize) -> (r: Result<(Expr, usize), ParseError>)
    requires
        p < t.len(),
        toks_ok(toks_view(t@)),
    ensures
        agrees(r, grammar::concat_expr(toks_view(t@), p as int), p as int, t.len() as int),
    decreases t.len() - p, 15int,
{
    let (l, q) = parse_add(t, p)?;
    parse_concat_rest(t, q, l)
}

fn parse_concat_rest(t: &Vec<Tok>, p: usize, l: Expr) -> (r: Result<(Expr, usize), ParseError>)
    requires
        p < t.len(),
        toks_ok(toks_view(t@)),
    ensures
        match r {
            Ok((x, q)) => grammar::concat_rest(toks_view(t@), p as int, l@) == Ok::<_, grammar::SpecParseError>((x@, q as int)) && p <= q < t.len(),
            Err(m) => (grammar::concat_rest(toks_view(t@), p as int, l@) matches Err(e) && e == m@),
        },
    decreases t.len() - p, 0int,
{
    let op = match &t[p] {
        Tok::AmpAmp => BinOp::ConcatSpace,
        Tok::Amp => BinOp::Concat,
        _ => {
            return Ok((l, p));
        },
    };
    let (rhs, q) = parse_add(t, adv(t, p))?;
    parse_concat_rest(t, q, Expr::Binary(op, Box::new(l), Box::new(rhs)))
}

fn parse_add(t: &Vec<Tok>, p: usize) -> (r: Result<(Expr, usize), ParseError>)
    requires
        p < t.len(),
        toks_ok(toks_view(t@)),
    ensures
        agrees(r, grammar::add_expr(toks_view(t@), p as int), p as int, t.len() as int),
    decreases t.len() - p, 14int,
{
    let (l, q) = parse_mul(t, p)?;
    parse_add_rest(t, q, l)
}

fn parse_add_rest(t: &Vec<Tok>, p: usize, l: Expr) -> (r: Result<(Expr, usize), ParseError>)
    requires
        p < t.len(),
        toks_ok(toks_view(t@)),
    ensures
        match r {
            Ok((x, q)) => grammar::add_rest(toks_view(t@), p as int, l@) == Ok::<_, grammar::SpecParseError>((x@, q as int)) && p <= q < t.len(),
            Err(m) => (grammar::add_rest(toks_view(t@), p as int, l@) matches Err(e) && e == m@),
        },
    decreases t.len() - p, 0int,
{
    let op = match &t[p] {
        Tok::Plus => BinOp::Add,
        Tok::Minus => BinOp::Sub,
        _ => {
            return Ok((l, p));
        },
    };
    let (rhs, q) = parse_mul(t, adv(t, p))?;
    parse_add_rest(t, q, Expr::Binary(op, Box::new(l), Box::new(rhs)))
}

fn parse_mul(t: &Vec<Tok>, p: usize) -> (r: Result<(Expr, usize), ParseError>)
    requires
        p < t.len(),
        toks_ok(toks_view(t@)),
    ensures
        agrees(r, grammar::mul_expr(toks_view(t@), p as int), p as int, t.len() as int),
    decreases t.len() - p, 13int,
{
    let (l, q) = parse_unary(t, p)?;
    parse_mul_rest(t, q, l)
}

fn parse_mul_rest(t: &Vec<Tok>, p: usize, l: Expr) -> (r: Result<(Expr, usize), ParseError>)
    requires
        p < t.len(),
        toks_ok(toks_view(t@)),
    ensures
        match r {
            Ok((x, q)) => grammar::mul_rest(toks_view(t@), p as int, l@) == Ok::<_, grammar::SpecParseError>((x@, q as int)) && p <= q < t.len(),
            Err(m) => (grammar::mul_rest(toks_view(t@), p as int, l@) matches Err(e) && e == m@),
        },
    decreases t.len() - p, 0int,
{
    let op = match &t[p] {
        Tok::Star => BinOp::Mul,
        Tok::Slash => BinOp::Div,
        Tok::Word(w) => {
            if eq_ignore_ascii_case(w.as_str(), "mod") {
                BinOp::Mod
            } else if eq_ignore_ascii_case(w.as_str(), "div") {
                BinOp::Div
            } else {
                return Ok((l, p));
            }
        },
        _ => {
            return Ok((l, p));
        },
    };
    let (rhs, q) = parse_unary(t, adv(t, p))?;
    parse_mul_rest(t, q, Expr::Binary(op, Box::new(l), Box::new(rhs)))
}

fn parse_unary(t: &Vec<Tok>, p: usize) -> (r: Result<(Expr, usize), ParseError>)
    requires
        p < t.len(),
        toks_ok(toks_view(t@)),
    ensures
        agrees(r, grammar::unary_expr(toks_view(t@), p as int), p as int, t.len() as int),
    decreases t.len() - p, 12int,
{
    if matches!(&t[p], Tok::Minus) {
        let (e, q) = parse_unary(t, adv(t, p))?;
        return Ok((Expr::Unary(UnOp::Neg, Box::new(e)), q));
    }
    if is_kw(t, p, "not") {
        let (e, q) = parse_unary(t, adv(t, p))?;
        return Ok((Expr::Unary(UnOp::Not, Box::new(e)), q));
    }
    parse_primary(t, p)
}

#[verifier::spinoff_prover]
#[verifier::rlimit(50)]
fn parse_primary(t: &Vec<Tok>, p: usize) -> (r: Result<(Expr, usize), ParseError>)
    requires
        p < t.len(),
        toks_ok(toks_view(t@)),
    ensures
        agrees(r, grammar::primary(toks_view(t@), p as int), p as int, t.len() as int),
    decreases t.len() - p, 11int,
{
    assert(toks_view(t@)[p as int] == t@[p as int]@);
    match &t[p] {
        Tok::Number(n) => Ok((Expr::Number(n.clone()), adv(t, p))),
        Tok::Str(s) => Ok((Expr::Str(s.clone()), adv(t, p))),
        Tok::LParen => {
            let (e, q) = parse_expr(t, adv(t, p))?;
            if !matches!(&t[q], Tok::RParen) {
                return Err(expected("')'", t, q));
            }
            Ok((e, adv(t, q)))
        },
        Tok::Word(_) => parse_word_primary(t, p),
        _ => Err(ParseError::Unexpected(tok_copy(&t[p]))),
    }
}

/// The words of a property name after `the`, up to `of`.
fn parse_prop_words(t: &Vec<Tok>, p: usize) -> (r: (Vec<String>, usize))
    requires
        p < t.len(),
        toks_ok(toks_view(t@)),
    ensures
        grammar::prop_words(toks_view(t@), p as int) == (strings_v(r.0@), r.1 as int),
        p <= r.1 < t.len(),
    decreases t.len() - p,
{
    if !is_kw(t, p, "of") && is_word(t, p) {
        let w = match &t[p] {
            Tok::Word(w) => to_lower(w.as_str()),
            _ => owned(""),
        };
        let (mut rest, q) = parse_prop_words(t, adv(t, p));
        let ghost rest_v = strings_v(rest@);
        rest.insert(0, w);
        assert(strings_v(rest@) =~= seq![w@] + rest_v);
        (rest, q)
    } else {
        let v: Vec<String> = Vec::new();
        assert(strings_v(v@) =~= Seq::<Seq<char>>::empty());
        (v, p)
    }
}

/// The words joined by single spaces.
fn join_words(ws: &Vec<String>) -> (s: String)
    ensures
        s@ == grammar::join_words(strings_v(ws@)),
{
    let mut s = String::new();
    let mut k: usize = 0;
    while k < ws.len()
        invariant
            k <= ws.len(),
            s@ == grammar::join_words(strings_v(ws@.subrange(0, k as int))),
        decreases ws.len() - k,
    {
        let ghost before = strings_v(ws@.subrange(0, k as int));
        if k > 0 {
            s.append(" ");
        }
        s.append(ws[k].as_str());
        proof {
            let after = strings_v(ws@.subrange(0, k + 1));
            assert(after.drop_last() =~= before);
            assert(after.last() == ws@[k as int]@);
            if k == 0 {
                assert(before =~= Seq::<Seq<char>>::empty());
                assert(s@ =~= after[0]);
            }
        }
        k += 1;
    }
    assert(ws@.subrange(0, ws.len() as int) =~= ws@);
    s
}

fn parse_word_primary(t: &Vec<Tok>, p: usize) -> (r: Result<(Expr, usize), ParseError>)
    requires
        p < t.len(),
        toks_ok(toks_view(t@)),
        toks_view(t@)[p as int] is Word,
    ensures
        agrees(r, grammar::word_primary(toks_view(t@), p as int), p as int, t.len() as int),
    decreases t.len() - p, 10int,
{
    if is_kw(t, p, "the") {
        let p1 = adv(t, p);
        let (w0, p2) = take_word(t, p1)?;
        let (mut more, p3) = parse_prop_words(t, p2);
        let ghost more_v = strings_v(more@);
        more.insert(0, w0);
        assert(strings_v(more@) =~= seq![w0@] + more_v);
        let name = join_words(&more);
        let p4 = expect(t, p3, "of")?;
        if is_number_word(&name) {
            let (coll, p5) = take_word(t, p4)?;
            let mut args = Vec::new();
            args.push(Expr::Str(coll));
            proof {
                lemma_exprs_v_cons(args@);
                assert(args@.drop_first() =~= Seq::<Expr>::empty());
            }
            return Ok((Expr::Call(owned("number_of"), args), p5));
        }
        let (target, p5) = parse_object_ref(t, p4)?;
        return Ok((Expr::Property { name, target: Box::new(target) }, p5));
    }
    if looks_like_field_ref(t, p) {
        let (f, q) = parse_field_ref(t, p)?;
        return Ok((Expr::FieldContents(Box::new(f)), q));
    }
    if p + 1 < t.len() && matches!(&t[p + 1], Tok::LParen) {
        let (name, p1) = take_word(t, p)?;
        let p2 = adv(t, p1);
        let name = to_lower(name.as_str());
        if matches!(&t[p2], Tok::RParen) {
            let args: Vec<Expr> = Vec::new();
            assert(exprs_v(args@) =~= Seq::<crate::script::ast::SpecExpr>::empty());
            return Ok((Expr::Call(name, args), adv(t, p2)));
        }
        let (args, q) = parse_args_list(t, p2)?;
        if !matches!(&t[q], Tok::RParen) {
            return Err(expected("')'", t, q));
        }
        return Ok((Expr::Call(name, args), adv(t, q)));
    }
    let (w, q) = take_word(t, p)?;
    Ok((Expr::Var(w), q))
}

/// Whether a property name is exactly `number`.
fn is_number_word(s: &String) -> (r: bool)
    ensures
        r == (s@ == "number"@),
{
    proof {
        reveal_strlit("number");
    }
    let cs = crate::text::chars_of(s.as_str());
    let want = crate::text::chars_of("number");
    if cs.len() != want.len() {
        return false;
    }
    let mut k: usize = 0;
    while k < cs.len()
        invariant
            k <= cs.len() == want.len(),
            cs@ == s@,
            want@ == "number"@,
            forall|j: int| 0 <= j < k ==> cs@[j] == want@[j],
        decreases cs.len() - k,
    {
        if cs[k] != want[k] {
            return false;
        }
        k += 1;
    }
    assert(cs@ =~= want@);
    true
}

fn parse_selector(t: &Vec<Tok>, p: usize) -> (r: Result<(Selector, usize), ParseError>)
    requires
        p < t.len(),
        toks_ok(toks_view(t@)),
    ensures
        agrees(r, grammar::selector(toks_view(t@), p as int), p as int, t.len() as int),
    decreases t.len() - p, 12int,
{
    let (e, q) = parse_primary(t, p)?;
    if matches!(e, Expr::Number(_)) {
        Ok((Selector::ByNumber(e), q))
    } else {
        Ok((Selector::ByName(e), q))
    }
}

fn parse_field_ref(t: &Vec<Tok>, p: usize) -> (r: Result<(FieldRef, usize), ParseError>)
    requires
        p < t.len(),
        toks_ok(toks_view(t@)),
    ensures
        agrees(r, grammar::obj_ref(toks_view(t@), p as int, false), p as int, t.len() as int),
    decreases t.len() - p, 8int,
{
    let (layer, p1) = parse_layer(t, p);
    let p2 = if is_kw(t, p1, "field") || is_kw(t, p1, "fld") {
        adv(t, p1)
    } else {
        return Err(expected("'field'", t, p1));
    };
    let (selector, q) = parse_selector(t, p2)?;
    Ok((FieldRef { layer, selector }, q))
}

fn parse_button_ref(t: &Vec<Tok>, p: usize) -> (r: Result<(ButtonRef, usize), ParseError>)
    requires
        p < t.len(),
        toks_ok(toks_view(t@)),
    ensures
        agrees(r, grammar::obj_ref(toks_view(t@), p as int, true), p as int, t.len() as int),
    decreases t.len() - p, 8int,
{
    let (layer, p1) = parse_layer(t, p);
    let p2 = if is_kw(t, p1, "button") || is_kw(t, p1, "btn") {
        adv(t, p1)
    } else {
        return Err(expected("'button'", t, p1));
    };
    let (selector, q) = parse_selector(t, p2)?;
    Ok((ButtonRef { layer, selector }, q))
}

fn parse_object_ref(t: &Vec<Tok>, p: usize) -> (r: Result<(ObjectRef, usize), ParseError>)
    requires
        p < t.len(),
        toks_ok(toks_view(t@)),
    ensures
        agrees(r, grammar::object_ref(toks_view(t@), p as int), p as int, t.len() as int),
    decreases t.len() - p, 10int,
{
    if is_kw(t, p, "me") {
        Ok((ObjectRef::Me, adv(t, p)))
    } else if looks_like_field_ref(t, p) {
        let (f, q) = parse_field_ref(t, p)?;
        Ok((ObjectRef::Field(f), q))
    } else if looks_like_button_ref(t, p) {
        let (b, q) = parse_button_ref(t, p)?;
        Ok((ObjectRef::Button(b), q))
    } else if is_kw(t, p, "this") {
        let p1 = adv(t, p);
        if is_kw(t, p1, "stack") {
            Ok((ObjectRef::Stack, adv(t, p1)))
        } else {
            Ok((ObjectRef::Card, eat(t, p1, "card")))
        }
    } else if is_card_word(t, p) {
        Ok((ObjectRef::Card, adv(t, p)))
    } else if is_kw(t, p, "stack") {
        Ok((ObjectRef::Stack, adv(t, p)))
    } else {
        Err(expected("an object", t, p))
    }
}

proof fn lemma_exprs_v_cons(s: Seq<Expr>)
    requires
        s.len() >= 1,
    ensures
        exprs_v(s) == seq![expr_v(s[0])] + exprs_v(s.drop_first()),
    decreases s.len(),
{
    if s.len() == 1 {
        assert(s.drop_last() =~= Seq::<Expr>::empty());
        assert(s.drop_first() =~= Seq::<Expr>::empty());
        assert(exprs_v(s) =~= seq![expr_v(s[0])] + exprs_v(s.drop_first()));
    } else {
        lemma_exprs_v_cons(s.drop_last());
        assert(s.drop_last().drop_first() =~= s.drop_first().drop_last());
        assert(s.drop_first().last() == s.last());
        assert(exprs_v(s) =~= seq![expr_v(s[0])] + exprs_v(s.drop_first()));
    }
}


// ---- statements ----

pub open spec fn agrees_block(r: Result<(Vec<Stmt>, usize), ParseError>, s: PR<Seq<crate::script::ast::SpecStmt>>, p: int, n: int) -> bool {
    match r {
        Ok((x, q)) => s == Ok::<_, grammar::SpecParseError>((stmts_v(x@), q as int)) && p <= q < n,
        Err(m) => (s matches Err(e) && e == m@),
    }
}

proof fn lemma_stmts_v_cons(s: Seq<Stmt>)
    requires
        s.len() >= 1,
    ensures
        stmts_v(s) == seq![stmt_v(s[0])] + stmts_v(s.drop_first()),
    decreases s.len(),
{
    if s.len() == 1 {
        assert(s.drop_last() =~= Seq::<Stmt>::empty());
        assert(s.drop_first() =~= Seq::<Stmt>::empty());
        assert(stmts_v(s) =~= seq![stmt_v(s[0])] + stmts_v(s.drop_first()));
    } else {
        lemma_stmts_v_cons(s.drop_last());
        assert(s.drop_last().drop_first() =~= s.drop_first().drop_last());
        assert(s.drop_first().last() == s.last());
        assert(stmts_v(s) =~= seq![stmt_v(s[0])] + stmts_v(s.drop_first()));
    }
}

/// A one-statement list.
fn single(s: Stmt) -> (v: Vec<Stmt>)
    ensures
        stmts_v(v@) == seq![stmt_v(s)],
{
    let mut v = Vec::new();
    v.push(s);
    proof {
        lemma_stmts_v_cons(v@);
        assert(v@.drop_first() =~= Seq::<Stmt>::empty());
    }
    v
}

fn no_stmts() -> (v: Vec<Stmt>)
    ensures
        stmts_v(v@) == Seq::<crate::script::ast::SpecStmt>::empty(),
{
    let v: Vec<Stmt> = Vec::new();
    assert(stmts_v(v@) =~= Seq::<crate::script::ast::SpecStmt>::empty());
    v
}

fn parse_container(t: &Vec<Tok>, p: usize) -> (r: Result<(Container, usize), ParseError>)
    requires
        p < t.len(),
        toks_ok(toks_view(t@)),
    ensures
        agrees(r, grammar::container(toks_view(t@), p as int), p as int, t.len() as int),
{
    if looks_like_field_ref(t, p) {
        let (f, q) = parse_field_ref(t, p)?;
        Ok((Container::Field(f), q))
    } else if is_kw(t, p, "it") {
        Ok((Container::It, adv(t, p)))
    } else {
        let (w, q) = take_word(t, p)?;
        Ok((Container::Variable(w), q))
    }
}

fn parse_put(t: &Vec<Tok>, p: usize) -> (r: Result<(Stmt, usize), ParseError>)
    requires
        p < t.len(),
        toks_ok(toks_view(t@)),
    ensures
        agrees(r, grammar::put_stmt(toks_view(t@), p as int), p as int, t.len() as int),
{
    let p1 = expect(t, p, "put")?;
    let (value, p2) = parse_expr(t, p1)?;
    if is_kw(t, p2, "into") || is_kw(t, p2, "before") || is_kw(t, p2, "after") {
        let (c, q) = parse_container(t, adv(t, p2))?;
        Ok((Stmt::Put { value, container: Some(c) }, q))
    } else {
        Ok((Stmt::Put { value, container: None }, p2))
    }
}

fn parse_set(t: &Vec<Tok>, p: usize) -> (r: Result<(Stmt, usize), ParseError>)
    requires
        p < t.len(),
        toks_ok(toks_view(t@)),
    ensures
        agrees(r, grammar::set_stmt(toks_view(t@), p as int), p as int, t.len() as int),
{
    let p1 = expect(t, p, "set")?;
    let (prop, p2) = take_word(t, eat(t, p1, "the"))?;
    let p3 = expect(t, p2, "of")?;
    let (target, p4) = parse_object_ref(t, p3)?;
    let p5 = expect(t, p4, "to")?;
    let (value, q) = parse_expr(t, p5)?;
    Ok((Stmt::SetProp { prop, target, value }, q))
}

fn parse_go(t: &Vec<Tok>, p: usize) -> (r: Result<(Stmt, usize), ParseError>)
    requires
        p < t.len(),
        toks_ok(toks_view(t@)),
    ensures
        agrees(r, grammar::go_stmt(toks_view(t@), p as int), p as int, t.len() as int),
{
    let p1 = expect(t, p, "go")?;
    let p2 = eat(t, p1, "to");
    let (d, q) = if is_kw(t, p2, "next") {
        (Destination::NextCard, eat(t, adv(t, p2), "card"))
    } else if is_kw(t, p2, "previous") || is_kw(t, p2, "prev") {
        (Destination::PrevCard, eat(t, adv(t, p2), "card"))
    } else if is_kw(t, p2, "first") {
        (Destination::FirstCard, eat(t, adv(t, p2), "card"))
    } else if is_kw(t, p2, "last") {
        (Destination::LastCard, eat(t, adv(t, p2), "card"))
    } else if is_kw(t, p2, "stack") {
        let (e, q) = parse_primary(t, adv(t, p2))?;
        (Destination::Stack(e), q)
    } else if is_card_word(t, p2) {
        let (e, q) = parse_primary(t, adv(t, p2))?;
        if matches!(e, Expr::Number(_)) {
            (Destination::CardByNumber(e), q)
        } else {
            (Destination::CardByName(e), q)
        }
    } else {
        let (e, q) = parse_primary(t, p2)?;
        (Destination::CardByName(e), q)
    };
    Ok((Stmt::Go(d), q))
}

fn arith_word(t: &Vec<Tok>, p: usize) -> (r: Option<ArithOp>)
    requires
        p < t.len(),
    ensures
        r == grammar::arith_word(toks_view(t@), p as int),
{
    if is_kw(t, p, "add") {
        Some(ArithOp::Add)
    } else if is_kw(t, p, "subtract") {
        Some(ArithOp::Subtract)
    } else if is_kw(t, p, "multiply") {
        Some(ArithOp::Multiply)
    } else if is_kw(t, p, "divide") {
        Some(ArithOp::Divide)
    } else {
        None
    }
}

fn parse_arith(t: &Vec<Tok>, p: usize, op: ArithOp) -> (r: Result<(Stmt, usize), ParseError>)
    requires
        p < t.len(),
        toks_ok(toks_view(t@)),
        grammar::arith_word(toks_view(t@), p as int) == Some(op),
    ensures
        agrees(r, grammar::arith_stmt(toks_view(t@), p as int, op), p as int, t.len() as int),
{
    let p1 = adv(t, p);
    match op {
        ArithOp::Add | ArithOp::Subtract => {
            let (amount, p2) = parse_expr(t, p1)?;
            let p3 = if matches!(op, ArithOp::Add) {
                expect(t, p2, "to")?
            } else {
                expect(t, p2, "from")?
            };
            let (container, q) = parse_container(t, p3)?;
            Ok((Stmt::Arith { op, amount, container }, q))
        },
        _ => {
            let (container, p2) = parse_container(t, p1)?;
            let p3 = expect(t, p2, "by")?;
            let (amount, q) = parse_expr(t, p3)?;
            Ok((Stmt::Arith { op, amount, container }, q))
        },
    }
}

fn parse_send(t: &Vec<Tok>, p: usize) -> (r: Result<(Stmt, usize), ParseError>)
    requires
        p < t.len(),
        toks_ok(toks_view(t@)),
    ensures
        agrees(r, grammar::send_stmt(toks_view(t@), p as int), p as int, t.len() as int),
{
    let (name, p1) = take_word(t, p)?;
    if !at_newline(t, p1) && !at_eof(t, p1) && !is_kw(t, p1, "else") && !is_kw(t, p1, "end") {
        let (args, q) = parse_args_list(t, p1)?;
        Ok((Stmt::Send(name, args), q))
    } else {
        let args: Vec<Expr> = Vec::new();
        assert(exprs_v(args@) =~= Seq::<crate::script::ast::SpecExpr>::empty());
        Ok((Stmt::Send(name, args), p1))
    }
}

/// A list of the given expressions, in order.
fn exprs_of(a: Expr, b: Option<Expr>, c: Option<Expr>) -> (v: Vec<Expr>)
    requires
        c is Some ==> b is Some,
    ensures
        exprs_v(v@) == (match (b, c) {
            (Some(b), Some(c)) => seq![expr_v(a), expr_v(b), expr_v(c)],
            (Some(b), None) => seq![expr_v(a), expr_v(b)],
            _ => seq![expr_v(a)],
        }),
{
    let mut v = Vec::new();
    proof {
        assert(exprs_v(v@) =~= Seq::<crate::script::ast::SpecExpr>::empty());
        lemma_exprs_v_push(v@, a);
    }
    v.push(a);
    if let Some(b) = b {
        proof {
            lemma_exprs_v_push(v@, b);
        }
        v.push(b);
        if let Some(c) = c {
            proof {
                lemma_exprs_v_push(v@, c);
            }
            v.push(c);
        }
    }
    v
}

proof fn lemma_exprs_v_push(s: Seq<Expr>, x: Expr)
    ensures
        exprs_v(s.push(x)) == exprs_v(s).push(expr_v(x)),
{
    assert(s.push(x).drop_last() =~= s);
}

fn parse_get(t: &Vec<Tok>, p: usize) -> (r: Result<(Stmt, usize), ParseError>)
    requires
        p < t.len(),
        toks_ok(toks_view(t@)),
        grammar::is_kw(toks_view(t@), p as int, "get"@),
    ensures
        agrees(r, grammar::get_stmt(toks_view(t@), p as int), p as int, t.len() as int),
{
    let p1 = adv(t, p);
    let p2 = adv(t, p1);
    if is_kw(t, p1, "url") && !at_newline(t, p2) && !at_eof(t, p2) {
        let (e, q) = parse_expr(t, p2)?;
        Ok((Stmt::Send(owned("geturl"), exprs_of(e, None, None)), q))
    } else {
        let (e, q) = parse_expr(t, p1)?;
        Ok((Stmt::Get(e), q))
    }
}

fn parse_open(t: &Vec<Tok>, p: usize) -> (r: Result<(Stmt, usize), ParseError>)
    requires
        p < t.len(),
        toks_ok(toks_view(t@)),
        grammar::is_kw(toks_view(t@), p as int, "open"@),
    ensures
        agrees(r, grammar::open_stmt(toks_view(t@), p as int), p as int, t.len() as int),
{
    let (e, q) = parse_expr(t, eat(t, adv(t, p), "url"))?;
    Ok((Stmt::Send(owned("openurl"), exprs_of(e, None, None)), q))
}

fn parse_ask(t: &Vec<Tok>, p: usize) -> (r: Result<(Stmt, usize), ParseError>)
    requires
        p < t.len(),
        toks_ok(toks_view(t@)),
        grammar::is_kw(toks_view(t@), p as int, "ask"@),
        grammar::is_kw_at(toks_view(t@), p as int, 1, "permission"@),
    ensures
        agrees(r, grammar::ask_stmt(toks_view(t@), p as int), p as int, t.len() as int),
{
    let (e, q) = parse_expr(t, adv(t, adv(t, p)))?;
    Ok((Stmt::Send(owned("askpermission"), exprs_of(e, None, None)), q))
}

#[verifier::spinoff_prover]
#[verifier::rlimit(100)]
fn parse_snackbar(t: &Vec<Tok>, p: usize) -> (r: Result<(Stmt, usize), ParseError>)
    requires
        p < t.len(),
        toks_ok(toks_view(t@)),
        grammar::is_kw(toks_view(t@), p as int, "snackbar"@),
    ensures
        agrees(r, grammar::snackbar_stmt(toks_view(t@), p as int), p as int, t.len() as int),
{
    let (text, p2) = parse_expr(t, adv(t, p))?;
    if is_kw(t, p2, "action") {
        let (label, p3) = parse_expr(t, adv(t, p2))?;
        let p4 = expect(t, p3, "send")?;
        let (msg, q) = parse_expr(t, p4)?;
        Ok((Stmt::Send(owned("snackbar"), exprs_of(text, Some(label), Some(msg))), q))
    } else {
        Ok((Stmt::Send(owned("snackbar"), exprs_of(text, None, None)), p2))
    }
}

#[verifier::spinoff_prover]
#[verifier::rlimit(100)]
fn parse_notify(t: &Vec<Tok>, p: usize) -> (r: Result<(Stmt, usize), ParseError>)
    requires
        p < t.len(),
        toks_ok(toks_view(t@)),
        grammar::is_kw(toks_view(t@), p as int, "notify"@),
    ensures
        agrees(r, grammar::notify_stmt(toks_view(t@), p as int), p as int, t.len() as int),
{
    let (title, p2) = parse_expr(t, adv(t, p))?;
    let (body, p3) = if matches!(&t[p2], Tok::Comma) {
        let (b, p3) = parse_expr(t, adv(t, p2))?;
        (Some(b), p3)
    } else {
        (None, p2)
    };
    if is_kw(t, p3, "send") {
        let (msg, q) = parse_expr(t, adv(t, p3))?;
        match body {
            Some(b) => {
                assert(seq![expr_v(title), expr_v(b)].push(expr_v(msg)) =~= seq![expr_v(title), expr_v(b), expr_v(msg)]);
                Ok((Stmt::Send(owned("notify"), exprs_of(title, Some(b), Some(msg))), q))
            },
            None => {
                assert(seq![expr_v(title)].push(expr_v(msg)) =~= seq![expr_v(title), expr_v(msg)]);
                Ok((Stmt::Send(owned("notify"), exprs_of(title, Some(msg), None)), q))
            },
        }
    } else {
        Ok((Stmt::Send(owned("notify"), exprs_of(title, body, None)), p3))
    }
}

fn parse_repeat_kind(t: &Vec<Tok>, p1: usize) -> (r: Result<(RepeatKind, usize), ParseError>)
    requires
        p1 < t.len(),
        toks_ok(toks_view(t@)),
    ensures
        match r {
            Ok((k, q)) => grammar::repeat_kind(toks_view(t@), p1 as int) == Ok::<_, grammar::SpecParseError>((k@, q as int)) && p1 <= q < t.len(),
            Err(m) => (grammar::repeat_kind(toks_view(t@), p1 as int) matches Err(e) && e == m@),
        },
{
    if is_kw(t, p1, "with") {
        let (var, p3) = take_word(t, adv(t, p1))?;
        if !matches!(&t[p3], Tok::Eq) {
            return Err(expected("'='", t, p3));
        }
        let (from, p5) = parse_expr(t, adv(t, p3))?;
        let p6 = expect(t, p5, "to")?;
        let (to, q) = parse_expr(t, p6)?;
        Ok((RepeatKind::With { var, from, to }, q))
    } else if is_kw(t, p1, "for") {
        let (n, q) = parse_expr(t, adv(t, p1))?;
        Ok((RepeatKind::Times(n), eat(t, q, "times")))
    } else if at_newline(t, p1) {
        Ok((RepeatKind::Times(Expr::Number(owned("0"))), p1))
    } else {
        let (n, q) = parse_expr(t, p1)?;
        Ok((RepeatKind::Times(n), eat(t, q, "times")))
    }
}

fn parse_block(t: &Vec<Tok>, p: usize, else_ends: bool) -> (r: Result<(Vec<Stmt>, usize), ParseError>)
    requires
        p < t.len(),
        toks_ok(toks_view(t@)),
    ensures
        agrees_block(r, grammar::block(toks_view(t@), p as int, else_ends), p as int, t.len() as int),
    decreases t.len() - p, 3int,
{
    let q = skip_newlines(t, p);
    if at_eof(t, q) || is_kw(t, q, "end") || (else_ends && is_kw(t, q, "else")) {
        return Ok((no_stmts(), q));
    }
    let (s, r) = parse_statement(t, q)?;
    let (mut rest, e) = parse_block(t, r, else_ends)?;
    let ghost old_rest = rest@;
    rest.insert(0, s);
    proof {
        lemma_stmts_v_cons(rest@);
        assert(rest@.drop_first() =~= old_rest);
    }
    Ok((rest, e))
}

fn parse_statement(t: &Vec<Tok>, p: usize) -> (r: Result<(Stmt, usize), ParseError>)
    requires
        p < t.len(),
        toks_ok(toks_view(t@)),
    ensures
        agrees(r, grammar::statement(toks_view(t@), p as int), p as int, t.len() as int),
    decreases t.len() - p, 2int,
{
    if !is_word(t, p) {
        return Err(expected("a statement", t, p));
    }
    let (s, q) = if is_kw(t, p, "put") {
        parse_put(t, p)?
    } else if is_kw(t, p, "get") {
        parse_get(t, p)?
    } else if is_kw(t, p, "set") {
        parse_set(t, p)?
    } else if is_kw(t, p, "go") {
        parse_go(t, p)?
    } else if is_kw(t, p, "answer") {
        let (e, q) = parse_expr(t, adv(t, p))?;
        (Stmt::Answer(e), q)
    } else if is_kw(t, p, "beep") {
        (Stmt::Beep, adv(t, p))
    } else if let Some(op) = arith_word(t, p) {
        parse_arith(t, p, op)?
    } else if is_kw(t, p, "if") {
        parse_if(t, p)?
    } else if is_kw(t, p, "repeat") {
        parse_repeat(t, p)?
    } else if is_kw(t, p, "open") {
        parse_open(t, p)?
    } else if is_kw(t, p, "ask") && is_kw_at(t, p, "permission") {
        parse_ask(t, p)?
    } else if is_kw(t, p, "snackbar") {
        parse_snackbar(t, p)?
    } else if is_kw(t, p, "notify") {
        parse_notify(t, p)?
    } else {
        parse_send(t, p)?
    };
    Ok((s, end_statement(t, q)))
}

fn parse_if(t: &Vec<Tok>, p: usize) -> (r: Result<(Stmt, usize), ParseError>)
    requires
        p < t.len(),
        toks_ok(toks_view(t@)),
    ensures
        agrees(r, grammar::if_stmt(toks_view(t@), p as int), p as int, t.len() as int),
    decreases t.len() - p, 1int,
{
    let p1 = expect(t, p, "if")?;
    let (cond, p2) = parse_expr(t, p1)?;
    // `then` may sit on the next line.
    let p4 = expect(t, skip_newlines(t, p2), "then")?;
    if at_newline(t, p4) {
        let p5 = end_statement(t, p4);
        let (then_body, p6) = parse_block(t, p5, true)?;
        let (else_body, p8) = if is_kw(t, p6, "else") {
            let p7 = adv(t, p6);
            if at_newline(t, p7) {
                parse_block(t, end_statement(t, p7), false)?
            } else {
                let (s, q) = parse_statement(t, p7)?;
                (single(s), q)
            }
        } else {
            (no_stmts(), p6)
        };
        let p9 = expect(t, p8, "end")?;
        let q = expect(t, p9, "if")?;
        Ok((Stmt::If { cond, then_body, else_body }, q))
    } else {
        // Single-line form: `if c then STMT [else STMT]`.
        let (s, p5) = parse_statement(t, p4)?;
        if is_kw(t, p5, "else") {
            let (s2, q) = parse_statement(t, adv(t, p5))?;
            Ok((Stmt::If { cond, then_body: single(s), else_body: single(s2) }, q))
        } else {
            Ok((Stmt::If { cond, then_body: single(s), else_body: no_stmts() }, p5))
        }
    }
}

fn parse_repeat(t: &Vec<Tok>, p: usize) -> (r: Result<(Stmt, usize), ParseError>)
    requires
        p < t.len(),
        toks_ok(toks_view(t@)),
    ensures
        agrees(r, grammar::repeat_stmt(toks_view(t@), p as int), p as int, t.len() as int),
    decreases t.len() - p, 1int,
{
    let p1 = expect(t, p, "repeat")?;
    let (kind, p2) = parse_repeat_kind(t, p1)?;
    let p3 = end_statement(t, p2);
    let (body, p4) = parse_block(t, p3, false)?;
    let p5 = expect(t, p4, "end")?;
    let q = expect(t, p5, "repeat")?;
    Ok((Stmt::Repeat { kind, body }, q))
}

// ---- handlers and scripts ----

fn parse_params(t: &Vec<Tok>, p: usize) -> (r: Result<(Vec<String>, usize), ParseError>)
    requires
        p < t.len(),
        toks_ok(toks_view(t@)),
    ensures
        match r {
            Ok((ps, q)) => grammar::param_list(toks_view(t@), p as int) == Ok::<_, grammar::SpecParseError>((strings_v(ps@), q as int)) && p < q < t.len(),
            Err(m) => (grammar::param_list(toks_view(t@), p as int) matches Err(e) && e == m@),
        },
    decreases t.len() - p,
{
    let (w, q) = take_word(t, p)?;
    if matches!(&t[q], Tok::Comma) {
        let (mut rest, r) = parse_params(t, adv(t, q))?;
        let ghost old_rest = strings_v(rest@);
        rest.insert(0, w);
        assert(strings_v(rest@) =~= seq![w@] + old_rest);
        Ok((rest, r))
    } else {
        let mut v = Vec::new();
        v.push(w);
        assert(strings_v(v@) =~= seq![w@]);
        Ok((v, q))
    }
}

fn parse_handler(t: &Vec<Tok>, p: usize) -> (r: Result<(Handler, usize), ParseError>)
    requires
        p < t.len(),
        toks_ok(toks_view(t@)),
    ensures
        agrees(r, grammar::handler(toks_view(t@), p as int), p as int, t.len() as int),
{
    let p1 = expect(t, p, "on")?;
    let (message, p2) = take_word(t, p1)?;
    let (params, p3) = if !at_newline(t, p2) && !at_eof(t, p2) {
        parse_params(t, p2)?
    } else {
        let v: Vec<String> = Vec::new();
        assert(strings_v(v@) =~= Seq::<Seq<char>>::empty());
        (v, p2)
    };
    let (body, p4) = parse_block(t, end_statement(t, p3), false)?;
    let p5 = expect(t, p4, "end")?;
    // `end <message>`: a missing or different trailing name is tolerated.
    let p6 = if is_word(t, p5) {
        adv(t, p5)
    } else {
        p5
    };
    Ok((Handler { message, params, body }, end_statement(t, p6)))
}

fn parse_handlers(t: &Vec<Tok>, p: usize) -> (r: Result<(Vec<Handler>, usize), ParseError>)
    requires
        p < t.len(),
        toks_ok(toks_view(t@)),
    ensures
        match r {
            Ok((hs, q)) => grammar::handlers(toks_view(t@), p as int) == Ok::<_, grammar::SpecParseError>((handlers_v(hs@), q as int)),
            Err(m) => (grammar::handlers(toks_view(t@), p as int) matches Err(e) && e == m@),
        },
    decreases t.len() - p,
{
    if at_eof(t, p) {
        let v: Vec<Handler> = Vec::new();
        assert(handlers_v(v@) =~= Seq::<crate::script::ast::SpecHandler>::empty());
        return Ok((v, p));
    }
    let (h, q) = parse_handler(t, p)?;
    let r = skip_newlines(t, q);
    let (mut rest, e) = parse_handlers(t, r)?;
    let ghost old_rest = handlers_v(rest@);
    rest.insert(0, h);
    assert(handlers_v(rest@) =~= seq![handler_v(h)] + old_rest);
    Ok((rest, e))
}

/// Parses HyperTalk source into its handlers. Fails with the tokenizer's message when
/// the source does not tokenize, and with the first parse error when it does not parse.
pub fn parse_script(src: &str) -> (r: Result<Script, ParseError>)
    ensures
        match r {
            Ok(s) => script_result(src@) == Ok::<crate::script::ast::SpecScript, grammar::SpecParseError>(script_v(s)),
            Err(e) => (script_result(src@) matches Err(x) && x == e@),
        },
{
    let toks = match lex(src) {
        Ok(ts) => ts,
        Err(m) => return Err(ParseError::Lex(m)),
    };
    proof {
        lemma_lex_well_formed(src@);
    }
    let p = skip_newlines(&toks, 0);
    let (handlers, _) = parse_handlers(&toks, p)?;
    Ok(Script { handlers })
}

} // verus!
