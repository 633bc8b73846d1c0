//! Abstract syntax for the HyperTalk subset, and its mathematical counterpart (the
//! `Spec*` types, where strings are character sequences and lists are sequences) that
//! the parser's specification speaks of.

use vstd::prelude::*;

verus! {

pub struct Script {
    pub handlers: Vec<Handler>,
}

pub struct Handler {
    /// Message name, lowercased (e.g. "mouseup", "opencard").
    pub message: String,
    pub params: Vec<String>,
    pub body: Vec<Stmt>,
}

#[derive(Debug, Clone, Copy, PartialEq, Eq, Structural)]
pub enum Layer {
    Card,
    Background,
}

/// How a field or button is selected within its layer.
pub enum Selector {
    ByName(Expr),
    ByNumber(Expr),
}

pub struct FieldRef {
    pub layer: Layer,
    pub selector: Selector,
}

pub struct ButtonRef {
    pub layer: Layer,
    pub selector: Selector,
}

/// A place a value can be written to.
pub enum Container {
    Variable(String),
    It,
    Field(FieldRef),
}

/// Any object a property can be read from / written to.
pub enum ObjectRef {
    Me,
    Field(FieldRef),
    Button(ButtonRef),
    Card,
    Stack,
}

pub enum Destination {
    NextCard,
    PrevCard,
    FirstCard,
    LastCard,
    CardByName(Expr),
    CardByNumber(Expr),
    /// `go [to] stack EXPR`: the host loads the named stack.
    Stack(Expr),
}

#[derive(Debug, Clone, Copy, PartialEq, Eq, Structural)]
pub enum ArithOp {
    Add,
    Subtract,
    Multiply,
    Divide,
}

#[derive(Debug, Clone, Copy, PartialEq, Eq, Structural)]
pub enum BinOp {
    Add,
    Sub,
    Mul,
    Div,
    Mod,
    Eq,
    Ne,
    Lt,
    Gt,
    Le,
    Ge,
    And,
    Or,
    /// `&`
    Concat,
    /// `&&`
    ConcatSpace,
}

pub enum Stmt {
    /// `put EXPR [into|before|after CONTAINER]`. No container = message box.
    Put { value: Expr, container: Option<Container> },
    /// `get EXPR` -> stores into `it`.
    Get(Expr),
    /// `set PROP of OBJECT to EXPR`.
    SetProp { prop: String, target: ObjectRef, value: Expr },
    /// `go [to] DESTINATION`.
    Go(Destination),
    /// `answer EXPR`.
    Answer(Expr),
    /// `beep`.
    Beep,
    /// `add EXPR to CONTAINER`, etc.
    Arith { op: ArithOp, amount: Expr, container: Container },
    If { cond: Expr, then_body: Vec<Stmt>, else_body: Vec<Stmt> },
    /// `repeat [with v = a to b] | [N times]` ... `end repeat`.
    Repeat { kind: RepeatKind, body: Vec<Stmt> },
    /// A bare message send (e.g. a custom command or `mouseUp`).
    Send(String, Vec<Expr>),
}

pub enum RepeatKind {
    Times(Expr),
    With { var: String, from: Expr, to: Expr },
}

pub enum Expr {
    Str(String),
    /// A number literal, as its source text (digits with at most one `.`).
    Number(String),
    /// A bare word: variable, `it`, or a literal constant (true/false/empty/...).
    Var(String),
    Unary(UnOp, Box<Expr>),
    Binary(BinOp, Box<Expr>, Box<Expr>),
    /// `the PROP of OBJECT`.
    Property { name: String, target: Box<ObjectRef> },
    /// Reading a field's contents as a value.
    FieldContents(Box<FieldRef>),
    /// `the number of cards`, `length(x)`, etc.
    Call(String, Vec<Expr>),
}

#[derive(Debug, Clone, Copy, PartialEq, Eq, Structural)]
pub enum UnOp {
    Neg,
    Not,
}

// ---- the mathematical syntax tree ----

pub struct SpecScript {
    pub handlers: Seq<SpecHandler>,
}

pub struct SpecHandler {
    pub message: Seq<char>,
    pub params: Seq<Seq<char>>,
    pub body: Seq<SpecStmt>,
}

pub enum SpecSelector {
    ByName(SpecExpr),
    ByNumber(SpecExpr),
}

pub struct SpecFieldRef {
    pub layer: Layer,
    pub selector: SpecSelector,
}

pub enum SpecContainer {
    Variable(Seq<char>),
    It,
    Field(SpecFieldRef),
}

pub enum SpecObjectRef {
    Me,
    Field(SpecFieldRef),
    Button(SpecFieldRef),
    Card,
    Stack,
}

pub enum SpecDestination {
    NextCard,
    PrevCard,
    FirstCard,
    LastCard,
    CardByName(SpecExpr),
    CardByNumber(SpecExpr),
    Stack(SpecExpr),
}

pub enum SpecStmt {
    Put { value: SpecExpr, container: Option<SpecContainer> },
    Get(SpecExpr),
    SetProp { prop: Seq<char>, target: SpecObjectRef, value: SpecExpr },
    Go(SpecDestination),
    Answer(SpecExpr),
    Beep,
    Arith { op: ArithOp, amount: SpecExpr, container: SpecContainer },
    If { cond: SpecExpr, then_body: Seq<SpecStmt>, else_body: Seq<SpecStmt> },
    Repeat { kind: SpecRepeatKind, body: Seq<SpecStmt> },
    Send(Seq<char>, Seq<SpecExpr>),
}

pub enum SpecRepeatKind {
    Times(SpecExpr),
    With { var: Seq<char>, from: SpecExpr, to: SpecExpr },
}

pub enum SpecExpr {
    Str(Seq<char>),
    Number(Seq<char>),
    Var(Seq<char>),
    Unary(UnOp, Box<SpecExpr>),
    Binary(BinOp, Box<SpecExpr>, Box<SpecExpr>),
    Property { name: Seq<char>, target: Box<SpecObjectRef> },
    FieldContents(Box<SpecFieldRef>),
    Call(Seq<char>, Seq<SpecExpr>),
}

// ---- views ----

pub open spec fn expr_v(e: Expr) -> SpecExpr
    decreases e,
{
    match e {
        Expr::Str(s) => SpecExpr::Str(s@),
        Expr::Number(n) => SpecExpr::Number(n@),
        Expr::Var(v) => SpecExpr::Var(v@),
        Expr::Unary(op, a) => SpecExpr::Unary(op, Box::new(expr_v(*a))),
        Expr::Binary(op, a, b) => SpecExpr::Binary(op, Box::new(expr_v(*a)), Box::new(expr_v(*b))),
        Expr::Property { name, target } => SpecExpr::Property {
            name: name@,
            target: Box::new(objref_v(*target)),
        },
        Expr::FieldContents(f) => SpecExpr::FieldContents(Box::new(fieldref_v(*f))),
        Expr::Call(n, args) => SpecExpr::Call(n@, exprs_v(args@)),
    }
}

pub open spec fn exprs_v(s: Seq<Expr>) -> Seq<SpecExpr>
    decreases s,
{
    if s.len() == 0 {
        Seq::empty()
    } else {
        exprs_v(s.drop_last()).push(expr_v(s.last()))
    }
}

pub open spec fn selector_v(s: Selector) -> SpecSelector
    decreases s,
{
    match s {
        Selector::ByName(e) => SpecSelector::ByName(expr_v(e)),
        Selector::ByNumber(e) => SpecSelector::ByNumber(expr_v(e)),
    }
}

pub open spec fn fieldref_v(f: FieldRef) -> SpecFieldRef
    decreases f,
{
    SpecFieldRef { layer: f.layer, selector: selector_v(f.selector) }
}

pub open spec fn buttonref_v(b: ButtonRef) -> SpecFieldRef
    decreases b,
{
    SpecFieldRef { layer: b.layer, selector: selector_v(b.selector) }
}

pub open spec fn objref_v(o: ObjectRef) -> SpecObjectRef
    decreases o,
{
    match o {
        ObjectRef::Me => SpecObjectRef::Me,
        ObjectRef::Field(f) => SpecObjectRef::Field(fieldref_v(f)),
        ObjectRef::Button(b) => SpecObjectRef::Button(buttonref_v(b)),
        ObjectRef::Card => SpecObjectRef::Card,
        ObjectRef::Stack => SpecObjectRef::Stack,
    }
}

pub open spec fn container_v(c: Container) -> SpecContainer {
    match c {
        Container::Variable(n) => SpecContainer::Variable(n@),
        Container::It => SpecContainer::It,
        Container::Field(f) => SpecContainer::Field(fieldref_v(f)),
    }
}

pub open spec fn dest_v(d: Destination) -> SpecDestination {
    match d {
        Destination::NextCard => SpecDestination::NextCard,
        Destination::PrevCard => SpecDestination::PrevCard,
        Destination::FirstCard => SpecDestination::FirstCard,
        Destination::LastCard => SpecDestination::LastCard,
        Destination::CardByName(e) => SpecDestination::CardByName(expr_v(e)),
        Destination::CardByNumber(e) => SpecDestination::CardByNumber(expr_v(e)),
        Destination::Stack(e) => SpecDestination::Stack(expr_v(e)),
    }
}

pub open spec fn repeat_kind_v(k: RepeatKind) -> SpecRepeatKind {
    match k {
        RepeatKind::Times(e) => SpecRepeatKind::Times(expr_v(e)),
        RepeatKind::With { var, from, to } => SpecRepeatKind::With {
            var: var@,
            from: expr_v(from),
            to: expr_v(to),
        },
    }
}

pub open spec fn stmt_v(s: Stmt) -> SpecStmt
    decreases s,
{
    match s {
        Stmt::Put { value, container } => SpecStmt::Put {
            value: expr_v(value),
            container: match container {
                Some(c) => Some(container_v(c)),
                None => None,
            },
        },
        Stmt::Get(e) => SpecStmt::Get(expr_v(e)),
        Stmt::SetProp { prop, target, value } => SpecStmt::SetProp {
            prop: prop@,
            target: objref_v(target),
            value: expr_v(value),
        },
        Stmt::Go(d) => SpecStmt::Go(dest_v(d)),
        Stmt::Answer(e) => SpecStmt::Answer(expr_v(e)),
        Stmt::Beep => SpecStmt::Beep,
        Stmt::Arith { op, amount, container } => SpecStmt::Arith {
            op,
            amount: expr_v(amount),
            container: container_v(container),
        },
        Stmt::If { cond, then_body, else_body } => SpecStmt::If {
            cond: expr_v(cond),
            then_body: stmts_v(then_body@),
            else_body: stmts_v(else_body@),
        },
        Stmt::Repeat { kind, body } => SpecStmt::Repeat {
            kind: repeat_kind_v(kind),
            body: stmts_v(body@),
        },
        Stmt::Send(n, args) => SpecStmt::Send(n@, exprs_v(args@)),
    }
}

pub open spec fn stmts_v(s: Seq<Stmt>) -> Seq<SpecStmt>
    decreases s,
{
    if s.len() == 0 {
        Seq::empty()
    } else {
        stmts_v(s.drop_last()).push(stmt_v(s.last()))
    }
}

pub open spec fn strings_v(s: Seq<String>) -> Seq<Seq<char>> {
    s.map_values(|x: String| x@)
}

pub open spec fn handler_v(h: Handler) -> SpecHandler {
    SpecHandler { message: h.message@, params: strings_v(h.params@), body: stmts_v(h.body@) }
}

pub open spec fn handlers_v(s: Seq<Handler>) -> Seq<SpecHandler> {
    s.map_values(|h: Handler| handler_v(h))
}

pub open spec fn script_v(s: Script) -> SpecScript {
    SpecScript { handlers: handlers_v(s.handlers@) }
}

} // verus!
