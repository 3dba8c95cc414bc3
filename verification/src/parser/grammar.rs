//! What the parser yields, as spec functions over the token sequence.

use vstd::prelude::*;
use crate::lexer::token::{kind_debug, kind_eq, token_debug, Token, TokenKind};
use crate::parser::ast::{Expr, ExprKind, NodeId, Span, Stmt, StmtKind, Type};
use crate::parser::precedence::{documented_level, level, precedence_of, Precedence};
use crate::error::{ParseError, ParseResult};
use crate::parser::debug::view_debug;
use crate::parser::{compound_op, expected_message, sync_from, token_span};

verus! {

/// An expression's content as a mathematical value: lists are sequences.
#[verifier::ext_equal]
pub ghost enum EKind {
    Integer(u16),
    Bool(bool),
    Ident(String),
    Array(Seq<EView>),
    Increment { prefix: bool, expr: Box<EView> },
    Decrement { prefix: bool, expr: Box<EView> },
    Unary { op: TokenKind, rhs: Box<EView> },
    Binary { lhs: Box<EView>, op: TokenKind, rhs: Box<EView> },
    Assignment { target: Box<EView>, value: Box<EView> },
    Call { callee: Box<EView>, args: Seq<EView> },
    Subscript { array: Box<EView>, index: Box<EView> },
    MemberAccess { object: Box<EView>, name: String },
    StaticAccess { target: Box<EView>, member: String },
    StructInit { name: Box<EView>, fields: Seq<(String, EView)> },
}

/// An expression as a mathematical value.
#[verifier::ext_equal]
pub ghost struct EView {
    pub node: EKind,
    pub span: Span,
    pub id: NodeId,
}

/// A value standing outside any sequence's bounds.
pub open spec fn filler() -> EView {
    EView { node: EKind::Integer(0), span: Span { start: 0, end: 0 }, id: NodeId(0) }
}

/// The value of an expression.
pub open spec fn ev(e: Expr) -> EView
    decreases e,
{
    EView { node: ek(e.node), span: e.span, id: e.id }
}

/// The value of an expression's content.
pub open spec fn ek(k: ExprKind) -> EKind
    decreases k,
{
    match k {
        ExprKind::Integer(v) => EKind::Integer(v),
        ExprKind::Bool(b) => EKind::Bool(b),
        ExprKind::Ident(n) => EKind::Ident(n),
        ExprKind::Array(items) => EKind::Array(
            Seq::new(
                items@.len(),
                |i: int|
                    if 0 <= i < items@.len() {
                        ev(items@[i])
                    } else {
                        filler()
                    },
            ),
        ),
        ExprKind::Increment { prefix, expr } => EKind::Increment { prefix, expr: Box::new(ev(*expr)) },
        ExprKind::Decrement { prefix, expr } => EKind::Decrement { prefix, expr: Box::new(ev(*expr)) },
        ExprKind::Unary { op, rhs } => EKind::Unary { op, rhs: Box::new(ev(*rhs)) },
        ExprKind::Binary { lhs, op, rhs } => EKind::Binary {
            lhs: Box::new(ev(*lhs)),
            op,
            rhs: Box::new(ev(*rhs)),
        },
        ExprKind::Assignment { target, value } => EKind::Assignment {
            target: Box::new(ev(*target)),
            value: Box::new(ev(*value)),
        },
        ExprKind::Call { callee, args } => EKind::Call {
            callee: Box::new(ev(*callee)),
            args: Seq::new(
                args@.len(),
                |i: int|
                    if 0 <= i < args@.len() {
                        ev(args@[i])
                    } else {
                        filler()
                    },
            ),
        },
        ExprKind::Subscript { array, index } => EKind::Subscript {
            array: Box::new(ev(*array)),
            index: Box::new(ev(*index)),
        },
        ExprKind::MemberAccess { object, name } => EKind::MemberAccess { object: Box::new(ev(*object)), name },
        ExprKind::StaticAccess { target, member } => EKind::StaticAccess { target: Box::new(ev(*target)), member },
        ExprKind::StructInit { name, fields } => EKind::StructInit {
            name: Box::new(ev(*name)),
            fields: Seq::new(
                fields@.len(),
                |i: int|
                    if 0 <= i < fields@.len() {
                        (fields@[i].0, ev(fields@[i].1))
                    } else {
                        (fields@[0].0, filler())
                    },
            ),
        },
    }
}

/// A statement's content as a mathematical value: lists are sequences.
#[verifier::ext_equal]
pub ghost enum SKind {
    VarDecl { name: String, ty: Option<Type>, value: EView, mutable: bool },
    Expr(EView),
    Block(Seq<SView>),
    Return(Option<EView>),
    If { cond: EView, then_branch: Box<SView>, else_branch: Option<Box<SView>> },
    While { cond: EView, body: Box<SView> },
    Fn { name: String, params: Seq<(Seq<char>, Type)>, return_type: Option<Type>, body: Box<SView> },
    Struct { name: String, members: Seq<SView> },
    StructField { name: String, ty: Type },
}

/// A statement as a mathematical value.
#[verifier::ext_equal]
pub ghost struct SView {
    pub node: SKind,
    pub span: Span,
    pub id: NodeId,
}

/// A value standing outside any sequence's bounds.
pub open spec fn sfiller() -> SView {
    SView { node: SKind::Return(None), span: Span { start: 0, end: 0 }, id: NodeId(0) }
}

/// The value of a statement.
pub open spec fn sv(s: Stmt) -> SView
    decreases s,
{
    SView {
        node: match s.node {
            StmtKind::VarDecl { name, ty, value, mutable } => SKind::VarDecl { name, ty, value: ev(value), mutable },
            StmtKind::Expr(e) => SKind::Expr(ev(e)),
            StmtKind::Block(stmts) => SKind::Block(
                Seq::new(
                    stmts@.len(),
                    |i: int|
                        if 0 <= i < stmts@.len() {
                            sv(stmts@[i])
                        } else {
                            sfiller()
                        },
                ),
            ),
            StmtKind::Return(e) => SKind::Return(
                match e {
                    Some(e) => Some(ev(e)),
                    None => None,
                },
            ),
            StmtKind::If { cond, then_branch, else_branch } => SKind::If {
                cond: ev(cond),
                then_branch: Box::new(sv(*then_branch)),
                else_branch: match else_branch {
                    Some(b) => Some(Box::new(sv(*b))),
                    None => None,
                },
            },
            StmtKind::While { cond, body } => SKind::While { cond: ev(cond), body: Box::new(sv(*body)) },
            StmtKind::Fn { name, params, return_type, body } => SKind::Fn {
                name,
                params: pvs(params@),
                return_type,
                body: Box::new(sv(*body)),
            },
            StmtKind::Struct { name, members } => SKind::Struct {
                name,
                members: Seq::new(
                    members@.len(),
                    |i: int|
                        if 0 <= i < members@.len() {
                            sv(members@[i])
                        } else {
                            sfiller()
                        },
                ),
            },
            StmtKind::StructField { name, ty } => SKind::StructField { name, ty },
        },
        span: s.span,
        id: s.id,
    }
}

/// The value of a statement's content.
pub open spec fn sk(k: StmtKind) -> SKind {
    sv(Stmt { node: k, span: Span { start: 0, end: 0 }, id: NodeId(0) }).node
}

/// The value of a statement holds the value of its content.
pub proof fn lemma_sv_node(s: Stmt)
    ensures
        sv(s).node == sk(s.node),
        sv(s).span == s.span,
        sv(s).id == s.id,
{
    let t = Stmt { node: s.node, span: Span { start: 0, end: 0 }, id: NodeId(0) };
    assert(sv(s).node =~= sv(t).node);
}

/// Parameters as names and types.
pub open spec fn pvs(ps: Seq<(String, Type)>) -> Seq<(Seq<char>, Type)> {
    ps.map_values(|p: (String, Type)| (p.0@, p.1))
}

/// The values of a list of expressions.
pub open spec fn evs(es: Seq<Expr>) -> Seq<EView> {
    es.map_values(|e: Expr| ev(e))
}

/// The values of a list of statements.
pub open spec fn svs(ss: Seq<Stmt>) -> Seq<SView> {
    ss.map_values(|s: Stmt| sv(s))
}

/// The value of an array literal holds the values of its items.
pub proof fn lemma_ek_array(items: Vec<Expr>)
    ensures
        ek(ExprKind::Array(items)) == EKind::Array(evs(items@)),
{
    assert(ek(ExprKind::Array(items))->Array_0 =~= evs(items@));
}

/// The value of a call holds the values of its arguments.
pub proof fn lemma_ek_call(callee: Box<Expr>, args: Vec<Expr>)
    ensures
        ek(ExprKind::Call { callee, args }) == (EKind::Call { callee: Box::new(ev(*callee)), args: evs(args@) }),
{
    assert(ek(ExprKind::Call { callee, args })->Call_args =~= evs(args@));
}

/// The value of a struct literal holds the values of its fields.
pub proof fn lemma_ek_struct_init(name: Box<Expr>, fields: Vec<(String, Expr)>)
    ensures
        ek(ExprKind::StructInit { name, fields }) == (EKind::StructInit {
            name: Box::new(ev(*name)),
            fields: fvs(fields@),
        }),
{
    assert(ek(ExprKind::StructInit { name, fields })->StructInit_fields =~= fvs(fields@));
}

/// The value of a block holds the values of its statements.
pub proof fn lemma_sv_block(s: Stmt)
    requires
        s.node is Block,
    ensures
        sv(s).node == SKind::Block(svs(s.node->Block_0@)),
{
    assert(sv(s).node->Block_0 =~= svs(s.node->Block_0@));
}

/// The value of a struct declaration holds the values of its members.
pub proof fn lemma_sv_struct(s: Stmt)
    requires
        s.node is Struct,
    ensures
        sv(s).node == (SKind::Struct { name: s.node->Struct_name, members: svs(s.node->Struct_members@) }),
{
    assert(sv(s).node->Struct_members =~= svs(s.node->Struct_members@));
}

/// A parse error as values: its message and span.
pub ghost struct PErr {
    pub message: Seq<char>,
    pub span: Span,
}

/// A parse error's message and span.
pub open spec fn perr(e: ParseError) -> PErr {
    PErr { message: e.message@, span: e.span }
}

/// A parse result with its error as values.
pub open spec fn lift<T>(r: ParseResult<T>) -> Result<T, PErr> {
    match r {
        Ok(x) => Ok(x),
        Err(e) => Err(perr(e)),
    }
}

/// A parsed expression as a value.
pub open spec fn lift_expr(r: ParseResult<Expr>) -> Result<EView, PErr> {
    match r {
        Ok(e) => Ok(ev(e)),
        Err(e) => Err(perr(e)),
    }
}

/// A parsed statement as a value.
pub open spec fn lift_stmt(r: ParseResult<Stmt>) -> Result<SView, PErr> {
    match r {
        Ok(s) => Ok(sv(s)),
        Err(e) => Err(perr(e)),
    }
}

/// A parsed list of expressions as values.
pub open spec fn lift_exprs(r: ParseResult<Vec<Expr>>) -> Result<Seq<EView>, PErr> {
    match r {
        Ok(v) => Ok(evs(v@)),
        Err(e) => Err(perr(e)),
    }
}

/// The fields of a struct literal as values.
pub open spec fn fvs(fs: Seq<(String, Expr)>) -> Seq<(String, EView)> {
    fs.map_values(|f: (String, Expr)| (f.0, ev(f.1)))
}

/// Parsed struct literal fields as values.
pub open spec fn lift_fields(r: ParseResult<Vec<(String, Expr)>>) -> Result<Seq<(String, EView)>, PErr> {
    match r {
        Ok(v) => Ok(fvs(v@)),
        Err(e) => Err(perr(e)),
    }
}

/// Where the parser stands: the position of the next token, and the identity
/// the next node gets.
pub ghost struct PState {
    pub pos: int,
    pub id: NodeId,
}

/// The outcome of parsing something: the value or the error, and where the
/// parser then stands.
pub type POut<T> = (Result<T, PErr>, PState);

/// The outcome where parsing could not advance; positions always advance
/// (see the parser's contracts), so no parse ends here.
pub open spec fn stuck<T>(st: PState) -> POut<T> {
    (Err(PErr { message: Seq::empty(), span: Span { start: 0, end: 0 } }), st)
}

/// Whether the parser stands at a token.
pub open spec fn in_range(toks: Seq<Token>, st: PState) -> bool {
    0 <= st.pos < toks.len()
}

/// The next token.
pub open spec fn cur(toks: Seq<Token>, st: PState) -> Token {
    toks[st.pos]
}

/// Reading the next token: the end marker is never passed.
pub open spec fn advance(toks: Seq<Token>, st: PState) -> PState {
    if in_range(toks, st) && !(toks[st.pos].kind is Eof) {
        PState { pos: st.pos + 1, ..st }
    } else {
        st
    }
}

/// The identity after `n`.
pub open spec fn next_node(n: NodeId) -> NodeId {
    NodeId(
        if n.0 == usize::MAX {
            0
        } else {
            (n.0 + 1) as usize
        },
    )
}

/// Handing out the next node identity.
pub open spec fn fresh(st: PState) -> PState {
    PState { id: next_node(st.id), ..st }
}

/// Whether the next token is of kind `k` (never the end marker).
pub open spec fn at(toks: Seq<Token>, st: PState, k: TokenKind) -> bool {
    in_range(toks, st) && !(toks[st.pos].kind is Eof) && kind_eq(toks[st.pos].kind, k)
}

/// Reading a token of kind `k`, or the error that names it.
pub open spec fn consume(toks: Seq<Token>, st: PState, k: TokenKind) -> POut<Token> {
    if at(toks, st, k) {
        (Ok(toks[st.pos]), advance(toks, st))
    } else {
        (Err(PErr { message: expected_message(k, toks[st.pos]), span: token_span(toks[st.pos]) }), st)
    }
}

/// Reading a name.
pub open spec fn consume_ident(toks: Seq<Token>, st: PState) -> POut<String> {
    match toks[st.pos].kind {
        TokenKind::Ident(n) => (Ok(n), advance(toks, st)),
        _ => (
            Err(
                PErr {
                    message: "Expected identifier, got "@ + token_debug(toks[st.pos]),
                    span: token_span(toks[st.pos]),
                },
            ),
            st,
        ),
    }
}

/// Reading an integer literal.
pub open spec fn consume_integer(toks: Seq<Token>, st: PState) -> POut<u16> {
    match toks[st.pos].kind {
        TokenKind::Integer(v) => (Ok(v), advance(toks, st)),
        _ => (
            Err(
                PErr {
                    message: "Expected integer, got "@ + token_debug(toks[st.pos]),
                    span: token_span(toks[st.pos]),
                },
            ),
            st,
        ),
    }
}

/// A type: `int`/`i16`, `bool`, a name, `*type` or `[type; n]`.
pub open spec fn p_type(toks: Seq<Token>, st: PState) -> POut<Type>
    decreases toks.len() - st.pos,
{
    if at(toks, st, TokenKind::Star) {
        match p_type(toks, advance(toks, st)) {
            (Ok(t), s1) => (Ok(Type::Pointer(Box::new(t))), s1),
            (Err(e), s1) => (Err(e), s1),
        }
    } else if at(toks, st, TokenKind::LeftBracket) {
        match p_type(toks, advance(toks, st)) {
            (Ok(elem), s1) => match consume(toks, s1, TokenKind::Semi) {
                (Ok(_), s2) => match consume_integer(toks, s2) {
                    (Ok(size), s3) => match consume(toks, s3, TokenKind::RightBracket) {
                        (Ok(_), s4) => (Ok(Type::Array { ty: Box::new(elem), size }), s4),
                        (Err(e), s4) => (Err(e), s4),
                    },
                    (Err(e), s3) => (Err(e), s3),
                },
                (Err(e), s2) => (Err(e), s2),
            },
            (Err(e), s1) => (Err(e), s1),
        }
    } else {
        let t = toks[st.pos];
        let s1 = advance(toks, st);
        match t.kind {
            TokenKind::I16 => (Ok(Type::I16), s1),
            TokenKind::Bool => (Ok(Type::Bool), s1),
            TokenKind::Ident(n) => (Ok(Type::Struct(n)), s1),
            _ => (
                Err(
                    PErr {
                        message: "Expected type, got "@ + kind_debug(t.kind),
                        span: token_span(toks[s1.pos - 1]),
                    },
                ),
                s1,
            ),
        }
    }
}

/// An expression whose operators all bind tighter than `bp`: an operand, then
/// as long as the next operator binds tighter, that operator applied.
pub open spec fn p_expr(toks: Seq<Token>, st: PState, bp: Precedence) -> POut<EView>
    decreases toks.len() - st.pos, 2int,
{
    match p_prefix(toks, st) {
        (Ok(left), s1) => if st.pos <= s1.pos <= toks.len() {
            p_expr_rest(toks, s1, bp, left)
        } else {
            stuck(s1)
        },
        (Err(e), s1) => (Err(e), s1),
    }
}

/// The operators that continue `left` while they bind tighter than `bp`.
pub open spec fn p_expr_rest(toks: Seq<Token>, st: PState, bp: Precedence, left: EView) -> POut<EView>
    decreases toks.len() - st.pos, 1int,
{
    if in_range(toks, st) && level(bp) < level(precedence_of(toks[st.pos].kind)) {
        match p_infix(toks, st, left) {
            (Ok(e), s1) => if st.pos < s1.pos <= toks.len() {
                p_expr_rest(toks, s1, bp, e)
            } else {
                stuck(s1)
            },
            (Err(e), s1) => (Err(e), s1),
        }
    } else {
        (Ok(left), st)
    }
}

/// The expression that starts at the next token: a literal, a name, a prefix
/// operator applied to an operand, a parenthesized expression, or an array
/// literal.
pub open spec fn p_prefix(toks: Seq<Token>, st: PState) -> POut<EView>
    decreases toks.len() - st.pos, 1int,
{
    if !in_range(toks, st) {
        stuck(st)
    } else {
        let token = toks[st.pos];
        let s1 = advance(toks, st);
        let span = token_span(token);
        match token.kind {
            TokenKind::True => (Ok(EView { node: EKind::Bool(true), span, id: s1.id }), fresh(s1)),
            TokenKind::False => (Ok(EView { node: EKind::Bool(false), span, id: s1.id }), fresh(s1)),
            TokenKind::Integer(v) => (Ok(EView { node: EKind::Integer(v), span, id: s1.id }), fresh(s1)),
            TokenKind::Ident(n) => (Ok(EView { node: EKind::Ident(n), span, id: s1.id }), fresh(s1)),
            TokenKind::PlusPlus => match p_expr(toks, s1, Precedence::Prefix) {
                (Ok(rhs), s2) => (
                    Ok(
                        EView {
                            node: EKind::Increment { prefix: true, expr: Box::new(rhs) },
                            span: Span { start: span.start, end: rhs.span.end },
                            id: s2.id,
                        },
                    ),
                    fresh(s2),
                ),
                (Err(e), s2) => (Err(e), s2),
            },
            TokenKind::MinusMinus => match p_expr(toks, s1, Precedence::Prefix) {
                (Ok(rhs), s2) => (
                    Ok(
                        EView {
                            node: EKind::Decrement { prefix: true, expr: Box::new(rhs) },
                            span: Span { start: span.start, end: rhs.span.end },
                            id: s2.id,
                        },
                    ),
                    fresh(s2),
                ),
                (Err(e), s2) => (Err(e), s2),
            },
            TokenKind::LeftBracket => match p_expr_list(toks, s1, TokenKind::RightBracket) {
                (Ok(elems), s2) => (Ok(EView { node: EKind::Array(elems), span, id: s2.id }), fresh(s2)),
                (Err(e), s2) => (Err(e), s2),
            },
            TokenKind::Minus | TokenKind::Bang | TokenKind::Star | TokenKind::BitAnd
            | TokenKind::BitNot => match p_expr(toks, s1, Precedence::Prefix) {
                (Ok(rhs), s2) => (
                    Ok(
                        EView {
                            node: EKind::Unary { op: token.kind, rhs: Box::new(rhs) },
                            span: Span { start: span.start, end: rhs.span.end },
                            id: s2.id,
                        },
                    ),
                    fresh(s2),
                ),
                (Err(e), s2) => (Err(e), s2),
            },
            TokenKind::LeftParen => match p_expr(toks, s1, Precedence::Lowest) {
                (Ok(inner), s2) => if in_range(toks, s2) && toks[s2.pos].kind is RightParen {
                    (Ok(inner), advance(toks, s2))
                } else {
                    (Err(PErr { message: "Expected ')'"@, span }), s2)
                },
                (Err(e), s2) => (Err(e), s2),
            },
            _ => (Err(PErr { message: "Unexpected token: "@ + token_debug(token), span }), s1),
        }
    }
}

/// Whether an expression may stand left of `=`: a name or a dereference.
pub open spec fn assignable(e: EView) -> bool {
    e.node is Ident || (e.node matches EKind::Unary { op, .. } && op is Star)
}

/// `lhs` continued by the operator at the next token: an assignment (`x op= v`
/// stands for `x = x op v`), a postfix increment or decrement, a call, a
/// subscript, a member or static access, a struct literal, or a binary
/// operator whose right operand binds tighter.
pub open spec fn p_infix(toks: Seq<Token>, st: PState, lhs: EView) -> POut<EView>
    decreases toks.len() - st.pos, 0int,
{
    if !in_range(toks, st) {
        stuck(st)
    } else {
        let op = toks[st.pos];
        let s1 = advance(toks, st);
        match op.kind {
            TokenKind::Equal | TokenKind::PlusEqual | TokenKind::MinusEqual
            | TokenKind::StarEqual | TokenKind::SlashEqual | TokenKind::PercentEqual => match p_expr(
                toks,
                s1,
                Precedence::Lowest,
            ) {
                (Ok(value), s2) => if !assignable(lhs) {
                    (Err(PErr { message: "Assigning to a non-variable: "@ + view_debug(lhs), span: token_span(op) }), s2)
                } else {
                    let span = Span { start: lhs.span.start, end: value.span.end };
                    let (v, s3) = match compound_op(op.kind) {
                        Some(bop) => (
                            EView {
                                node: EKind::Binary { lhs: Box::new(lhs), op: bop, rhs: Box::new(value) },
                                span,
                                id: s2.id,
                            },
                            fresh(s2),
                        ),
                        None => (value, s2),
                    };
                    (
                        Ok(
                            EView {
                                node: EKind::Assignment { target: Box::new(lhs), value: Box::new(v) },
                                span,
                                id: s3.id,
                            },
                        ),
                        fresh(s3),
                    )
                },
                (Err(e), s2) => (Err(e), s2),
            },
            TokenKind::PlusPlus => (
                Ok(
                    EView {
                        node: EKind::Increment { prefix: false, expr: Box::new(lhs) },
                        span: Span { start: lhs.span.start, end: op.end },
                        id: s1.id,
                    },
                ),
                fresh(s1),
            ),
            TokenKind::MinusMinus => (
                Ok(
                    EView {
                        node: EKind::Decrement { prefix: false, expr: Box::new(lhs) },
                        span: Span { start: lhs.span.start, end: op.end },
                        id: s1.id,
                    },
                ),
                fresh(s1),
            ),
            TokenKind::LeftParen => match p_expr_list(toks, s1, TokenKind::RightParen) {
                (Ok(args), s2) => (
                    Ok(
                        EView {
                            node: EKind::Call { callee: Box::new(lhs), args },
                            span: Span { start: lhs.span.start, end: toks[s2.pos - 1].end },
                            id: s2.id,
                        },
                    ),
                    fresh(s2),
                ),
                (Err(e), s2) => (Err(e), s2),
            },
            TokenKind::LeftBracket => match p_expr(toks, s1, Precedence::Lowest) {
                (Ok(index), s2) => match consume(toks, s2, TokenKind::RightBracket) {
                    (Ok(_), s3) => (
                        Ok(
                            EView {
                                node: EKind::Subscript { array: Box::new(lhs), index: Box::new(index) },
                                span: Span { start: lhs.span.start, end: index.span.end },
                                id: s3.id,
                            },
                        ),
                        fresh(s3),
                    ),
                    (Err(e), s3) => (Err(e), s3),
                },
                (Err(e), s2) => (Err(e), s2),
            },
            TokenKind::Dot => match consume_ident(toks, s1) {
                (Ok(name), s2) => (
                    Ok(
                        EView {
                            node: EKind::MemberAccess { object: Box::new(lhs), name },
                            span: Span { start: lhs.span.start, end: toks[s2.pos - 1].end },
                            id: s2.id,
                        },
                    ),
                    fresh(s2),
                ),
                (Err(e), s2) => (Err(e), s2),
            },
            TokenKind::ColonColon => match consume_ident(toks, s1) {
                (Ok(member), s2) => (
                    Ok(
                        EView {
                            node: EKind::StaticAccess { target: Box::new(lhs), member },
                            span: Span { start: lhs.span.start, end: toks[s2.pos - 1].end },
                            id: s2.id,
                        },
                    ),
                    fresh(s2),
                ),
                (Err(e), s2) => (Err(e), s2),
            },
            TokenKind::LeftBrace => if !(lhs.node is Ident || lhs.node is MemberAccess) {
                (Err(PErr { message: "Struct init must follow a type name"@, span: lhs.span }), s1)
            } else {
                match p_fields(toks, s1, Seq::empty()) {
                    (Ok(fields), s2) => match consume(toks, s2, TokenKind::RightBrace) {
                        (Ok(end), s3) => (
                            Ok(
                                EView {
                                    node: EKind::StructInit { name: Box::new(lhs), fields },
                                    span: Span { start: lhs.span.start, end: end.end },
                                    id: s3.id,
                                },
                            ),
                            fresh(s3),
                        ),
                        (Err(e), s3) => (Err(e), s3),
                    },
                    (Err(e), s2) => (Err(e), s2),
                }
            },
            _ => if op.kind is Eof {
                stuck(s1)
            } else {
                match p_expr(toks, s1, precedence_of(op.kind)) {
                    (Ok(rhs), s2) => (
                        Ok(
                            EView {
                                node: EKind::Binary { lhs: Box::new(lhs), op: op.kind, rhs: Box::new(rhs) },
                                span: Span { start: lhs.span.start, end: rhs.span.end },
                                id: s2.id,
                            },
                        ),
                        fresh(s2),
                    ),
                    (Err(e), s2) => (Err(e), s2),
                }
            },
        }
    }
}

/// A comma-separated list of expressions ended by `term` (the opening token
/// already read).
pub open spec fn p_expr_list(toks: Seq<Token>, st: PState, term: TokenKind) -> POut<Seq<EView>>
    decreases toks.len() - st.pos, 4int,
{
    if in_range(toks, st) && kind_eq(toks[st.pos].kind, term) && !(toks[st.pos].kind is Eof) {
        (Ok(Seq::empty()), advance(toks, st))
    } else {
        p_list_items(toks, st, term, Seq::empty())
    }
}

/// The rest of a list, after the items `acc`.
pub open spec fn p_list_items(toks: Seq<Token>, st: PState, term: TokenKind, acc: Seq<EView>) -> POut<Seq<EView>>
    decreases toks.len() - st.pos, 3int,
{
    match p_expr(toks, st, Precedence::Lowest) {
        (Ok(e), s1) => if in_range(toks, s1) && toks[s1.pos].kind is Comma {
            let s2 = advance(toks, s1);
            if st.pos < s2.pos <= toks.len() {
                p_list_items(toks, s2, term, acc.push(e))
            } else {
                stuck(s2)
            }
        } else {
            p_list_close(toks, s1, term, acc.push(e))
        },
        (Err(x), s1) => (Err(x), s1),
    }
}

/// The end of a list: its closing token.
pub open spec fn p_list_close(toks: Seq<Token>, st: PState, term: TokenKind, items: Seq<EView>) -> POut<Seq<EView>> {
    match consume(toks, st, term) {
        (Ok(_), s1) => (Ok(items), s1),
        (Err(x), s1) => (Err(x), s1),
    }
}

/// The fields of a struct literal after the fields `acc`: `name: value`, or
/// `name` alone, which stands for `name: name`; separated by commas.
pub open spec fn p_fields(toks: Seq<Token>, st: PState, acc: Seq<(String, EView)>) -> POut<Seq<(String, EView)>>
    decreases toks.len() - st.pos, 3int,
{
    if !in_range(toks, st) {
        stuck(st)
    } else if at(toks, st, TokenKind::RightBrace) {
        (Ok(acc), st)
    } else {
        match consume_ident(toks, st) {
            (Ok(name), s1) => {
                let (val, s2) = if at(toks, s1, TokenKind::Colon) {
                    p_expr(toks, advance(toks, s1), Precedence::Lowest)
                } else {
                    (
                        Ok(EView { node: EKind::Ident(name), span: token_span(toks[s1.pos - 1]), id: s1.id }),
                        fresh(s1),
                    )
                };
                match val {
                    Ok(v) => if at(toks, s2, TokenKind::Comma) {
                        let s3 = advance(toks, s2);
                        if st.pos < s3.pos <= toks.len() {
                            p_fields(toks, s3, acc.push((name, v)))
                        } else {
                            stuck(s3)
                        }
                    } else {
                        (Ok(acc.push((name, v))), s2)
                    },
                    Err(x) => (Err(x), s2),
                }
            },
            (Err(x), s1) => (Err(x), s1),
        }
    }
}

/// The outcome of parsing a statement.
pub type SOut = POut<SView>;

/// A statement; the token it starts with decides its kind.
pub open spec fn p_stmt(toks: Seq<Token>, st: PState) -> SOut
    decreases toks.len() - st.pos, 5int,
{
    if !in_range(toks, st) {
        stuck(st)
    } else {
        match toks[st.pos].kind {
            TokenKind::Let | TokenKind::Const => p_var_decl(toks, st),
            TokenKind::If => p_if(toks, st),
            TokenKind::While => p_while(toks, st),
            TokenKind::LeftBrace => p_block(toks, st),
            TokenKind::Return => p_return(toks, st),
            TokenKind::Fn => p_fn(toks, st),
            TokenKind::Struct => p_struct(toks, st),
            _ => p_expr_stmt(toks, st),
        }
    }
}

/// `expression ";"`
pub open spec fn p_expr_stmt(toks: Seq<Token>, st: PState) -> SOut
    decreases toks.len() - st.pos, 4int,
{
    match p_expr(toks, st, Precedence::Lowest) {
        (Ok(e), s1) => match consume(toks, s1, TokenKind::Semi) {
            (Ok(semi), s2) => (
                Ok(SView { node: SKind::Expr(e), span: Span { start: e.span.start, end: semi.end }, id: s2.id }),
                fresh(s2),
            ),
            (Err(x), s2) => (Err(x), s2),
        },
        (Err(x), s1) => (Err(x), s1),
    }
}

/// `"{" { stmt } "}"`
pub open spec fn p_block(toks: Seq<Token>, st: PState) -> SOut
    decreases toks.len() - st.pos, 4int,
{
    match consume(toks, st, TokenKind::LeftBrace) {
        (Ok(start), s1) => match p_stmts(toks, s1, Seq::empty()) {
            (Ok(items), s2) => match consume(toks, s2, TokenKind::RightBrace) {
                (Ok(end), s3) => (
                    Ok(SView { node: SKind::Block(items), span: Span { start: start.start, end: end.end }, id: s3.id }),
                    fresh(s3),
                ),
                (Err(x), s3) => (Err(x), s3),
            },
            (Err(x), s2) => (Err(x), s2),
        },
        (Err(x), s1) => (Err(x), s1),
    }
}

/// The statements of a block up to its `}`, after the statements `acc`.
pub open spec fn p_stmts(toks: Seq<Token>, st: PState, acc: Seq<SView>) -> POut<Seq<SView>>
    decreases toks.len() - st.pos, 6int,
{
    if !in_range(toks, st) {
        stuck(st)
    } else if at(toks, st, TokenKind::RightBrace) {
        (Ok(acc), st)
    } else {
        match p_stmt(toks, st) {
            (Ok(s), s1) => if st.pos < s1.pos <= toks.len() {
                p_stmts(toks, s1, acc.push(s))
            } else {
                stuck(s1)
            },
            (Err(x), s1) => (Err(x), s1),
        }
    }
}

/// `"if" "(" expression ")" stmt [ "else" stmt ]`
pub open spec fn p_if(toks: Seq<Token>, st: PState) -> SOut
    decreases toks.len() - st.pos, 4int,
{
    match consume(toks, st, TokenKind::If) {
        (Ok(start), s1) => match consume(toks, s1, TokenKind::LeftParen) {
            (Ok(_), s2) => match p_expr(toks, s2, Precedence::Lowest) {
                (Ok(cond), s3) => match consume(toks, s3, TokenKind::RightParen) {
                    (Ok(_), s4) => if st.pos < s4.pos <= toks.len() {
                        match p_stmt(toks, s4) {
                            (Ok(then_b), s5) => if at(toks, s5, TokenKind::Else) {
                                let s6 = advance(toks, s5);
                                if st.pos < s6.pos <= toks.len() {
                                    match p_stmt(toks, s6) {
                                        (Ok(else_b), s7) => (
                                            Ok(
                                                SView {
                                                    node: SKind::If {
                                                        cond,
                                                        then_branch: Box::new(then_b),
                                                        else_branch: Some(Box::new(else_b)),
                                                    },
                                                    span: Span { start: start.start, end: else_b.span.end },
                                                    id: s7.id,
                                                },
                                            ),
                                            fresh(s7),
                                        ),
                                        (Err(x), s7) => (Err(x), s7),
                                    }
                                } else {
                                    stuck(s6)
                                }
                            } else {
                                (
                                    Ok(
                                        SView {
                                            node: SKind::If { cond, then_branch: Box::new(then_b), else_branch: None },
                                            span: Span { start: start.start, end: then_b.span.end },
                                            id: s5.id,
                                        },
                                    ),
                                    fresh(s5),
                                )
                            },
                            (Err(x), s5) => (Err(x), s5),
                        }
                    } else {
                        stuck(s4)
                    },
                    (Err(x), s4) => (Err(x), s4),
                },
                (Err(x), s3) => (Err(x), s3),
            },
            (Err(x), s2) => (Err(x), s2),
        },
        (Err(x), s1) => (Err(x), s1),
    }
}

/// `"while" "(" expression ")" stmt`
pub open spec fn p_while(toks: Seq<Token>, st: PState) -> SOut
    decreases toks.len() - st.pos, 4int,
{
    match consume(toks, st, TokenKind::While) {
        (Ok(start), s1) => match consume(toks, s1, TokenKind::LeftParen) {
            (Ok(_), s2) => match p_expr(toks, s2, Precedence::Lowest) {
                (Ok(cond), s3) => match consume(toks, s3, TokenKind::RightParen) {
                    (Ok(_), s4) => if st.pos < s4.pos <= toks.len() {
                        match p_stmt(toks, s4) {
                            (Ok(body), s5) => (
                                Ok(
                                    SView {
                                        node: SKind::While { cond, body: Box::new(body) },
                                        span: Span { start: start.start, end: body.span.end },
                                        id: s5.id,
                                    },
                                ),
                                fresh(s5),
                            ),
                            (Err(x), s5) => (Err(x), s5),
                        }
                    } else {
                        stuck(s4)
                    },
                    (Err(x), s4) => (Err(x), s4),
                },
                (Err(x), s3) => (Err(x), s3),
            },
            (Err(x), s2) => (Err(x), s2),
        },
        (Err(x), s1) => (Err(x), s1),
    }
}

/// `"return" [ expression ] ";"`
pub open spec fn p_return(toks: Seq<Token>, st: PState) -> SOut
    decreases toks.len() - st.pos, 4int,
{
    match consume(toks, st, TokenKind::Return) {
        (Ok(start), s1) => {
            let (val, s2) = if at(toks, s1, TokenKind::Semi) {
                (Ok(None), s1)
            } else {
                match p_expr(toks, s1, Precedence::Lowest) {
                    (Ok(e), s) => (Ok(Some(e)), s),
                    (Err(x), s) => (Err(x), s),
                }
            };
            match val {
                Ok(v) => match consume(toks, s2, TokenKind::Semi) {
                    (Ok(end), s3) => (
                        Ok(SView { node: SKind::Return(v), span: Span { start: start.start, end: end.end }, id: s3.id }),
                        fresh(s3),
                    ),
                    (Err(x), s3) => (Err(x), s3),
                },
                Err(x) => (Err(x), s2),
            }
        },
        (Err(x), s1) => (Err(x), s1),
    }
}

/// `("let" | "const") IDENTIFIER [ ":" type ] "=" expression ";"`
pub open spec fn p_var_decl(toks: Seq<Token>, st: PState) -> SOut
    decreases toks.len() - st.pos, 4int,
{
    let first = toks[st.pos];
    let s1 = advance(toks, st);
    match consume_ident(toks, s1) {
        (Ok(name), s2) => {
            let (ty, s3) = if in_range(toks, s2) && toks[s2.pos].kind is Colon {
                match p_type(toks, advance(toks, s2)) {
                    (Ok(t), s) => (Ok(Some(t)), s),
                    (Err(x), s) => (Err(x), s),
                }
            } else {
                (Ok(None), s2)
            };
            match ty {
                Ok(ty) => match consume(toks, s3, TokenKind::Equal) {
                    (Ok(_), s4) => match p_expr(toks, s4, Precedence::Lowest) {
                        (Ok(value), s5) => match consume(toks, s5, TokenKind::Semi) {
                            (Ok(semi), s6) => (
                                Ok(
                                    SView {
                                        node: SKind::VarDecl { name, ty, value, mutable: first.kind is Let },
                                        span: Span { start: first.start, end: semi.end },
                                        id: s6.id,
                                    },
                                ),
                                fresh(s6),
                            ),
                            (Err(x), s6) => (Err(x), s6),
                        },
                        (Err(x), s5) => (Err(x), s5),
                    },
                    (Err(x), s4) => (Err(x), s4),
                },
                Err(x) => (Err(x), s3),
            }
        },
        (Err(x), s2) => (Err(x), s2),
    }
}

/// The parameters of a function after the parameters `acc`: `name: type`
/// separated by commas, where `self` (with no type) may stand first.
pub open spec fn p_params(toks: Seq<Token>, st: PState, acc: Seq<(Seq<char>, Type)>, is_first: bool) -> POut<
    Seq<(Seq<char>, Type)>,
>
    decreases toks.len() - st.pos,
{
    if !in_range(toks, st) {
        stuck(st)
    } else {
        let is_self = match toks[st.pos].kind {
            TokenKind::Ident(n) => n@ == "self"@,
            _ => false,
        };
        let (item, first2, s1) = if is_first && is_self {
            (Ok(("self"@, Type::SelfType)), false, advance(toks, st))
        } else {
            match consume_ident(toks, st) {
                (Ok(name), sa) => match consume(toks, sa, TokenKind::Colon) {
                    (Ok(_), sb) => match p_type(toks, sb) {
                        (Ok(t), sc) => (Ok((name@, t)), is_first, sc),
                        (Err(x), sc) => (Err(x), is_first, sc),
                    },
                    (Err(x), sb) => (Err(x), is_first, sb),
                },
                (Err(x), sa) => (Err(x), is_first, sa),
            }
        };
        match item {
            Ok(p) => if at(toks, s1, TokenKind::Comma) {
                let s2 = advance(toks, s1);
                if st.pos < s2.pos <= toks.len() {
                    p_params(toks, s2, acc.push(p), first2)
                } else {
                    stuck(s2)
                }
            } else {
                (Ok(acc.push(p)), s1)
            },
            Err(x) => (Err(x), s1),
        }
    }
}

/// `"fn" IDENTIFIER "(" [ params ] ")" [ "->" type ] block`
pub open spec fn p_fn(toks: Seq<Token>, st: PState) -> SOut
    decreases toks.len() - st.pos, 4int,
{
    match consume(toks, st, TokenKind::Fn) {
        (Ok(start), s1) => match consume_ident(toks, s1) {
            (Ok(name), s2) => match consume(toks, s2, TokenKind::LeftParen) {
                (Ok(_), s3) => p_fn_rest(
                    toks,
                    st,
                    start,
                    name,
                    if !at(toks, s3, TokenKind::RightParen) {
                        p_params(toks, s3, Seq::empty(), true)
                    } else {
                        (Ok(Seq::empty()), s3)
                    },
                ),
                (Err(x), s3) => (Err(x), s3),
            },
            (Err(x), s2) => (Err(x), s2),
        },
        (Err(x), s1) => (Err(x), s1),
    }
}

/// A function declaration from `fn` at `st` whose parameters parsed as `ps`:
/// `")" [ "->" type ] block`.
pub open spec fn p_fn_rest(
    toks: Seq<Token>,
    st: PState,
    start: Token,
    name: String,
    ps: POut<Seq<(Seq<char>, Type)>>,
) -> SOut
    decreases toks.len() - st.pos, 3int,
{
    match ps {
        (Ok(params), s4) => match consume(toks, s4, TokenKind::RightParen) {
            (Ok(_), s5) => {
                let (rt, s6) = if at(toks, s5, TokenKind::Arrow) {
                    match p_type(toks, advance(toks, s5)) {
                        (Ok(t), s) => (Ok(Some(t)), s),
                        (Err(x), s) => (Err(x), s),
                    }
                } else {
                    (Ok(None), s5)
                };
                match rt {
                    Ok(return_type) => if st.pos < s6.pos <= toks.len() {
                        match p_block(toks, s6) {
                            (Ok(body), s7) => (
                                Ok(
                                    SView {
                                        node: SKind::Fn { name, params, return_type, body: Box::new(body) },
                                        span: Span { start: start.start, end: body.span.end },
                                        id: s7.id,
                                    },
                                ),
                                fresh(s7),
                            ),
                            (Err(x), s7) => (Err(x), s7),
                        }
                    } else {
                        stuck(s6)
                    },
                    Err(x) => (Err(x), s6),
                }
            },
            (Err(x), s5) => (Err(x), s5),
        },
        (Err(x), s4) => (Err(x), s4),
    }
}

/// `"struct" IDENTIFIER "{" { member } "}"`
pub open spec fn p_struct(toks: Seq<Token>, st: PState) -> SOut
    decreases toks.len() - st.pos, 4int,
{
    match consume(toks, st, TokenKind::Struct) {
        (Ok(start), s1) => match consume_ident(toks, s1) {
            (Ok(name), s2) => match consume(toks, s2, TokenKind::LeftBrace) {
                (Ok(_), s3) => p_struct_rest(toks, start, name, p_members(toks, s3, Seq::empty())),
                (Err(x), s3) => (Err(x), s3),
            },
            (Err(x), s2) => (Err(x), s2),
        },
        (Err(x), s1) => (Err(x), s1),
    }
}

/// A struct declaration from the token `start` whose members parsed as `ms`:
/// the closing `}`.
pub open spec fn p_struct_rest(toks: Seq<Token>, start: Token, name: String, ms: POut<Seq<SView>>) -> SOut {
    match ms {
        (Ok(members), s4) => match consume(toks, s4, TokenKind::RightBrace) {
            (Ok(end), s5) => (
                Ok(
                    SView {
                        node: SKind::Struct { name, members },
                        span: Span { start: start.start, end: end.end },
                        id: s5.id,
                    },
                ),
                fresh(s5),
            ),
            (Err(x), s5) => (Err(x), s5),
        },
        (Err(x), s4) => (Err(x), s4),
    }
}

/// The members of a struct after the members `acc`: functions, and fields
/// `name: type` each with an optional comma after it.
pub open spec fn p_members(toks: Seq<Token>, st: PState, acc: Seq<SView>) -> POut<Seq<SView>>
    decreases toks.len() - st.pos, 6int,
{
    if !in_range(toks, st) {
        stuck(st)
    } else if at(toks, st, TokenKind::RightBrace) {
        (Ok(acc), st)
    } else if at(toks, st, TokenKind::Fn) {
        match p_fn(toks, st) {
            (Ok(f), s1) => if st.pos < s1.pos <= toks.len() {
                p_members(toks, s1, acc.push(f))
            } else {
                stuck(s1)
            },
            (Err(x), s1) => (Err(x), s1),
        }
    } else {
        let start = toks[st.pos].start;
        match consume_ident(toks, st) {
            (Ok(fname), s1) => match consume(toks, s1, TokenKind::Colon) {
                (Ok(_), s2) => match p_type(toks, s2) {
                    (Ok(fty), s3) => {
                        let end = toks[s3.pos - 1].end;
                        let s4 = if at(toks, s3, TokenKind::Comma) {
                            advance(toks, s3)
                        } else {
                            s3
                        };
                        let m = SView {
                            node: SKind::StructField { name: fname, ty: fty },
                            span: Span { start, end },
                            id: s4.id,
                        };
                        let s5 = fresh(s4);
                        if st.pos < s5.pos <= toks.len() {
                            p_members(toks, s5, acc.push(m))
                        } else {
                            stuck(s5)
                        }
                    },
                    (Err(x), s3) => (Err(x), s3),
                },
                (Err(x), s2) => (Err(x), s2),
            },
            (Err(x), s1) => (Err(x), s1),
        }
    }
}

/// Skipping tokens after an error (see [`sync_from`]).
pub open spec fn sync(toks: Seq<Token>, st: PState) -> PState {
    if !in_range(toks, st) || toks[st.pos].kind is Eof {
        st
    } else {
        PState { pos: sync_from(toks, st.pos + 1), ..st }
    }
}

/// A program: statements up to the end marker, after the statements `ss` and
/// the errors `es`. A statement that fails to parse yields its error, and
/// parsing resumes where [`sync`] stops.
pub open spec fn p_program(toks: Seq<Token>, st: PState, ss: Seq<SView>, es: Seq<PErr>) -> (
    Seq<SView>,
    Seq<PErr>,
    PState,
)
    decreases toks.len() - st.pos,
{
    if !in_range(toks, st) || toks[st.pos].kind is Eof {
        (ss, es, st)
    } else {
        match p_stmt(toks, st) {
            (Ok(s), s1) => if st.pos < s1.pos <= toks.len() {
                p_program(toks, s1, ss.push(s), es)
            } else {
                (ss.push(s), es, s1)
            },
            (Err(e), s1) => {
                let s2 = sync(toks, s1);
                if st.pos < s2.pos <= toks.len() {
                    p_program(toks, s2, ss, es.push(e))
                } else {
                    (ss, es.push(e), s2)
                }
            },
        }
    }
}

/// The errors of a parse as values.
pub open spec fn perrs(es: Seq<ParseError>) -> Seq<PErr> {
    es.map_values(|e: ParseError| perr(e))
}

} // verus!

verus! {

/// A compound assignment `x op= v` is read as `x = x op v`: when the operator
/// at the next token is one of `+= -= *= /= %=`, a successful parse is an
/// assignment to `lhs` of `lhs` combined with the value by the operator.
pub proof fn lemma_compound_assignment(toks: Seq<Token>, st: PState, lhs: EView)
    requires
        in_range(toks, st),
        compound_op(toks[st.pos].kind) is Some,
        p_infix(toks, st, lhs).0 is Ok,
    ensures
        ({
            let e = p_infix(toks, st, lhs).0->Ok_0;
            &&& e.node matches EKind::Assignment { target, value } && *target == lhs && (value.node matches EKind::Binary {
                lhs: l,
                op,
                ..
            } && *l == lhs && Some(op) == compound_op(toks[st.pos].kind))
            &&& assignable(lhs)
        }),
{
}

/// Whether a token kind is a binary operator that is not an assignment.
pub open spec fn plain_binary(k: TokenKind) -> bool {
    documented_level(k) is Some && documented_level(k)->0 <= 12
}

/// Whether `v` is `Binary { lhs, op, rhs }` with those parts' contents.
pub open spec fn binary_of(v: EView, lhs: EKind, op: TokenKind, rhs: EKind) -> bool {
    v.node matches EKind::Binary { lhs: l, op: o, rhs: r } && l.node == lhs && o == op && r.node == rhs
}

/// Operators group as the precedence table says: in `a o1 b o2 c`, the
/// first operator takes `b` when it binds at least as tightly as the second
/// (so operators of one level group from the left), and the second takes
/// `b` when it binds more tightly.
pub proof fn lemma_binary_grouping(toks: Seq<Token>, st: PState, a: u16, o1: TokenKind, b: u16, o2: TokenKind, c: u16)
    requires
        0 <= st.pos,
        st.pos + 5 < toks.len(),
        toks[st.pos].kind == TokenKind::Integer(a),
        toks[st.pos + 1].kind == o1,
        toks[st.pos + 2].kind == TokenKind::Integer(b),
        toks[st.pos + 3].kind == o2,
        toks[st.pos + 4].kind == TokenKind::Integer(c),
        level(precedence_of(toks[st.pos + 5].kind)) == 0,
        plain_binary(o1),
        plain_binary(o2),
    ensures
        p_expr(toks, st, Precedence::Lowest).0 matches Ok(v) && if documented_level(o1)->0 <= documented_level(o2)->0 {
            v.node matches EKind::Binary { lhs: l, op, rhs: r } && op == o2 && r.node == EKind::Integer(c)
                && binary_of(*l, EKind::Integer(a), o1, EKind::Integer(b))
        } else {
            v.node matches EKind::Binary { lhs: l, op, rhs: r } && op == o1 && l.node == EKind::Integer(a)
                && binary_of(*r, EKind::Integer(b), o2, EKind::Integer(c))
        },
{
    crate::parser::precedence::lemma_binary_precedence(o1, o2);
    assert(!(o1 is Eof) && !(o2 is Eof));
    let p = st.pos;
    // the first operand
    let (ra, s1) = p_prefix(toks, st);
    assert(ra matches Ok(x) && x.node == EKind::Integer(a));
    assert(s1.pos == p + 1);
    let va = ra->Ok_0;
    assert(p_expr(toks, st, Precedence::Lowest) == p_expr_rest(toks, s1, Precedence::Lowest, va));
    // the first operator
    let s2 = advance(toks, s1);
    assert(s2.pos == p + 2);
    let (rb, s3) = p_prefix(toks, s2);
    assert(rb matches Ok(x) && x.node == EKind::Integer(b));
    assert(s3.pos == p + 3);
    let vb = rb->Ok_0;
    let bp1 = precedence_of(o1);
    assert(p_expr(toks, s2, bp1) == p_expr_rest(toks, s3, bp1, vb));
    let s4 = advance(toks, s3);
    assert(s4.pos == p + 4);
    let (rc, s5) = p_prefix(toks, s4);
    assert(rc matches Ok(x) && x.node == EKind::Integer(c));
    assert(s5.pos == p + 5);
    let vc = rc->Ok_0;
    let bp2 = precedence_of(o2);
    assert(p_expr(toks, s4, bp2) == p_expr_rest(toks, s5, bp2, vc));
    assert(p_expr_rest(toks, s5, bp2, vc) == (Ok::<EView, PErr>(vc), s5));
    if documented_level(o1)->0 <= documented_level(o2)->0 {
        // `b` stays with `o1`
        assert(p_expr_rest(toks, s3, bp1, vb) == (Ok::<EView, PErr>(vb), s3));
        let (rab, s6) = p_infix(toks, s1, va);
        assert(rab matches Ok(x) && binary_of(x, EKind::Integer(a), o1, EKind::Integer(b)));
        assert(s6.pos == p + 3);
        let vab = rab->Ok_0;
        assert(p_expr_rest(toks, s1, Precedence::Lowest, va) == p_expr_rest(toks, s6, Precedence::Lowest, vab));
        let (rr, s7) = p_infix(toks, s6, vab);
        assert(s7.pos == p + 5);
        assert(rr matches Ok(x) && x.node matches EKind::Binary { lhs: l, op, rhs: r } && op == o2 && r.node
            == EKind::Integer(c) && *l == vab);
        assert(p_expr_rest(toks, s6, Precedence::Lowest, vab) == p_expr_rest(toks, s7, Precedence::Lowest, rr->Ok_0));
        assert(p_expr_rest(toks, s7, Precedence::Lowest, rr->Ok_0) == (Ok::<EView, PErr>(rr->Ok_0), s7));
    } else {
        // `b` goes with `o2`
        let (rbc, s6) = p_infix(toks, s3, vb);
        assert(rbc matches Ok(x) && binary_of(x, EKind::Integer(b), o2, EKind::Integer(c)));
        assert(s6.pos == p + 5);
        let vbc = rbc->Ok_0;
        assert(p_expr_rest(toks, s3, bp1, vb) == p_expr_rest(toks, s6, bp1, vbc));
        assert(p_expr_rest(toks, s6, bp1, vbc) == (Ok::<EView, PErr>(vbc), s6));
        let (rr, s7) = p_infix(toks, s1, va);
        assert(s7.pos == p + 5);
        assert(rr matches Ok(x) && x.node matches EKind::Binary { lhs: l, op, rhs: r } && op == o1 && l.node
            == EKind::Integer(a) && *r == vbc);
        assert(p_expr_rest(toks, s1, Precedence::Lowest, va) == p_expr_rest(toks, s7, Precedence::Lowest, rr->Ok_0));
        assert(p_expr_rest(toks, s7, Precedence::Lowest, rr->Ok_0) == (Ok::<EView, PErr>(rr->Ok_0), s7));
    }
}

} // verus!
