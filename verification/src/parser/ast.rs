//! The syntax tree.

use vstd::prelude::*;
use crate::parser::grammar::{ek, ev, lemma_sv_node, sk, sv};
use vstd::std_specs::cmp::{PartialEqSpec, PartialEqSpecImpl};
use crate::lexer::token::TokenKind;

verus! {

/// A range of byte offsets in the source (`end` is exclusive).
#[derive(Debug, Clone, Copy, PartialEq, Eq, Structural)]
pub struct Span {
    pub start: usize,
    pub end: usize,
}

impl Span {
    pub fn new(start: usize, end: usize) -> (s: Self)
        ensures
            s == (Span { start, end }),
    {
        Self { start, end }
    }

    /// The span from the start of `a` to the end of `b`.
    pub fn merge(a: Self, b: Self) -> (s: Self)
        ensures
            s == (Span { start: a.start, end: b.end }),
    {
        Self { start: a.start, end: b.end }
    }
}

/// The identity of a syntax tree node, by which analyses record facts about it.
#[derive(Debug, Clone, Copy, PartialEq, Eq, Hash, Structural)]
pub struct NodeId(pub usize);

impl NodeId {
    /// The identity that follows this one; numbering wraps around after the
    /// largest `usize`.
    pub fn next(self) -> (n: NodeId)
        ensures
            n.0 == (if self.0 == usize::MAX {
                0
            } else {
                self.0 + 1
            }),
    {
        NodeId(self.0.wrapping_add(1))
    }
}

/// A node of the syntax tree with its span and identity.
#[derive(Debug)]
pub struct Spanned<T> {
    pub node: T,
    pub span: Span,
    pub id: NodeId,
}

/// Nodes compare by their content and span; their identities are ignored.
impl<T: PartialEqSpec> PartialEq for Spanned<T> {
    fn eq(&self, other: &Self) -> (r: bool) {
        self.node == other.node && self.span == other.span
    }
}

impl<T: PartialEqSpec> PartialEqSpecImpl for Spanned<T> {
    open spec fn obeys_eq_spec() -> bool {
        T::obeys_eq_spec()
    }

    open spec fn eq_spec(&self, other: &Self) -> bool {
        self.node.eq_spec(&other.node) && self.span == other.span
    }
}

impl<T: Clone> Clone for Spanned<T> {
    fn clone(&self) -> (r: Self) {
        Spanned { node: self.node.clone(), span: self.span, id: self.id }
    }
}

impl<T> Spanned<T> {
    /// A node with the default identity 0.
    pub fn new(node: T, span: Span) -> (s: Self)
        ensures
            s == (Spanned { node, span, id: NodeId(0) }),
    {
        Self { node, span, id: NodeId(0) }
    }

    /// A node with a given identity.
    pub fn with_id(node: T, span: Span, id: NodeId) -> (s: Self)
        ensures
            s == (Spanned { node, span, id }),
    {
        Self { node, span, id }
    }
}

#[derive(Debug, PartialEq)]
pub enum ExprKind {
    Integer(u16),
    Bool(bool),
    Ident(String),
    /// `[a, b, c]`
    Array(Vec<Expr>),
    /// `x++`, `++x`
    Increment {
        /// true when `++x`
        prefix: bool,
        expr: Box<Expr>,
    },
    /// `x--`, `--x`
    Decrement {
        /// true when `--x`
        prefix: bool,
        expr: Box<Expr>,
    },
    /// An expression with one operand (e.g. `-5`)
    Unary { op: TokenKind, rhs: Box<Expr> },
    /// An expression with two operands (e.g. `6 + 7`)
    Binary { lhs: Box<Expr>, op: TokenKind, rhs: Box<Expr> },
    /// Assigning a value to a variable (e.g. `x = 5`; `y += 3` is `y = y + 3`)
    Assignment { target: Box<Expr>, value: Box<Expr> },
    /// A function call (e.g. `my_fn(1, 2)`)
    Call { callee: Box<Expr>, args: Vec<Expr> },
    /// `arr[i]`
    Subscript { array: Box<Expr>, index: Box<Expr> },
    /// `obj.name`
    MemberAccess { object: Box<Expr>, name: String },
    /// `Type::member`
    StaticAccess { target: Box<Expr>, member: String },
    /// `Point { x: 1, y }`
    StructInit { name: Box<Expr>, fields: Vec<(String, Expr)> },
}

pub type Expr = Spanned<ExprKind>;

#[derive(Debug)]
pub enum Type {
    I16,
    Bool,
    Pointer(Box<Type>),
    Array { ty: Box<Type>, size: u16 },
    Struct(String),
    SelfType,
    Void,
    Error,  // special error type used in the compiler
}

/// Type equality: the same constructor with equal parts (struct names compare by text).
pub open spec fn type_eq(a: Type, b: Type) -> bool
    decreases a,
{
    match a {
        Type::I16 => b is I16,
        Type::Bool => b is Bool,
        Type::Pointer(x) => match b {
            Type::Pointer(y) => type_eq(*x, *y),
            _ => false,
        },
        Type::Array { ty: x, size: n } => match b {
            Type::Array { ty: y, size: m } => n == m && type_eq(*x, *y),
            _ => false,
        },
        Type::Struct(x) => match b {
            Type::Struct(y) => x@ == y@,
            _ => false,
        },
        Type::SelfType => b is SelfType,
        Type::Void => b is Void,
        Type::Error => b is Error,
    }
}

/// Every type equals itself.
pub proof fn lemma_type_eq_refl(a: Type)
    ensures
        type_eq(a, a),
    decreases a,
{
    match a {
        Type::Pointer(x) => lemma_type_eq_refl(*x),
        Type::Array { ty: x, .. } => lemma_type_eq_refl(*x),
        _ => {},
    }
}

/// Type equality is symmetric.
pub proof fn lemma_type_eq_symm(a: Type, b: Type)
    requires
        type_eq(a, b),
    ensures
        type_eq(b, a),
    decreases a,
{
    match a {
        Type::Pointer(x) => match b {
            Type::Pointer(y) => lemma_type_eq_symm(*x, *y),
            _ => {},
        },
        Type::Array { ty: x, .. } => match b {
            Type::Array { ty: y, .. } => lemma_type_eq_symm(*x, *y),
            _ => {},
        },
        _ => {},
    }
}

/// `type_eq` computed.
pub fn type_equal(a: &Type, b: &Type) -> (r: bool)
    ensures
        r == type_eq(*a, *b),
    decreases a,
{
    match a {
        Type::I16 => matches!(b, Type::I16),
        Type::Bool => matches!(b, Type::Bool),
        Type::Pointer(x) => match b {
            Type::Pointer(y) => type_equal(x, y),
            _ => false,
        },
        Type::Array { ty: x, size: n } => match b {
            Type::Array { ty: y, size: m } => *n == *m && type_equal(x, y),
            _ => false,
        },
        Type::Struct(x) => match b {
            Type::Struct(y) => *x == *y,
            _ => false,
        },
        Type::SelfType => matches!(b, Type::SelfType),
        Type::Void => matches!(b, Type::Void),
        Type::Error => matches!(b, Type::Error),
    }
}

impl PartialEq for Type {
    fn eq(&self, other: &Self) -> (r: bool) {
        type_equal(self, other)
    }
}

impl PartialEqSpecImpl for Type {
    open spec fn obeys_eq_spec() -> bool {
        true
    }

    open spec fn eq_spec(&self, other: &Self) -> bool {
        type_eq(*self, *other)
    }
}

impl Clone for Type {
    fn clone(&self) -> (r: Self)
        ensures
            r == *self,
        decreases self,
    {
        match self {
            Type::I16 => Type::I16,
            Type::Bool => Type::Bool,
            Type::Pointer(x) => Type::Pointer(Box::new((**x).clone())),
            Type::Array { ty, size } => Type::Array { ty: Box::new((**ty).clone()), size: *size },
            Type::Struct(name) => Type::Struct(name.clone()),
            Type::SelfType => Type::SelfType,
            Type::Void => Type::Void,
            Type::Error => Type::Error,
        }
    }
}

/// The number of 16-bit words a value of the type occupies.
pub open spec fn type_size(t: Type) -> u16
    decreases t,
{
    match t {
        Type::I16 => 1,
        Type::Bool => 1,
        Type::Pointer(_) => 1,
        Type::Array { ty, size } => {
            let n = type_size(*ty) as int * size as int;
            if n > u16::MAX {
                u16::MAX
            } else {
                n as u16
            }
        },
        Type::Struct(_) => 1,
        Type::SelfType => 1,
        Type::Void => 0,
        Type::Error => 0,
    }
}

impl Type {
    /// The number of 16-bit words a value of this type occupies (see [`type_size`]);
    /// an array's size saturates at `u16::MAX`.
    pub fn size(&self) -> (n: u16)
        ensures
            n == type_size(*self),
        decreases self,
    {
        match self {
            Type::I16 => 1,
            Type::Bool => 1,
            Type::Pointer(_) => 1,
            Type::Array { ty, size } => {
                let a = ty.size() as u32;
                let b = *size as u32;
                assert(a * b <= 0xffff * 0xffff) by (nonlinear_arith)
                    requires
                        a <= 0xffff,
                        b <= 0xffff,
                ;
                let n = a * b;
                if n > 0xffff {
                    0xffff
                } else {
                    n as u16
                }
            },
            Type::Struct(_) => 1,
            Type::SelfType => 1,
            Type::Void => 0,
            Type::Error => 0,
        }
    }
}

#[derive(Debug, PartialEq)]
pub enum StmtKind {
    VarDecl { name: String, ty: Option<Type>, value: Expr, mutable: bool },
    Expr(Expr),
    Block(Vec<Stmt>),
    Return(Option<Expr>),
    If { cond: Expr, then_branch: Box<Stmt>, else_branch: Option<Box<Stmt>> },
    While { cond: Expr, body: Box<Stmt> },
    Fn { name: String, params: Vec<(String, Type)>, return_type: Option<Type>, body: Box<Stmt> },
    Struct { name: String, members: Vec<Stmt> },
    StructField { name: String, ty: Type },
}

pub type Stmt = Spanned<StmtKind>;

/// A copy of an optional type.
pub fn clone_opt_type(t: &Option<Type>) -> (r: Option<Type>)
    ensures
        r == *t,
{
    match t {
        Some(t) => Some(t.clone()),
        None => None,
    }
}

/// A copy of a list of named types (parameters, fields).
pub fn clone_params(params: &Vec<(String, Type)>) -> (r: Vec<(String, Type)>)
    ensures
        r@ == params@,
{
    let mut r: Vec<(String, Type)> = Vec::new();
    let mut i: usize = 0;
    while i < params.len()
        invariant
            0 <= i <= params@.len(),
            r@ == params@.subrange(0, i as int),
        decreases params@.len() - i,
    {
        let (name, ty) = &params[i];
        r.push((name.clone(), ty.clone()));
        proof {
            assert(params@.subrange(0, i + 1) =~= params@.subrange(0, i as int).push(params@[i as int]));
        }
        i += 1;
    }
    proof {
        assert(params@.subrange(0, params@.len() as int) =~= params@);
    }
    r
}

/// A deep copy of an expression, with the same spans and identities.
pub fn clone_expr(e: &Expr) -> (r: Expr)
    ensures
        expr_wf(*e) ==> expr_wf(r),
        r.span == e.span,
        r.id == e.id,
        is_assignable(e.node) ==> is_assignable(r.node),
        ev(r) == ev(*e),
    decreases e, 1nat,
{
    Spanned { node: clone_expr_kind(&e.node), span: e.span, id: e.id }
}

fn clone_exprs(items: &Vec<Expr>) -> (r: Vec<Expr>)
    ensures
        r@.len() == items@.len(),
        forall|i: int| 0 <= i < items@.len() ==> kind_wf(#[trigger] items@[i].node) ==> kind_wf(r@[i].node),
        forall|i: int| 0 <= i < items@.len() ==> ev(#[trigger] r@[i]) == ev(items@[i]),
    decreases items, 0nat,
{
    let mut r: Vec<Expr> = Vec::new();
    let mut i: usize = 0;
    while i < items.len()
        invariant
            0 <= i <= items@.len(),
            r@.len() == i,
            forall|k: int| 0 <= k < i ==> kind_wf(#[trigger] items@[k].node) ==> kind_wf(r@[k].node),
            forall|k: int| 0 <= k < i ==> ev(#[trigger] r@[k]) == ev(items@[k]),
        decreases items@.len() - i,
    {
        proof {
            assert(decreases_to!(items => items[i as int]));
        }
        r.push(clone_expr(&items[i]));
        i += 1;
    }
    r
}

/// A deep copy of an expression's content.
pub fn clone_expr_kind(k: &ExprKind) -> (r: ExprKind)
    ensures
        kind_wf(*k) ==> kind_wf(r),
        is_assignable(*k) ==> is_assignable(r),
        ek(r) == ek(*k),
    decreases k, 0nat,
{
    match k {
        ExprKind::Integer(v) => ExprKind::Integer(*v),
        ExprKind::Bool(b) => ExprKind::Bool(*b),
        ExprKind::Ident(name) => ExprKind::Ident(name.clone()),
        ExprKind::Array(items) => {
            proof {
                assert(decreases_to!(*k => k->Array_0));
            }
            let r = clone_exprs(items);
            proof {
                if kind_wf(*k) {
                    assert forall|i: int| 0 <= i < r.len() implies kind_wf(#[trigger] r[i].node) by {
                        assert(*k == ExprKind::Array(*items));
                        assert(kind_wf(items[i].node));
                    }
                }
            }
            let res = ExprKind::Array(r);
            assert(kind_wf(*k) ==> kind_wf(res));
            proof {
                assert(*k == ExprKind::Array(*items));
                assert(ek(res)->Array_0 =~= ek(*k)->Array_0);
            }
            res
        },
        ExprKind::Increment { prefix, expr } => ExprKind::Increment {
            prefix: *prefix,
            expr: Box::new(clone_expr(expr)),
        },
        ExprKind::Decrement { prefix, expr } => ExprKind::Decrement {
            prefix: *prefix,
            expr: Box::new(clone_expr(expr)),
        },
        ExprKind::Unary { op, rhs } => ExprKind::Unary { op: op.clone(), rhs: Box::new(clone_expr(rhs)) },
        ExprKind::Binary { lhs, op, rhs } => ExprKind::Binary {
            lhs: Box::new(clone_expr(lhs)),
            op: op.clone(),
            rhs: Box::new(clone_expr(rhs)),
        },
        ExprKind::Assignment { target, value } => ExprKind::Assignment {
            target: Box::new(clone_expr(target)),
            value: Box::new(clone_expr(value)),
        },
        ExprKind::Call { callee, args } => {
            proof {
                assert(decreases_to!(*k => k->Call_args));
            }
            let c = clone_expr(callee);
            let r = clone_exprs(args);
            proof {
                if kind_wf(*k) {
                    assert forall|i: int| 0 <= i < r.len() implies kind_wf(#[trigger] r[i].node) by {
                        assert(*k == (ExprKind::Call { callee: *callee, args: *args }));
                        assert(kind_wf(args[i].node));
                    }
                }
            }
            let res = ExprKind::Call { callee: Box::new(c), args: r };
            assert(kind_wf(*k) ==> kind_wf(res));
            proof {
                assert(*k == (ExprKind::Call { callee: *callee, args: *args }));
                assert(ek(res)->Call_args =~= ek(*k)->Call_args);
            }
            res
        },
        ExprKind::Subscript { array, index } => ExprKind::Subscript {
            array: Box::new(clone_expr(array)),
            index: Box::new(clone_expr(index)),
        },
        ExprKind::MemberAccess { object, name } => ExprKind::MemberAccess {
            object: Box::new(clone_expr(object)),
            name: name.clone(),
        },
        ExprKind::StaticAccess { target, member } => ExprKind::StaticAccess {
            target: Box::new(clone_expr(target)),
            member: member.clone(),
        },
        ExprKind::StructInit { name, fields } => {
            let mut r: Vec<(String, Expr)> = Vec::new();
            let mut i: usize = 0;
            while i < fields.len()
                invariant
                    0 <= i <= fields@.len(),
                    *k == (ExprKind::StructInit { name: *name, fields: *fields }),
                    r@.len() == i,
                    forall|m: int| 0 <= m < i ==> kind_wf(#[trigger] fields@[m].1.node) ==> kind_wf(r@[m].1.node),
                    forall|m: int| 0 <= m < i ==> (#[trigger] r@[m]).0 == fields@[m].0 && ev(r@[m].1) == ev(fields@[m].1),
                decreases fields@.len() - i,
            {
                proof {
                    assert(decreases_to!(*k => k->StructInit_fields));
                    assert(decreases_to!(k->StructInit_fields => fields[i as int]));
                    assert(decreases_to!(fields[i as int] => fields[i as int].1));
                }
                let (fname, fval) = &fields[i];
                r.push((fname.clone(), clone_expr(fval)));
                i += 1;
            }
            let n = clone_expr(name);
            proof {
                if kind_wf(*k) {
                    assert forall|i: int| 0 <= i < r.len() implies kind_wf(#[trigger] r[i].1.node) by {
                        assert(*k == (ExprKind::StructInit { name: *name, fields: *fields }));
                        assert(kind_wf(fields[i].1.node));
                    }
                }
            }
            let res = ExprKind::StructInit { name: Box::new(n), fields: r };
            assert(kind_wf(*k) ==> kind_wf(res));
            proof {
                assert(ek(res)->StructInit_fields =~= ek(*k)->StructInit_fields);
            }
            res
        },
    }
}

impl Clone for ExprKind {
    fn clone(&self) -> (r: Self) {
        clone_expr_kind(self)
    }
}

/// A deep copy of a statement.
pub fn clone_stmt(s: &Stmt) -> (r: Stmt)
    ensures
        r.span == s.span,
        r.id == s.id,
        sv(r) == sv(*s),
    decreases s, 1nat,
{
    let r = Spanned { node: clone_stmt_kind(&s.node), span: s.span, id: s.id };
    proof {
        lemma_sv_node(r);
        lemma_sv_node(*s);
    }
    r
}

fn clone_stmts(items: &Vec<Stmt>) -> (r: Vec<Stmt>)
    ensures
        r@.len() == items@.len(),
        forall|i: int| 0 <= i < items@.len() ==> sv(#[trigger] r@[i]) == sv(items@[i]),
    decreases items, 0nat,
{
    let mut r: Vec<Stmt> = Vec::new();
    let mut i: usize = 0;
    while i < items.len()
        invariant
            0 <= i <= items@.len(),
            r@.len() == i,
            forall|k: int| 0 <= k < i ==> sv(#[trigger] r@[k]) == sv(items@[k]),
        decreases items@.len() - i,
    {
        proof {
            assert(decreases_to!(items => items[i as int]));
        }
        r.push(clone_stmt(&items[i]));
        i += 1;
    }
    r
}

/// A deep copy of a statement's content.
pub fn clone_stmt_kind(k: &StmtKind) -> (r: StmtKind)
    ensures
        sk(r) == sk(*k),
    decreases k, 0nat,
{
    match k {
        StmtKind::VarDecl { name, ty, value, mutable } => StmtKind::VarDecl {
            name: name.clone(),
            ty: clone_opt_type(ty),
            value: clone_expr(value),
            mutable: *mutable,
        },
        StmtKind::Expr(e) => StmtKind::Expr(clone_expr(e)),
        StmtKind::Block(stmts) => {
            proof {
                assert(decreases_to!(*k => k->Block_0));
            }
            let res = StmtKind::Block(clone_stmts(stmts));
            proof {
                assert(sk(res)->Block_0 =~= sk(*k)->Block_0);
            }
            res
        },
        StmtKind::Return(e) => StmtKind::Return(
            match e {
                Some(e) => Some(clone_expr(e)),
                None => None,
            },
        ),
        StmtKind::If { cond, then_branch, else_branch } => StmtKind::If {
            cond: clone_expr(cond),
            then_branch: Box::new(clone_stmt(then_branch)),
            else_branch: match else_branch {
                Some(b) => Some(Box::new(clone_stmt(b))),
                None => None,
            },
        },
        StmtKind::While { cond, body } => StmtKind::While {
            cond: clone_expr(cond),
            body: Box::new(clone_stmt(body)),
        },
        StmtKind::Fn { name, params, return_type, body } => StmtKind::Fn {
            name: name.clone(),
            params: clone_params(params),
            return_type: clone_opt_type(return_type),
            body: Box::new(clone_stmt(body)),
        },
        StmtKind::Struct { name, members } => {
            proof {
                assert(decreases_to!(*k => k->Struct_members));
            }
            let res = StmtKind::Struct { name: name.clone(), members: clone_stmts(members) };
            proof {
                assert(sk(res)->Struct_members =~= sk(*k)->Struct_members);
            }
            res
        },
        StmtKind::StructField { name, ty } => StmtKind::StructField {
            name: name.clone(),
            ty: ty.clone(),
        },
    }
}

impl Clone for StmtKind {
    fn clone(&self) -> (r: Self) {
        clone_stmt_kind(self)
    }
}

/// The operators a binary expression may hold.
pub open spec fn is_binary_op(op: TokenKind) -> bool {
    match op {
        TokenKind::Plus | TokenKind::Minus | TokenKind::Star | TokenKind::Slash
        | TokenKind::Percent | TokenKind::BitAnd | TokenKind::BitOr | TokenKind::BitXor
        | TokenKind::LeftShift | TokenKind::RightShift | TokenKind::And | TokenKind::Or
        | TokenKind::Gt | TokenKind::Gte | TokenKind::Lt | TokenKind::Lte | TokenKind::Equality
        | TokenKind::BangEqual => true,
        _ => false,
    }
}

/// The operators a unary expression may hold: `-`, `!`, `*` (dereference),
/// `&` (address of) and `~`.
pub open spec fn is_unary_op(op: TokenKind) -> bool {
    match op {
        TokenKind::Minus | TokenKind::Bang | TokenKind::Star | TokenKind::BitAnd
        | TokenKind::BitNot => true,
        _ => false,
    }
}

/// Every binary and unary expression in `e` holds one of its operators, and
/// every assignment targets a name or a dereference.
pub open spec fn expr_wf(e: Expr) -> bool {
    kind_wf(e.node)
}

/// [`expr_wf`] for an expression's content.
pub open spec fn kind_wf(k: ExprKind) -> bool
    decreases k,
{
    match k {
        ExprKind::Integer(_) | ExprKind::Bool(_) | ExprKind::Ident(_) => true,
        ExprKind::Array(items) => forall|i: int|
            0 <= i < items.len() ==> kind_wf(#[trigger] items[i].node),
        ExprKind::Increment { expr, .. } => kind_wf(expr.node),
        ExprKind::Decrement { expr, .. } => kind_wf(expr.node),
        ExprKind::Unary { op, rhs } => is_unary_op(op) && kind_wf(rhs.node),
        ExprKind::Binary { lhs, op, rhs } => is_binary_op(op) && kind_wf(lhs.node) && kind_wf(
            rhs.node,
        ),
        ExprKind::Assignment { target, value } => is_assignable(target.node) && kind_wf(
            target.node,
        ) && kind_wf(value.node),
        ExprKind::Call { callee, args } => kind_wf(callee.node) && forall|i: int|
            0 <= i < args.len() ==> kind_wf(#[trigger] args[i].node),
        ExprKind::Subscript { array, index } => kind_wf(array.node) && kind_wf(index.node),
        ExprKind::MemberAccess { object, .. } => kind_wf(object.node),
        ExprKind::StaticAccess { target, .. } => kind_wf(target.node),
        ExprKind::StructInit { name, fields } => kind_wf(name.node) && forall|i: int|
            0 <= i < fields.len() ==> kind_wf(#[trigger] fields[i].1.node),
    }
}

/// Whether an expression may stand left of `=`: a name or a dereference.
pub open spec fn is_assignable(k: ExprKind) -> bool {
    k is Ident || (k matches ExprKind::Unary { op, .. } && op is Star)
}

/// Every expression in the statement `s` is well formed (see [`expr_wf`]).
pub open spec fn stmt_wf(s: Stmt) -> bool {
    stmt_kind_wf(s.node)
}

/// [`stmt_wf`] for a statement's content.
pub open spec fn stmt_kind_wf(k: StmtKind) -> bool
    decreases k,
{
    match k {
        StmtKind::VarDecl { value, .. } => kind_wf(value.node),
        StmtKind::Expr(e) => kind_wf(e.node),
        StmtKind::Block(stmts) => forall|i: int|
            0 <= i < stmts.len() ==> stmt_kind_wf(#[trigger] stmts[i].node),
        StmtKind::Return(e) => match e {
            Some(e) => kind_wf(e.node),
            None => true,
        },
        StmtKind::If { cond, then_branch, else_branch } => kind_wf(cond.node) && stmt_kind_wf(
            then_branch.node,
        ) && match else_branch {
            Some(b) => stmt_kind_wf(b.node),
            None => true,
        },
        StmtKind::While { cond, body } => kind_wf(cond.node) && stmt_kind_wf(body.node),
        StmtKind::Fn { body, .. } => stmt_kind_wf(body.node),
        StmtKind::Struct { members, .. } => forall|i: int|
            0 <= i < members.len() ==> stmt_kind_wf(#[trigger] members[i].node),
        StmtKind::StructField { .. } => true,
    }
}

} // verus!
