//! Type checking: infers the type of every expression, records it by node id,
//! and reports each mismatch between the types a construct needs and the ones
//! it gets.

use vstd::prelude::*;
use vstd::hash_map::{HashMapWithView, StringHashMap};
use crate::analysis::symbol::{find, info, scope_info, Scope, Symbol, SymbolInfo, SymbolKind};
use crate::error::{TeenyCompilerError, TeenyCompilerErrorKind};
use crate::lexer::token::TokenKind;
use crate::visitor::{lemma_stmts_size_elem, stmt_size, stmts_size};
use crate::parser::ast::{clone_opt_type, type_eq, type_equal, Expr, ExprKind, NodeId, Span, Stmt, StmtKind, Type};

verus! {

/// The type recorded for each expression and variable declaration, by node id.
pub type TypeMap = HashMapWithView<usize, Type>;

/// Operators whose result has the type of their operands.
pub open spec fn arithmetic_op(op: TokenKind) -> bool {
    match op {
        TokenKind::Plus | TokenKind::Minus | TokenKind::Star | TokenKind::Slash
        | TokenKind::Percent | TokenKind::PlusPlus | TokenKind::MinusMinus | TokenKind::BitAnd
        | TokenKind::BitOr | TokenKind::BitXor | TokenKind::LeftShift | TokenKind::RightShift => true,
        _ => false,
    }
}

/// Operators whose result is a `Bool`.
pub open spec fn boolean_op(op: TokenKind) -> bool {
    match op {
        TokenKind::And | TokenKind::Or | TokenKind::Bang | TokenKind::Gt | TokenKind::Gte
        | TokenKind::Lt | TokenKind::Lte | TokenKind::Equality | TokenKind::BangEqual => true,
        _ => false,
    }
}

/// The comparisons, which may compare an `I16` with a `Bool`.
pub open spec fn comparison_op(op: TokenKind) -> bool {
    match op {
        TokenKind::Equality | TokenKind::BangEqual | TokenKind::Lt | TokenKind::Lte
        | TokenKind::Gt | TokenKind::Gte => true,
        _ => false,
    }
}

pub open spec fn or_void(t: Option<Type>) -> Type {
    match t {
        Some(t) => t,
        None => Type::Void,
    }
}

pub open spec fn mismatch(span: Span, expected: Type, found: Type) -> TeenyCompilerError {
    TeenyCompilerError { span, kind: TeenyCompilerErrorKind::TypeMismatch(expected, found) }
}

pub open spec fn cannot_infer(span: Span) -> TeenyCompilerError {
    TeenyCompilerError { span, kind: TeenyCompilerErrorKind::CannotInferType }
}

/// The type a global name has in an expression: a variable's declared type,
/// a function's return type (`Void` if it has none).
pub open spec fn global_type(g: Map<Seq<char>, SymbolInfo>, name: Seq<char>) -> Option<Type> {
    if g.contains_key(name) {
        match g[name] {
            SymbolInfo::Var { ty, .. } => ty,
            SymbolInfo::Fn { return_type, .. } => Some(or_void(return_type)),
        }
    } else {
        None
    }
}

/// The type of `op rhs` where `rhs` has type `t`.
pub open spec fn unary_type(span: Span, op: TokenKind, t: Type) -> Result<Type, TeenyCompilerError> {
    match op {
        TokenKind::Minus => if t is I16 {
            Ok(t)
        } else {
            Err(mismatch(span, Type::I16, t))
        },
        TokenKind::Bang => if t is Bool {
            Ok(Type::Bool)
        } else {
            Err(mismatch(span, Type::Bool, t))
        },
        TokenKind::Star => match t {
            Type::Pointer(inner) => Ok(*inner),
            _ => Err(cannot_infer(span)),
        },
        TokenKind::BitAnd => Ok(Type::Pointer(Box::new(t))),
        TokenKind::BitNot => if t is I16 {
            Ok(Type::I16)
        } else {
            Err(mismatch(span, Type::I16, t))
        },
        _ => Err(cannot_infer(span)),
    }
}

/// The type of `lhs op rhs` where the operands have types `a` and `b`.
/// Operands must have equal types, except that an `I16` may be compared with a
/// `Bool`, and an `I16` may be added to or subtracted from a pointer. `None`
/// where the checker cannot go on: operands that agree on an operator that is
/// neither arithmetic nor boolean.
pub open spec fn binary_type(span: Span, op: TokenKind, a: Type, b: Type) -> Option<
    Result<Type, TeenyCompilerError>,
> {
    let int_bool_cmp = ((a is Bool && b is I16) || (a is I16 && b is Bool)) && comparison_op(op);
    if !type_eq(a, b) && !int_bool_cmp {
        if a is Pointer && b is I16 && (op is Plus || op is Minus) {
            Some(Ok(a))
        } else {
            Some(Err(mismatch(span, a, b)))
        }
    } else if arithmetic_op(op) {
        Some(Ok(a))
    } else if boolean_op(op) {
        Some(Ok(Type::Bool))
    } else {
        None
    }
}

/// The type of `target = value`: the types must be equal, except that an
/// `I16` (an address) may be assigned to a pointer.
pub open spec fn assign_type(span: Span, a: Type, b: Type) -> Result<Type, TeenyCompilerError> {
    if !type_eq(a, b) {
        if a is Pointer && b is I16 {
            Ok(a)
        } else {
            Err(mismatch(span, a, b))
        }
    } else {
        Ok(b)
    }
}

/// The type of an expression, given the local scopes (innermost last) and
/// what the global scope declares; or the first error met, evaluating
/// operands left to right. `None` where the checker cannot go on: a struct
/// member access, static access or struct literal, whose types it cannot
/// infer, or a binary operator it does not know (see [`binary_type`]).
pub open spec fn infer(
    l: Seq<Map<Seq<char>, Type>>,
    g: Map<Seq<char>, SymbolInfo>,
    e: Expr,
) -> Option<Result<Type, TeenyCompilerError>>
    decreases e, 0nat,
{
    match e.node {
        ExprKind::Integer(_) => Some(Ok(Type::I16)),
        ExprKind::Bool(_) => Some(Ok(Type::Bool)),
        ExprKind::Ident(name) => match find(l, name@) {
            Some(t) => Some(Ok(t)),
            None => match global_type(g, name@) {
                Some(t) => Some(Ok(t)),
                None => Some(Err(cannot_infer(e.span))),
            },
        },
        ExprKind::Array(items) => if items.len() == 0 {
            Some(Err(cannot_infer(e.span)))
        } else {
            proof {
                assert(decreases_to!(e.node => items));
            }
            match infer(l, g, items@[0]) {
                Some(Ok(first)) => infer_items(l, g, items@, 1, first),
                r => r,
            }
        },
        ExprKind::Increment { .. } | ExprKind::Decrement { .. } => Some(Ok(Type::I16)),
        ExprKind::Unary { op, rhs } => match infer(l, g, *rhs) {
            Some(Ok(t)) => Some(unary_type(e.span, op, t)),
            r => r,
        },
        ExprKind::Binary { lhs, op, rhs } => match infer(l, g, *lhs) {
            Some(Ok(a)) => match infer(l, g, *rhs) {
                Some(Ok(b)) => binary_type(e.span, op, a, b),
                r => r,
            },
            r => r,
        },
        ExprKind::Assignment { target, value } => match infer(l, g, *target) {
            Some(Ok(a)) => match infer(l, g, *value) {
                Some(Ok(b)) => Some(assign_type(e.span, a, b)),
                r => r,
            },
            r => r,
        },
        ExprKind::Call { callee, args } => match callee.node {
            ExprKind::Ident(f) => if g.contains_key(f@) && g[f@] is Fn {
                let params = g[f@]->Fn_params;
                if params.len() != args.len() {
                    Some(
                        Err(
                            TeenyCompilerError {
                                span: e.span,
                                kind: TeenyCompilerErrorKind::ParamCountMismatch(
                                    params.len() as usize,
                                    args.len() as usize,
                                ),
                            },
                        ),
                    )
                } else {
                    proof {
                        assert(decreases_to!(e.node => args));
                    }
                    match infer_args(l, g, params, args@, 0) {
                        Some(Ok(_)) => Some(Ok(or_void(g[f@]->Fn_return_type))),
                        Some(Err(x)) => Some(Err(x)),
                        None => None,
                    }
                }
            } else {
                Some(
                    Err(
                        TeenyCompilerError {
                            span: callee.span,
                            kind: TeenyCompilerErrorKind::IdentNotDefined(f),
                        },
                    ),
                )
            },
            _ => Some(Err(TeenyCompilerError { span: e.span, kind: TeenyCompilerErrorKind::SyntaxError })),
        },
        ExprKind::Subscript { array, index } => match infer(l, g, *array) {
            Some(Ok(a)) => match infer(l, g, *index) {
                Some(Ok(i)) => if !(i is I16) {
                    Some(Err(mismatch(index.span, Type::I16, i)))
                } else {
                    match a {
                        Type::Array { ty, .. } => Some(Ok(*ty)),
                        _ => Some(Err(cannot_infer(e.span))),
                    }
                },
                r => r,
            },
            r => r,
        },
        ExprKind::MemberAccess { .. } | ExprKind::StaticAccess { .. } | ExprKind::StructInit {
            ..
        } => None,
    }
}

/// The items of an array literal from index `i` on must have the type
/// `first` of its first item; the result is that type, or the first error.
pub open spec fn infer_items(
    l: Seq<Map<Seq<char>, Type>>,
    g: Map<Seq<char>, SymbolInfo>,
    items: Seq<Expr>,
    i: int,
    first: Type,
) -> Option<Result<Type, TeenyCompilerError>>
    decreases items, items.len() - i,
{
    if i < 0 || i >= items.len() {
        Some(Ok(first))
    } else {
        match infer(l, g, items[i]) {
            Some(Ok(t)) => if !type_eq(t, first) {
                Some(Err(mismatch(items[i].span, first, t)))
            } else {
                infer_items(l, g, items, i + 1, first)
            },
            r => r,
        }
    }
}

/// The arguments of a call from index `i` on must have the types of the
/// parameters; the first error met, if any.
pub open spec fn infer_args(
    l: Seq<Map<Seq<char>, Type>>,
    g: Map<Seq<char>, SymbolInfo>,
    params: Seq<(String, Type)>,
    args: Seq<Expr>,
    i: int,
) -> Option<Result<(), TeenyCompilerError>>
    decreases args, args.len() - i,
{
    if i < 0 || i >= args.len() || i >= params.len() {
        Some(Ok(()))
    } else {
        match infer(l, g, args[i]) {
            Some(Ok(t)) => if !type_eq(params[i].1, t) {
                Some(Err(mismatch(args[i].span, params[i].1, t)))
            } else {
                infer_args(l, g, params, args, i + 1)
            },
            Some(Err(x)) => Some(Err(x)),
            None => None,
        }
    }
}

/// The state of type checking: the local scopes (innermost last), the errors
/// so far, the types recorded by node id, and the return type of the function
/// being checked.
pub ghost struct TcState {
    pub scopes: Seq<Map<Seq<char>, Type>>,
    pub errors: Seq<TeenyCompilerError>,
    pub types: Map<usize, Type>,
    pub ret: Option<Type>,
}

pub open spec fn tc_report(st: TcState, e: TeenyCompilerError) -> TcState {
    TcState { errors: st.errors.push(e), ..st }
}

/// Records the outcome of inferring a node's type: the type, or the error.
pub open spec fn tc_record(st: TcState, id: usize, r: Result<Type, TeenyCompilerError>) -> TcState {
    match r {
        Ok(t) => TcState { types: st.types.insert(id, t), ..st },
        Err(x) => tc_report(st, x),
    }
}

pub open spec fn tc_declare(st: TcState, name: Seq<char>, t: Type) -> TcState {
    TcState {
        scopes: st.scopes.update(st.scopes.len() - 1, st.scopes.last().insert(name, t)),
        ..st
    }
}

pub open spec fn tc_open(st: TcState) -> TcState {
    TcState { scopes: st.scopes.push(Map::empty()), ..st }
}

pub open spec fn tc_close(st: TcState) -> TcState {
    TcState { scopes: st.scopes.drop_last(), ..st }
}

/// Visiting an expression: its type is inferred and recorded under its id (or
/// the error reported), then its parts are visited in source order. `None`
/// where the checker cannot go on (see [`infer`]).
pub open spec fn tc_expr(st: TcState, g: Map<Seq<char>, SymbolInfo>, e: Expr) -> Option<TcState>
    decreases e, 0nat,
{
    match infer(st.scopes, g, e) {
        None => None,
        Some(r) => {
            let st1 = tc_record(st, e.id.0, r);
            match e.node {
                ExprKind::Integer(_) | ExprKind::Bool(_) | ExprKind::Ident(_) => Some(st1),
                ExprKind::Array(items) => {
                    proof {
                        assert(decreases_to!(e.node => items));
                    }
                    tc_exprs(st1, g, items@, 0)
                },
                ExprKind::Increment { expr, .. } => tc_expr(st1, g, *expr),
                ExprKind::Decrement { expr, .. } => tc_expr(st1, g, *expr),
                ExprKind::Unary { rhs, .. } => tc_expr(st1, g, *rhs),
                ExprKind::Binary { lhs, rhs, .. } => match tc_expr(st1, g, *lhs) {
                    Some(st2) => tc_expr(st2, g, *rhs),
                    None => None,
                },
                ExprKind::Assignment { target, value } => match tc_expr(st1, g, *target) {
                    Some(st2) => tc_expr(st2, g, *value),
                    None => None,
                },
                ExprKind::Call { callee, args } => match tc_expr(st1, g, *callee) {
                    Some(st2) => {
                        proof {
                            assert(decreases_to!(e.node => args));
                        }
                        tc_exprs(st2, g, args@, 0)
                    },
                    None => None,
                },
                ExprKind::Subscript { array, index } => match tc_expr(st1, g, *array) {
                    Some(st2) => tc_expr(st2, g, *index),
                    None => None,
                },
                ExprKind::MemberAccess { .. } | ExprKind::StaticAccess { .. } | ExprKind::StructInit {
                    ..
                } => None,
            }
        },
    }
}

/// Visiting the expressions of a list from index `i` on, in order.
pub open spec fn tc_exprs(st: TcState, g: Map<Seq<char>, SymbolInfo>, es: Seq<Expr>, i: int) -> Option<TcState>
    decreases es, es.len() - i,
{
    if i < 0 || i >= es.len() {
        Some(st)
    } else {
        match tc_expr(st, g, es[i]) {
            Some(s1) => tc_exprs(s1, g, es, i + 1),
            None => None,
        }
    }
}

/// The condition of an `if` or `while` must be an `I16` or a `Bool`.
pub open spec fn tc_cond(st: TcState, g: Map<Seq<char>, SymbolInfo>, span: Span, cond: Expr) -> Option<TcState> {
    match infer(st.scopes, g, cond) {
        Some(Ok(t)) => Some(
            if t is I16 || t is Bool {
                st
            } else {
                tc_report(st, mismatch(span, Type::Bool, t))
            },
        ),
        Some(Err(x)) => Some(tc_report(st, x)),
        None => None,
    }
}

/// The type a declaration gives its variable: the annotation if there is one,
/// else the inferred type (`Error` if inference failed).
pub open spec fn declared_type(ty: Option<Type>, r: Result<Type, TeenyCompilerError>) -> Type {
    match ty {
        Some(t) => t,
        None => match r {
            Ok(t) => t,
            Err(_) => Type::Error,
        },
    }
}

/// Checking a variable declaration: an inference error is reported; an
/// annotation must match the inferred type, except that an `I16` may
/// initialize a pointer; the variable is declared with its type, recorded
/// under the declaration's id; then the initializer is visited.
pub open spec fn tc_var_decl(
    st: TcState,
    g: Map<Seq<char>, SymbolInfo>,
    id: NodeId,
    span: Span,
    name: Seq<char>,
    ty: Option<Type>,
    value: Expr,
) -> Option<TcState> {
    match infer(st.scopes, g, value) {
        None => None,
        Some(r) => {
            let inferred = match r {
                Ok(t) => t,
                Err(_) => Type::Error,
            };
            let st1 = match r {
                Ok(_) => st,
                Err(x) => tc_report(st, x),
            };
            let st2 = match ty {
                Some(t) => if !type_eq(t, inferred) && !(inferred is Error) && !(t is Pointer
                    && inferred is I16) {
                    tc_report(st1, mismatch(span, t, inferred))
                } else {
                    st1
                },
                None => st1,
            };
            let resolved = declared_type(ty, r);
            tc_expr(
                tc_declare(TcState { types: st2.types.insert(id.0, resolved), ..st2 }, name, resolved),
                g,
                value,
            )
        },
    }
}

/// Checking a `return` against the return type of the enclosing function
/// (`Void` outside any, or where none is declared).
pub open spec fn tc_return(st: TcState, g: Map<Seq<char>, SymbolInfo>, span: Span, e: Option<Expr>) -> Option<TcState> {
    let st1 = if e is None && st.ret is Some {
        tc_report(st, mismatch(span, st.ret.unwrap(), Type::Void))
    } else {
        st
    };
    let expected = or_void(st.ret);
    match e {
        None => Some(
            if expected is Void {
                st1
            } else {
                tc_report(st1, mismatch(span, expected, Type::Void))
            },
        ),
        Some(x) => match infer(st1.scopes, g, x) {
            None => None,
            Some(r) => {
                let st2 = match r {
                    Ok(_) => st1,
                    Err(err) => tc_report(st1, err),
                };
                let t = match r {
                    Ok(t) => t,
                    Err(_) => Type::Error,
                };
                Some(
                    if expected is Void {
                        tc_report(st2, mismatch(span, Type::Void, t))
                    } else if !type_eq(t, expected) && !(t is Error) {
                        tc_report(st2, mismatch(span, expected, t))
                    } else {
                        st2
                    },
                )
            },
        },
    }
}

/// Declares each parameter as a local of its type.
pub open spec fn tc_declare_params(st: TcState, ps: Seq<(String, Type)>) -> TcState
    decreases ps.len(),
{
    if ps.len() == 0 {
        st
    } else {
        tc_declare(tc_declare_params(st, ps.drop_last()), ps.last().0@, ps.last().1)
    }
}

/// Checking `if` and `while`: the condition, then the branches or the body.
pub open spec fn tc_branch(st: TcState, g: Map<Seq<char>, SymbolInfo>, span: Span, cond: Expr) -> Option<TcState> {
    match tc_cond(st, g, span, cond) {
        Some(s1) => tc_expr(s1, g, cond),
        None => None,
    }
}

/// Checking `if (cond) then_branch else else_branch`.
pub open spec fn tc_if(
    st: TcState,
    g: Map<Seq<char>, SymbolInfo>,
    span: Span,
    cond: Expr,
    then_branch: Stmt,
    else_branch: Option<&Stmt>,
) -> Option<TcState> {
    match tc_branch(st, g, span, cond) {
        Some(s1) => match tc_stmt(s1, g, then_branch) {
            Some(s2) => match else_branch {
                Some(b) => tc_stmt(s2, g, *b),
                None => Some(s2),
            },
            None => None,
        },
        None => None,
    }
}

/// Checking a statement. Blocks and function bodies get a scope of their own;
/// a function body is checked against the function's return type. `None`
/// where the checker cannot go on (see [`infer`]).
pub open spec fn tc_stmt(st: TcState, g: Map<Seq<char>, SymbolInfo>, s: Stmt) -> Option<TcState>
    decreases s,
{
    match s.node {
        StmtKind::VarDecl { name, ty, value, .. } => tc_var_decl(st, g, s.id, s.span, name@, ty, value),
        StmtKind::Expr(e) => tc_expr(st, g, e),
        StmtKind::Block(stmts) => match tc_stmts(tc_open(st), g, stmts@, 0) {
            Some(s1) => Some(tc_close(s1)),
            None => None,
        },
        StmtKind::Return(e) => tc_return(st, g, s.span, e),
        StmtKind::If { cond, then_branch, else_branch } => match tc_branch(st, g, s.span, cond) {
            Some(s1) => match tc_stmt(s1, g, *then_branch) {
                Some(s2) => match else_branch {
                    Some(b) => tc_stmt(s2, g, *b),
                    None => Some(s2),
                },
                None => None,
            },
            None => None,
        },
        StmtKind::While { cond, body } => match tc_branch(st, g, s.span, cond) {
            Some(s1) => tc_stmt(s1, g, *body),
            None => None,
        },
        StmtKind::Fn { params, return_type, body, .. } => {
            let inner = tc_declare_params(TcState { ret: return_type, ..tc_open(st) }, params@);
            match tc_stmt(inner, g, *body) {
                Some(s1) => Some(tc_close(TcState { ret: st.ret, ..s1 })),
                None => None,
            }
        },
        StmtKind::Struct { members, .. } => tc_stmts(st, g, members@, 0),
        StmtKind::StructField { .. } => Some(st),
    }
}

/// Checking the statements of a list from index `i` on, in order.
pub open spec fn tc_stmts(st: TcState, g: Map<Seq<char>, SymbolInfo>, ss: Seq<Stmt>, i: int) -> Option<TcState>
    decreases ss, ss.len() - i,
{
    if i < 0 || i >= ss.len() {
        Some(st)
    } else {
        match tc_stmt(st, g, ss[i]) {
            Some(s1) => tc_stmts(s1, g, ss, i + 1),
            None => None,
        }
    }
}

pub struct TypeChecker<'a> {
    scopes: Vec<StringHashMap<Type>>,
    global_scope: &'a Scope,
    pub errors: Vec<TeenyCompilerError>,
    pub type_map: TypeMap,
    current_fn_return_ty: Option<Type>,
}

impl<'a> TypeChecker<'a> {
    /// The local scopes, innermost last.
    pub closed spec fn locals(&self) -> Seq<Map<Seq<char>, Type>> {
        self.scopes@.map_values(|m: StringHashMap<Type>| m@)
    }

    /// What the global scope declares.
    pub closed spec fn globals(&self) -> Map<Seq<char>, SymbolInfo> {
        scope_info(self.global_scope@)
    }

    pub closed spec fn state(&self) -> TcState {
        TcState {
            scopes: self.locals(),
            errors: self.errors@,
            types: self.type_map@,
            ret: self.current_fn_return_ty,
        }
    }

    /// There is always at least one local scope.
    pub open spec fn wf(&self) -> bool {
        self.state().scopes.len() >= 1
    }

    pub fn new(global_scope: &'a Scope) -> (r: Self)
        ensures
            r.wf(),
            r.globals() == scope_info(global_scope@),
            r.state() == (TcState {
                scopes: seq![Map::<Seq<char>, Type>::empty()],
                errors: Seq::<TeenyCompilerError>::empty(),
                types: Map::<usize, Type>::empty(),
                ret: None,
            }),
    {
        let mut scopes: Vec<StringHashMap<Type>> = Vec::new();
        scopes.push(StringHashMap::new());
        let r = Self {
            scopes,
            global_scope,
            errors: Vec::new(),
            type_map: HashMapWithView::new(),
            current_fn_return_ty: None,
        };
        proof {
            assert(r.locals() =~= seq![Map::<Seq<char>, Type>::empty()]);
        }
        r
    }

    pub fn enter_scope(&mut self)
        ensures
            final(self).state() == tc_open(old(self).state()),
            final(self).globals() == old(self).globals(),
    {
        self.scopes.push(StringHashMap::new());
        proof {
            assert(self.locals() =~= old(self).locals().push(Map::empty()));
        }
    }

    /// Leaves the innermost scope; with no scope left there is nothing to leave.
    pub fn exit_scope(&mut self)
        ensures
            old(self).state().scopes.len() > 0 ==> final(self).state() == tc_close(old(self).state()),
            old(self).state().scopes.len() == 0 ==> final(self).state() == old(self).state(),
            final(self).globals() == old(self).globals(),
    {
        self.scopes.pop();
        proof {
            if old(self).state().scopes.len() > 0 {
                assert(self.locals() =~= old(self).locals().drop_last());
            } else {
                assert(self.locals() =~= old(self).locals());
            }
        }
    }

    /// The errors reported so far (the `errors` field).
    pub fn errors(&self) -> (r: &Vec<TeenyCompilerError>)
        ensures
            r@ == self.state().errors,
    {
        &self.errors
    }

    /// The types recorded so far by node id (the `type_map` field).
    pub fn type_map(&self) -> (r: &TypeMap)
        ensures
            r@ == self.state().types,
    {
        &self.type_map
    }

    /// The type of the innermost local with the given name; the global scope
    /// is not consulted.
    pub fn lookup(&self, name: &String) -> (r: Option<&Type>)
        ensures
            match r {
                Some(t) => find(self.state().scopes, name@) == Some(*t),
                None => find(self.state().scopes, name@) is None,
            },
    {
        let mut i: usize = self.scopes.len();
        proof {
            assert(self.locals().subrange(0, i as int) =~= self.locals());
        }
        while i > 0
            invariant
                i <= self.scopes@.len(),
                find(self.locals(), name@) == find(self.locals().subrange(0, i as int), name@),
            decreases i,
        {
            proof {
                assert(self.locals().subrange(0, i as int).drop_last() =~= self.locals().subrange(0, i - 1));
            }
            if let Some(t) = self.scopes[i - 1].get(name.as_str()) {
                return Some(t);
            }
            i -= 1;
        }
        None
    }

    /// Declares a local in the innermost scope.
    fn insert(&mut self, name: String, ty: Type)
        requires
            old(self).wf(),
        ensures
            final(self).wf(),
            final(self).state() == tc_declare(old(self).state(), name@, ty),
            final(self).globals() == old(self).globals(),
    {
        let last = self.scopes.len() - 1;
        let ghost raw = self.locals();
        let ghost key = name@;
        let ghost t = ty;
        let mut top = self.scopes.pop().unwrap();
        top.insert(name, ty);
        self.scopes.push(top);
        proof {
            assert(self.locals() =~= raw.update(last as int, raw.last().insert(key, t)));
        }
    }

    /// Infers the type of an expression (see [`infer`]); `None` where the
    /// checker cannot go on.
    fn infer_type(&self, expr: &Expr) -> (r: Option<Result<Type, TeenyCompilerError>>)
        ensures
            r == infer(self.state().scopes, self.globals(), *expr),
        decreases expr, 2nat,
    {
        let ty: Type = match &expr.node {
            ExprKind::Integer(_) => Type::I16,
            ExprKind::Bool(_) => Type::Bool,
            ExprKind::Ident(name) => {
                match self.lookup(name) {
                    Some(t) => t.clone(),
                    None => {
                        proof {
                            lemma_globals_get(self.global_scope@, name@);
                        }
                        match self.global_scope.get(name.as_str()) {
                            Some(sym) => match &sym.kind {
                                SymbolKind::Var { ty, .. } => match ty {
                                    Some(t) => t.clone(),
                                    None => {
                                        return Some(Err(TeenyCompilerError {
                                            span: expr.span,
                                            kind: TeenyCompilerErrorKind::CannotInferType,
                                        }));
                                    },
                                },
                                SymbolKind::Fn { return_type, .. } => match return_type {
                                    Some(t) => t.clone(),
                                    None => Type::Void,
                                },
                            },
                            None => {
                                return Some(Err(TeenyCompilerError {
                                    span: expr.span,
                                    kind: TeenyCompilerErrorKind::CannotInferType,
                                }));
                            },
                        }
                    },
                }
            },
            ExprKind::Array(items) => {
                if items.len() == 0 {
                    return Some(Err(TeenyCompilerError {
                        span: expr.span,
                        kind: TeenyCompilerErrorKind::CannotInferType,
                    }));
                }
                proof {
                    assert(decreases_to!(expr.node => expr.node->Array_0));
                }
                return self.infer_items(items);
            },
            ExprKind::Increment { .. } => Type::I16,
            ExprKind::Decrement { .. } => Type::I16,
            ExprKind::Unary { op, rhs } => {
                let rhs_ty = match self.infer_type(rhs) {
                    Some(Ok(t)) => t,
                    other => {
                        return other;
                    },
                };
                match op {
                    TokenKind::Minus => {
                        if matches!(rhs_ty, Type::I16) {
                            rhs_ty
                        } else {
                            return Some(Err(TeenyCompilerError {
                                span: expr.span,
                                kind: TeenyCompilerErrorKind::TypeMismatch(Type::I16, rhs_ty),
                            }));
                        }
                    },
                    TokenKind::Bang => {
                        if matches!(rhs_ty, Type::Bool) {
                            Type::Bool
                        } else {
                            return Some(Err(TeenyCompilerError {
                                span: expr.span,
                                kind: TeenyCompilerErrorKind::TypeMismatch(Type::Bool, rhs_ty),
                            }));
                        }
                    },
                    TokenKind::Star => {
                        if let Type::Pointer(inner) = rhs_ty {
                            *inner
                        } else {
                            return Some(Err(TeenyCompilerError {
                                span: expr.span,
                                kind: TeenyCompilerErrorKind::CannotInferType,
                            }));
                        }
                    },
                    TokenKind::BitAnd => Type::Pointer(Box::new(rhs_ty)),
                    TokenKind::BitNot => {
                        if matches!(rhs_ty, Type::I16) {
                            Type::I16
                        } else {
                            return Some(Err(TeenyCompilerError {
                                span: expr.span,
                                kind: TeenyCompilerErrorKind::TypeMismatch(Type::I16, rhs_ty),
                            }));
                        }
                    },
                    _ => {
                        return Some(Err(TeenyCompilerError {
                            span: expr.span,
                            kind: TeenyCompilerErrorKind::CannotInferType,
                        }));
                    },
                }
            },
            ExprKind::Binary { lhs, op, rhs } => {
                let lhs_ty = match self.infer_type(lhs) {
                    Some(Ok(t)) => t,
                    other => {
                        return other;
                    },
                };
                let rhs_ty = match self.infer_type(rhs) {
                    Some(Ok(t)) => t,
                    other => {
                        return other;
                    },
                };

                // Bool and I16 are the same 16-bit word at run time, so
                // comparisons may mix them (e.g. `bool_val == 1`).
                let is_int_bool_cmp = (matches!(lhs_ty, Type::Bool) && matches!(rhs_ty, Type::I16)
                    || matches!(lhs_ty, Type::I16) && matches!(rhs_ty, Type::Bool)) && matches!(
                    op,
                    TokenKind::Equality | TokenKind::BangEqual | TokenKind::Lt | TokenKind::Lte
                        | TokenKind::Gt | TokenKind::Gte
                );

                if !type_equal(&lhs_ty, &rhs_ty) && !is_int_bool_cmp {
                    if let Type::Pointer(_) = lhs_ty {
                        if matches!(rhs_ty, Type::I16) {
                            if matches!(op, TokenKind::Plus | TokenKind::Minus) {
                                return Some(Ok(lhs_ty));
                            }
                        }
                    }
                    return Some(Err(TeenyCompilerError {
                        span: expr.span,
                        kind: TeenyCompilerErrorKind::TypeMismatch(lhs_ty, rhs_ty),
                    }));
                }

                match op {
                    TokenKind::Plus | TokenKind::Minus | TokenKind::Star | TokenKind::Slash
                    | TokenKind::Percent | TokenKind::PlusPlus | TokenKind::MinusMinus
                    | TokenKind::BitAnd | TokenKind::BitOr | TokenKind::BitXor
                    | TokenKind::LeftShift | TokenKind::RightShift => lhs_ty,
                    TokenKind::And | TokenKind::Or | TokenKind::Bang | TokenKind::Gt
                    | TokenKind::Gte | TokenKind::Lt | TokenKind::Lte | TokenKind::Equality
                    | TokenKind::BangEqual => Type::Bool,
                    _ => {
                        return None;
                    },
                }
            },
            ExprKind::Assignment { target, value } => {
                let target_ty = match self.infer_type(target) {
                    Some(Ok(t)) => t,
                    other => {
                        return other;
                    },
                };
                let value_ty = match self.infer_type(value) {
                    Some(Ok(t)) => t,
                    other => {
                        return other;
                    },
                };

                if !type_equal(&target_ty, &value_ty) {
                    // An integer address may be assigned to a pointer.
                    if matches!(target_ty, Type::Pointer(_)) && matches!(value_ty, Type::I16) {
                        return Some(Ok(target_ty));
                    }
                    return Some(Err(TeenyCompilerError {
                        span: expr.span,
                        kind: TeenyCompilerErrorKind::TypeMismatch(target_ty, value_ty),
                    }));
                }

                value_ty
            },
            ExprKind::Call { callee, args } => {
                let fn_name = match &callee.node {
                    ExprKind::Ident(fn_name) => fn_name,
                    _ => {
                        return Some(Err(TeenyCompilerError {
                            span: expr.span,
                            kind: TeenyCompilerErrorKind::SyntaxError,
                        }));
                    },
                };
                proof {
                    lemma_globals_get(self.global_scope@, fn_name@);
                }
                let (params, return_type) = match self.global_scope.get(fn_name.as_str()) {
                    Some(Symbol { kind: SymbolKind::Fn { params, return_type }, .. }) => (
                        params,
                        return_type,
                    ),
                    _ => {
                        return Some(Err(TeenyCompilerError {
                            span: callee.span,
                            kind: TeenyCompilerErrorKind::IdentNotDefined(fn_name.clone()),
                        }));
                    },
                };

                if params.len() != args.len() {
                    return Some(Err(TeenyCompilerError {
                        span: expr.span,
                        kind: TeenyCompilerErrorKind::ParamCountMismatch(params.len(), args.len()),
                    }));
                }

                proof {
                    assert(decreases_to!(expr.node => expr.node->Call_args));
                }
                match self.infer_args(params, args) {
                    Some(Ok(())) => {},
                    Some(Err(e)) => {
                        return Some(Err(e));
                    },
                    None => {
                        return None;
                    },
                }

                match return_type {
                    Some(t) => t.clone(),
                    None => Type::Void,
                }
            },
            ExprKind::Subscript { array, index } => {
                let arr_ty = match self.infer_type(array) {
                    Some(Ok(t)) => t,
                    other => {
                        return other;
                    },
                };
                let idx_ty = match self.infer_type(index) {
                    Some(Ok(t)) => t,
                    other => {
                        return other;
                    },
                };

                if !matches!(idx_ty, Type::I16) {
                    return Some(Err(TeenyCompilerError {
                        span: index.span,
                        kind: TeenyCompilerErrorKind::TypeMismatch(Type::I16, idx_ty),
                    }));
                }

                match arr_ty {
                    Type::Array { ty, .. } => *ty,
                    _ => {
                        return Some(Err(TeenyCompilerError {
                            span: expr.span,
                            kind: TeenyCompilerErrorKind::CannotInferType,
                        }));
                    },
                }
            },
            ExprKind::MemberAccess { .. } | ExprKind::StaticAccess { .. } | ExprKind::StructInit {
                ..
            } => {
                return None;
            },
        };

        Some(Ok(ty))
    }

    /// The type of a non-empty array literal: that of its first item, which
    /// every other item must have.
    fn infer_items(&self, items: &Vec<Expr>) -> (r: Option<Result<Type, TeenyCompilerError>>)
        requires
            items@.len() > 0,
        ensures
            r == match infer(self.state().scopes, self.globals(), items@[0]) {
                Some(Ok(first)) => infer_items(self.state().scopes, self.globals(), items@, 1, first),
                other => other,
            },
        decreases items, 1nat,
    {
        proof {
            assert(decreases_to!(items => items[0]));
        }
        let first_ty = match self.infer_type(&items[0]) {
            Some(Ok(t)) => t,
            other => {
                return other;
            },
        };
        let ghost l = self.state().scopes;
        let ghost g = self.globals();
        let mut i: usize = 1;
        while i < items.len()
            invariant
                1 <= i <= items@.len(),
                l == self.state().scopes,
                g == self.globals(),
                infer(l, g, items@[0]) == Some(Ok::<Type, TeenyCompilerError>(first_ty)),
                infer_items(l, g, items@, 1, first_ty) == infer_items(l, g, items@, i as int, first_ty),
            decreases items@.len() - i,
        {
            proof {
                assert(decreases_to!(items => items[i as int]));
            }
            let item_ty = match self.infer_type(&items[i]) {
                Some(Ok(t)) => t,
                other => {
                    return other;
                },
            };
            if !type_equal(&item_ty, &first_ty) {
                return Some(Err(TeenyCompilerError {
                    span: items[i].span,
                    kind: TeenyCompilerErrorKind::TypeMismatch(first_ty, item_ty),
                }));
            }
            i += 1;
        }
        Some(Ok(first_ty))
    }

    /// Checks each argument of a call against its parameter's type.
    fn infer_args(&self, params: &Vec<(String, Type)>, args: &Vec<Expr>) -> (r: Option<Result<(), TeenyCompilerError>>)
        requires
            params@.len() == args@.len(),
        ensures
            r == infer_args(self.state().scopes, self.globals(), params@, args@, 0),
        decreases args, 1nat,
    {
        let ghost l = self.state().scopes;
        let ghost g = self.globals();
        let mut i: usize = 0;
        while i < params.len()
            invariant
                0 <= i <= params@.len(),
                params@.len() == args@.len(),
                l == self.state().scopes,
                g == self.globals(),
                infer_args(l, g, params@, args@, 0) == infer_args(l, g, params@, args@, i as int),
            decreases params@.len() - i,
        {
            let param_ty = &params[i].1;
            proof {
                assert(decreases_to!(args => args[i as int]));
            }
            let arg_ty = match self.infer_type(&args[i]) {
                Some(Ok(t)) => t,
                Some(Err(e)) => {
                    return Some(Err(e));
                },
                None => {
                    return None;
                },
            };
            if !type_equal(param_ty, &arg_ty) {
                return Some(Err(TeenyCompilerError {
                    span: args[i].span,
                    kind: TeenyCompilerErrorKind::TypeMismatch(param_ty.clone(), arg_ty),
                }));
            }
            i += 1;
        }
        Some(Ok(()))
    }

    /// Records the outcome of inferring a node's type.
    fn record(&mut self, id: NodeId, r: Result<Type, TeenyCompilerError>)
        ensures
            final(self).state() == tc_record(old(self).state(), id.0, r),
            final(self).globals() == old(self).globals(),
    {
        match r {
            Ok(ty) => {
                self.type_map.insert(id.0, ty);
            },
            Err(e) => {
                self.errors.push(e);
            },
        }
    }

    /// Checks an expression and everything in it (see [`tc_expr`]); `false`
    /// where the checker cannot go on.
    pub fn visit_expr(&mut self, expr: &Expr) -> (ok: bool)
        requires
            old(self).wf(),
        ensures
            ok == tc_expr(old(self).state(), old(self).globals(), *expr) is Some,
            ok ==> final(self).state() == tc_expr(old(self).state(), old(self).globals(), *expr)->0,
            final(self).state().scopes == old(self).state().scopes,
            final(self).state().ret == old(self).state().ret,
            final(self).globals() == old(self).globals(),
        decreases expr, 2nat,
    {
        match self.infer_type(expr) {
            Some(r) => self.record(expr.id, r),
            None => {
                return false;
            },
        }
        match &expr.node {
            ExprKind::Integer(_) | ExprKind::Bool(_) | ExprKind::Ident(_) => true,
            ExprKind::Array(items) => {
                proof {
                    assert(decreases_to!(expr.node => expr.node->Array_0));
                }
                self.visit_exprs(items)
            },
            ExprKind::Increment { expr, .. } => self.visit_expr(expr),
            ExprKind::Decrement { expr, .. } => self.visit_expr(expr),
            ExprKind::Unary { rhs, .. } => self.visit_expr(rhs),
            ExprKind::Binary { lhs, rhs, .. } => self.visit_expr(lhs) && self.visit_expr(rhs),
            ExprKind::Assignment { target, value } => self.visit_expr(target) && self.visit_expr(value),
            ExprKind::Call { callee, args } => {
                if !self.visit_expr(callee) {
                    return false;
                }
                proof {
                    assert(decreases_to!(expr.node => expr.node->Call_args));
                }
                self.visit_exprs(args)
            },
            ExprKind::Subscript { array, index } => self.visit_expr(array) && self.visit_expr(index),
            ExprKind::MemberAccess { .. } | ExprKind::StaticAccess { .. } | ExprKind::StructInit {
                ..
            } => false,
        }
    }

    /// Checks a list of expressions in order.
    fn visit_exprs(&mut self, items: &Vec<Expr>) -> (ok: bool)
        requires
            old(self).wf(),
        ensures
            ok == tc_exprs(old(self).state(), old(self).globals(), items@, 0) is Some,
            ok ==> final(self).state() == tc_exprs(old(self).state(), old(self).globals(), items@, 0)->0,
            final(self).state().scopes == old(self).state().scopes,
            final(self).state().ret == old(self).state().ret,
            final(self).globals() == old(self).globals(),
        decreases items, 1nat,
    {
        let mut i: usize = 0;
        while i < items.len()
            invariant
                0 <= i <= items@.len(),
                self.wf(),
                tc_exprs(old(self).state(), old(self).globals(), items@, 0) == tc_exprs(
                    self.state(),
                    old(self).globals(),
                    items@,
                    i as int,
                ),
                self.state().scopes == old(self).state().scopes,
                self.state().ret == old(self).state().ret,
                self.globals() == old(self).globals(),
            decreases items@.len() - i,
        {
            proof {
                assert(decreases_to!(items => items[i as int]));
            }
            if !self.visit_expr(&items[i]) {
                return false;
            }
            i += 1;
        }
        true
    }

    /// Checks a statement (see [`tc_stmt`]); `false` where the checker
    /// cannot go on.
    pub fn visit_stmt(&mut self, stmt: &Stmt) -> (ok: bool)
        requires
            old(self).wf(),
        ensures
            ok == tc_stmt(old(self).state(), old(self).globals(), *stmt) is Some,
            ok ==> final(self).state() == tc_stmt(old(self).state(), old(self).globals(), *stmt)->0,
            ok ==> final(self).state().scopes.len() == old(self).state().scopes.len(),
            ok ==> final(self).state().ret == old(self).state().ret,
            final(self).globals() == old(self).globals(),
        decreases stmt_size(*stmt), 2nat,
    {
        let span = stmt.span;
        let id = stmt.id;
        match &stmt.node {
            StmtKind::VarDecl { name, ty, value, mutable } => self.visit_var_decl(
                id,
                span,
                name,
                ty,
                value,
                *mutable,
            ),
            StmtKind::Expr(expr) => self.visit_expr(expr),
            StmtKind::Block(stmts) => self.visit_block(span, stmts),
            StmtKind::Return(expr) => self.visit_return(span, expr),
            StmtKind::If { cond, then_branch, else_branch } => {
                let else_ref: Option<&Stmt> = match else_branch {
                    Some(b) => Some(&**b),
                    None => None,
                };
                self.visit_if(span, cond, then_branch, else_ref)
            },
            StmtKind::While { cond, body } => self.visit_while(span, cond, body),
            StmtKind::Fn { name, params, return_type, body } => self.visit_fn(
                span,
                name,
                params,
                return_type,
                body,
            ),
            StmtKind::Struct { name, members } => self.visit_struct(span, name, members),
            StmtKind::StructField { .. } => true,
        }
    }

    /// Checks a list of statements in order.
    fn visit_stmts(&mut self, stmts: &Vec<Stmt>) -> (ok: bool)
        requires
            old(self).wf(),
        ensures
            ok == tc_stmts(old(self).state(), old(self).globals(), stmts@, 0) is Some,
            ok ==> final(self).state() == tc_stmts(old(self).state(), old(self).globals(), stmts@, 0)->0,
            ok ==> final(self).state().scopes.len() == old(self).state().scopes.len(),
            ok ==> final(self).state().ret == old(self).state().ret,
            final(self).globals() == old(self).globals(),
        decreases stmts_size(stmts@), 3nat,
    {
        let mut i: usize = 0;
        while i < stmts.len()
            invariant
                0 <= i <= stmts@.len(),
                self.wf(),
                tc_stmts(old(self).state(), old(self).globals(), stmts@, 0) == tc_stmts(
                    self.state(),
                    old(self).globals(),
                    stmts@,
                    i as int,
                ),
                self.state().scopes.len() == old(self).state().scopes.len(),
                self.state().ret == old(self).state().ret,
                self.globals() == old(self).globals(),
            decreases stmts@.len() - i,
        {
            proof {
                lemma_stmts_size_elem(stmts@, i as int);
            }
            if !self.visit_stmt(&stmts[i]) {
                return false;
            }
            i += 1;
        }
        true
    }

    /// Checks a variable declaration (see [`tc_var_decl`]): the variable gets
    /// its annotated type, or else the inferred one, and the declaration's
    /// node id is mapped to that type.
    pub fn visit_var_decl(
        &mut self,
        id: NodeId,
        span: Span,
        name: &String,
        ty: &Option<Type>,
        value: &Expr,
        _mutable: bool,
    ) -> (ok: bool)
        requires
            old(self).wf(),
        ensures
            ok == tc_var_decl(old(self).state(), old(self).globals(), id, span, name@, *ty, *value) is Some,
            ok ==> final(self).state() == tc_var_decl(
                old(self).state(),
                old(self).globals(),
                id,
                span,
                name@,
                *ty,
                *value,
            )->0,
            ok ==> final(self).state().scopes.len() == old(self).state().scopes.len(),
            ok ==> final(self).state().ret == old(self).state().ret,
            final(self).globals() == old(self).globals(),
    {
        let inferred = match self.infer_type(value) {
            Some(Ok(ty)) => ty,
            Some(Err(e)) => {
                self.errors.push(e);
                Type::Error
            },
            None => {
                return false;
            },
        };

        let resolved_ty = if let Some(t) = ty {
            if !type_equal(t, &inferred) && !matches!(inferred, Type::Error) {
                // An integer address may initialize a pointer.
                let is_int_to_ptr = matches!(t, Type::Pointer(_)) && matches!(inferred, Type::I16);
                if !is_int_to_ptr {
                    self.errors.push(TeenyCompilerError {
                        span,
                        kind: TeenyCompilerErrorKind::TypeMismatch(t.clone(), inferred),
                    });
                }
            }
            t.clone()
        } else {
            inferred
        };

        self.type_map.insert(id.0, resolved_ty.clone());
        self.insert(name.clone(), resolved_ty);
        self.visit_expr(value)
    }

    /// Checks a function body in a scope of its own that holds the parameters,
    /// against the function's return type.
    pub fn visit_fn(
        &mut self,
        _span: Span,
        _name: &String,
        params: &Vec<(String, Type)>,
        return_type: &Option<Type>,
        body: &Stmt,
    ) -> (ok: bool)
        requires
            old(self).wf(),
        ensures
            ({
                let inner = tc_declare_params(
                    TcState { ret: *return_type, ..tc_open(old(self).state()) },
                    params@,
                );
                &&& ok == tc_stmt(inner, old(self).globals(), *body) is Some
                &&& ok ==> final(self).state() == tc_close(
                    TcState { ret: old(self).state().ret, ..tc_stmt(inner, old(self).globals(), *body)->0 },
                )
            }),
            ok ==> final(self).state().scopes.len() == old(self).state().scopes.len(),
            ok ==> final(self).state().ret == old(self).state().ret,
            final(self).globals() == old(self).globals(),
        decreases stmt_size(*body), 3nat,
    {
        self.enter_scope();
        let old_ret_ty = clone_opt_type(&self.current_fn_return_ty);
        self.current_fn_return_ty = clone_opt_type(return_type);

        let ghost opened = self.state();
        let mut i: usize = 0;
        while i < params.len()
            invariant
                0 <= i <= params@.len(),
                self.wf(),
                self.state() == tc_declare_params(opened, params@.subrange(0, i as int)),
                self.state().scopes.len() == old(self).state().scopes.len() + 1,
                self.globals() == old(self).globals(),
            decreases params@.len() - i,
        {
            let (param_name, param_ty) = &params[i];
            proof {
                assert(params@.subrange(0, i + 1).drop_last() =~= params@.subrange(0, i as int));
            }
            self.insert(param_name.clone(), param_ty.clone());
            i += 1;
        }
        proof {
            assert(params@.subrange(0, params@.len() as int) =~= params@);
        }

        if !self.visit_stmt(body) {
            return false;
        }

        self.current_fn_return_ty = old_ret_ty;
        self.exit_scope();
        true
    }

    /// Checks the statements of a block in a scope of its own.
    pub fn visit_block(&mut self, _span: Span, stmts: &Vec<Stmt>) -> (ok: bool)
        requires
            old(self).wf(),
        ensures
            ok == tc_stmts(tc_open(old(self).state()), old(self).globals(), stmts@, 0) is Some,
            ok ==> final(self).state() == tc_close(
                tc_stmts(tc_open(old(self).state()), old(self).globals(), stmts@, 0)->0,
            ),
            ok ==> final(self).state().scopes.len() == old(self).state().scopes.len(),
            ok ==> final(self).state().ret == old(self).state().ret,
            final(self).globals() == old(self).globals(),
        decreases stmts_size(stmts@), 4nat,
    {
        self.enter_scope();
        if !self.visit_stmts(stmts) {
            return false;
        }
        self.exit_scope();
        true
    }

    /// Checks the members of a struct declaration in order.
    pub fn visit_struct(&mut self, _span: Span, _name: &String, members: &Vec<Stmt>) -> (ok: bool)
        requires
            old(self).wf(),
        ensures
            ok == tc_stmts(old(self).state(), old(self).globals(), members@, 0) is Some,
            ok ==> final(self).state() == tc_stmts(old(self).state(), old(self).globals(), members@, 0)->0,
            ok ==> final(self).state().scopes.len() == old(self).state().scopes.len(),
            ok ==> final(self).state().ret == old(self).state().ret,
            final(self).globals() == old(self).globals(),
        decreases stmts_size(members@), 4nat,
    {
        self.visit_stmts(members)
    }

    /// Checks a `return` (see [`tc_return`]).
    pub fn visit_return(&mut self, span: Span, expr: &Option<Expr>) -> (ok: bool)
        requires
            old(self).wf(),
        ensures
            ok == tc_return(old(self).state(), old(self).globals(), span, *expr) is Some,
            ok ==> final(self).state() == tc_return(old(self).state(), old(self).globals(), span, *expr)->0,
            final(self).state().scopes == old(self).state().scopes,
            final(self).state().ret == old(self).state().ret,
            final(self).globals() == old(self).globals(),
    {
        if expr.is_none() && !self.current_fn_return_ty.is_none() {
            self.errors.push(TeenyCompilerError {
                span,
                kind: TeenyCompilerErrorKind::TypeMismatch(
                    clone_opt_type(&self.current_fn_return_ty).unwrap(),
                    Type::Void,
                ),
            });
        }

        let expected = match &self.current_fn_return_ty {
            Some(t) => t.clone(),
            None => Type::Void,
        };

        match (expected, expr) {
            (Type::Void, None) => {},
            (Type::Void, Some(expr)) => {
                let ty = match self.infer_type(expr) {
                    Some(Ok(ty)) => ty,
                    Some(Err(e)) => {
                        self.errors.push(e);
                        Type::Error
                    },
                    None => {
                        return false;
                    },
                };
                self.errors.push(TeenyCompilerError {
                    span,
                    kind: TeenyCompilerErrorKind::TypeMismatch(Type::Void, ty),
                });
            },
            (expected, None) => {
                self.errors.push(TeenyCompilerError {
                    span,
                    kind: TeenyCompilerErrorKind::TypeMismatch(expected, Type::Void),
                });
            },
            (expected, Some(expr)) => {
                let ty = match self.infer_type(expr) {
                    Some(Ok(ty)) => ty,
                    Some(Err(e)) => {
                        self.errors.push(e);
                        Type::Error
                    },
                    None => {
                        return false;
                    },
                };

                if !type_equal(&ty, &expected) && !matches!(ty, Type::Error) {
                    self.errors.push(TeenyCompilerError {
                        span,
                        kind: TeenyCompilerErrorKind::TypeMismatch(expected, ty),
                    });
                }
            },
        }
        true
    }

    /// Checks a condition: it must be an `I16` or a `Bool` (see [`tc_cond`]),
    /// then it is visited.
    fn check_cond(&mut self, span: Span, cond: &Expr) -> (ok: bool)
        requires
            old(self).wf(),
        ensures
            ok == tc_branch(old(self).state(), old(self).globals(), span, *cond) is Some,
            ok ==> final(self).state() == tc_branch(old(self).state(), old(self).globals(), span, *cond)->0,
            final(self).state().scopes == old(self).state().scopes,
            final(self).state().ret == old(self).state().ret,
            final(self).globals() == old(self).globals(),
    {
        match self.infer_type(cond) {
            Some(Ok(Type::I16)) | Some(Ok(Type::Bool)) => {},
            Some(Ok(ty)) => self.errors.push(TeenyCompilerError {
                span,
                kind: TeenyCompilerErrorKind::TypeMismatch(Type::Bool, ty),
            }),
            Some(Err(e)) => {
                self.errors.push(e);
            },
            None => {
                return false;
            },
        }
        self.visit_expr(cond)
    }

    /// Checks the condition, then both branches.
    pub fn visit_if(&mut self, span: Span, cond: &Expr, then_branch: &Stmt, else_branch: Option<&Stmt>) -> (ok: bool)
        requires
            old(self).wf(),
        ensures
            ok == tc_if(old(self).state(), old(self).globals(), span, *cond, *then_branch, else_branch) is Some,
            ok ==> final(self).state() == tc_if(
                old(self).state(),
                old(self).globals(),
                span,
                *cond,
                *then_branch,
                else_branch,
            )->0,
            ok ==> final(self).state().scopes.len() == old(self).state().scopes.len(),
            ok ==> final(self).state().ret == old(self).state().ret,
            final(self).globals() == old(self).globals(),
        decreases stmt_size(*then_branch) + match else_branch {
            Some(b) => stmt_size(*b),
            None => 0,
        }, 3nat,
    {
        if !self.check_cond(span, cond) {
            return false;
        }
        if !self.visit_stmt(then_branch) {
            return false;
        }
        if let Some(else_branch) = else_branch {
            if !self.visit_stmt(else_branch) {
                return false;
            }
        }
        true
    }

    /// Checks the condition, then the body.
    pub fn visit_while(&mut self, span: Span, cond: &Expr, body: &Stmt) -> (ok: bool)
        requires
            old(self).wf(),
        ensures
            ok == (match tc_branch(old(self).state(), old(self).globals(), span, *cond) {
                Some(s1) => tc_stmt(s1, old(self).globals(), *body),
                None => None,
            }) is Some,
            ok ==> final(self).state() == (match tc_branch(old(self).state(), old(self).globals(), span, *cond) {
                Some(s1) => tc_stmt(s1, old(self).globals(), *body),
                None => None,
            })->0,
            ok ==> final(self).state().scopes.len() == old(self).state().scopes.len(),
            ok ==> final(self).state().ret == old(self).state().ret,
            final(self).globals() == old(self).globals(),
        decreases stmt_size(*body), 3nat,
    {
        if !self.check_cond(span, cond) {
            return false;
        }
        self.visit_stmt(body)
    }
}

/// What the global scope declares under a name is what its symbol declares.
proof fn lemma_globals_get(m: Map<Seq<char>, Symbol>, name: Seq<char>)
    ensures
        scope_info(m).contains_key(name) == m.contains_key(name),
        m.contains_key(name) ==> scope_info(m)[name] == info(m[name].kind),
{
    assert(scope_info(m).dom() =~= m.dom());
}

} // verus!

verus! {

/// Comparisons and the logical operators produce a `Bool` whenever they
/// type-check; a comparison of equal types, or of an `I16` with a `Bool`,
/// always type-checks.
pub proof fn lemma_comparison_is_bool(span: Span, op: TokenKind, a: Type, b: Type)
    requires
        boolean_op(op),
    ensures
        binary_type(span, op, a, b) is Some,
        binary_type(span, op, a, b) matches Some(Ok(t)) ==> t == Type::Bool,
        comparison_op(op) && (type_eq(a, b) || (a is I16 && b is Bool) || (a is Bool && b is I16))
            ==> binary_type(span, op, a, b) == Some(Ok::<Type, TeenyCompilerError>(Type::Bool)),
{
}

/// An arithmetic or bitwise operator on operands of one type gives that type;
/// on operands of different types it is a mismatch, except for an `I16` added
/// to or subtracted from a pointer, which gives the pointer type.
pub proof fn lemma_arithmetic_type(span: Span, op: TokenKind, a: Type, b: Type)
    requires
        arithmetic_op(op),
    ensures
        type_eq(a, b) ==> binary_type(span, op, a, b) == Some(Ok::<Type, TeenyCompilerError>(a)),
        a is Pointer && b is I16 && (op is Plus || op is Minus) ==> binary_type(span, op, a, b)
            == Some(Ok::<Type, TeenyCompilerError>(a)),
        !type_eq(a, b) && !(a is Pointer && b is I16 && (op is Plus || op is Minus))
            ==> binary_type(span, op, a, b) == Some(
            Err::<Type, TeenyCompilerError>(mismatch(span, a, b)),
        ),
{
}

/// `!` needs a `Bool` and gives a `Bool`; `-` and `~` need an `I16` and give
/// an `I16`; `&` gives a pointer to its operand's type and `*` the type a
/// pointer points to.
pub proof fn lemma_unary_operand_types(span: Span, t: Type)
    ensures
        unary_type(span, TokenKind::Bang, t) == if t is Bool {
            Ok::<Type, TeenyCompilerError>(Type::Bool)
        } else {
            Err(mismatch(span, Type::Bool, t))
        },
        unary_type(span, TokenKind::BitNot, t) == if t is I16 {
            Ok::<Type, TeenyCompilerError>(Type::I16)
        } else {
            Err(mismatch(span, Type::I16, t))
        },
        unary_type(span, TokenKind::Minus, t) == if t is I16 {
            Ok::<Type, TeenyCompilerError>(Type::I16)
        } else {
            Err(mismatch(span, Type::I16, t))
        },
        unary_type(span, TokenKind::BitAnd, t) == Ok::<Type, TeenyCompilerError>(
            Type::Pointer(Box::new(t)),
        ),
        unary_type(span, TokenKind::Star, Type::Pointer(Box::new(t))) == Ok::<
            Type,
            TeenyCompilerError,
        >(t),
{
}

/// Assigning a value of the target's own type gives that type, and an `I16`
/// (an address) may be assigned to a pointer.
pub proof fn lemma_assign_type(span: Span, a: Type, b: Type)
    ensures
        type_eq(a, b) ==> assign_type(span, a, b) == Ok::<Type, TeenyCompilerError>(b),
        a is Pointer && b is I16 ==> assign_type(span, a, b) == Ok::<Type, TeenyCompilerError>(a),
        !type_eq(a, b) && !(a is Pointer && b is I16) ==> assign_type(span, a, b) == Err::<
            Type,
            TeenyCompilerError,
        >(mismatch(span, a, b)),
{
}

/// A local declared in the innermost scope is what a later lookup of its name
/// finds, and it is gone once that scope is closed.
pub proof fn lemma_declare_then_find(st: TcState, name: Seq<char>, t: Type)
    requires
        st.scopes.len() >= 1,
    ensures
        find(tc_declare(st, name, t).scopes, name) == Some(t),
        tc_close(tc_declare(tc_open(st), name, t)).scopes == st.scopes,
{
    assert(tc_declare(st, name, t).scopes.last() == st.scopes.last().insert(name, t));
    assert(tc_declare(tc_open(st), name, t).scopes.drop_last() =~= st.scopes);
}

/// Opening a scope and closing it again changes nothing.
pub proof fn lemma_open_close(st: TcState)
    ensures
        tc_close(tc_open(st)) == st,
{
    assert(tc_close(tc_open(st)).scopes =~= st.scopes);
}

/// A lookup finds the innermost binding: inside a scope that rebinds a name,
/// the new type is found; every other name is found as outside; and once the
/// scope is left, every name is found as it was before it was entered.
pub proof fn lemma_shadow_then_restore(st: TcState, name: Seq<char>, outer: Type, inner: Type, other: Seq<char>)
    requires
        st.scopes.len() >= 1,
    ensures
        ({
            let s1 = tc_declare(st, name, outer);
            let s2 = tc_declare(tc_open(s1), name, inner);
            &&& find(s2.scopes, name) == Some(inner)
            &&& other != name ==> find(s2.scopes, other) == find(s1.scopes, other)
            &&& find(tc_close(s2).scopes, name) == Some(outer)
            &&& find(tc_close(s2).scopes, other) == find(s1.scopes, other)
        }),
{
    let s1 = tc_declare(st, name, outer);
    let s2 = tc_declare(tc_open(s1), name, inner);
    assert(s2.scopes =~= s1.scopes.push(Map::empty().insert(name, inner)));
    crate::analysis::symbol::lemma_find_innermost(s1.scopes, Map::empty().insert(name, inner), name);
    crate::analysis::symbol::lemma_find_innermost(s1.scopes, Map::empty().insert(name, inner), other);
    assert(s1.scopes.last() == st.scopes.last().insert(name, outer));
}

/// Leaving a scope undoes entering it, whatever was declared inside: every
/// lookup finds what it found before the scope was entered.
pub proof fn lemma_scope_round_trip(st: TcState, inner: Map<Seq<char>, Type>, name: Seq<char>)
    ensures
        tc_close(TcState { scopes: tc_open(st).scopes.update(st.scopes.len() as int, inner), ..st }) == st,
        find(TcState { scopes: tc_open(st).scopes.update(st.scopes.len() as int, inner), ..st }.scopes, name)
            == if inner.contains_key(name) {
            Some(inner[name])
        } else {
            find(st.scopes, name)
        },
{
    let s1 = TcState { scopes: tc_open(st).scopes.update(st.scopes.len() as int, inner), ..st };
    assert(s1.scopes =~= st.scopes.push(inner));
    assert(tc_close(s1).scopes =~= st.scopes);
    crate::analysis::symbol::lemma_find_innermost(st.scopes, inner, name);
}

} // verus!
