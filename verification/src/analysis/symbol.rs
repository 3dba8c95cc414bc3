//! Name resolution: every name used must be declared in an enclosing scope,
//! and functions may only be declared at the global scope.

use vstd::prelude::*;
use vstd::hash_map::StringHashMap;
use crate::error::{clone_errors, TeenyCompilerError, TeenyCompilerErrorKind};
use crate::parser::ast::{clone_opt_type, clone_params, Expr, ExprKind, NodeId, Span, Stmt, StmtKind, Type};
use crate::visitor::{expr_leaves, exprs_leaves, fields_leaves, stmt_items, stmts_items, ItemView, Leaf};

verus! {

#[derive(Debug)]
pub struct Symbol {
    pub name: String,
    pub kind: SymbolKind,
}

#[derive(Debug)]
pub enum SymbolKind {
    Var { ty: Option<Type>, mutable: bool },
    Fn { params: Vec<(String, Type)>, return_type: Option<Type> },
}

/// What a symbol declares: a variable's type and mutability, or a
/// function's parameters and return type.
pub ghost enum SymbolInfo {
    Var { ty: Option<Type>, mutable: bool },
    Fn { params: Seq<(String, Type)>, return_type: Option<Type> },
}

/// What a symbol kind declares.
pub open spec fn info(k: SymbolKind) -> SymbolInfo {
    match k {
        SymbolKind::Var { ty, mutable } => SymbolInfo::Var { ty, mutable },
        SymbolKind::Fn { params, return_type } => SymbolInfo::Fn { params: params@, return_type },
    }
}

pub type Scope = StringHashMap<Symbol>;

/// What a scope declares, by name.
pub open spec fn scope_info(m: Map<Seq<char>, Symbol>) -> Map<Seq<char>, SymbolInfo> {
    m.map_values(|s: Symbol| info(s.kind))
}

/// The innermost binding of `name` in a stack of scopes (the last is innermost).
pub open spec fn find<V>(scopes: Seq<Map<Seq<char>, V>>, name: Seq<char>) -> Option<V>
    decreases scopes.len(),
{
    if scopes.len() == 0 {
        None
    } else if scopes.last().contains_key(name) {
        Some(scopes.last()[name])
    } else {
        find(scopes.drop_last(), name)
    }
}

/// The state of name resolution: the scopes, innermost last, and the errors so far.
pub ghost struct ResState {
    pub scopes: Seq<Map<Seq<char>, SymbolInfo>>,
    pub errors: Seq<TeenyCompilerError>,
}

/// Declares `name` in the innermost scope.
pub open spec fn declare(st: ResState, name: Seq<char>, i: SymbolInfo) -> ResState {
    ResState {
        scopes: st.scopes.update(st.scopes.len() - 1, st.scopes.last().insert(name, i)),
        ..st
    }
}

pub open spec fn open_scope(st: ResState) -> ResState {
    ResState { scopes: st.scopes.push(Map::empty()), ..st }
}

pub open spec fn close_scope(st: ResState) -> ResState {
    ResState { scopes: st.scopes.drop_last(), ..st }
}

pub open spec fn report(st: ResState, e: TeenyCompilerError) -> ResState {
    ResState { errors: st.errors.push(e), ..st }
}

/// Resolution of an expression: each name that no scope declares is an
/// `IdentNotDefined` error, in source order.
pub open spec fn resolve_expr(st: ResState, e: Expr) -> ResState
    decreases e,
{
    match e.node {
        ExprKind::Integer(_) | ExprKind::Bool(_) => st,
        ExprKind::Ident(name) => if find(st.scopes, name@) is Some {
            st
        } else {
            report(
                st,
                TeenyCompilerError { kind: TeenyCompilerErrorKind::IdentNotDefined(name), span: e.span },
            )
        },
        ExprKind::Array(items) => resolve_exprs(st, items@),
        ExprKind::Increment { expr, .. } => resolve_expr(st, *expr),
        ExprKind::Decrement { expr, .. } => resolve_expr(st, *expr),
        ExprKind::Unary { rhs, .. } => resolve_expr(st, *rhs),
        ExprKind::Binary { lhs, rhs, .. } => resolve_expr(resolve_expr(st, *lhs), *rhs),
        ExprKind::Assignment { target, value } => resolve_expr(resolve_expr(st, *target), *value),
        ExprKind::Call { callee, args } => resolve_exprs(resolve_expr(st, *callee), args@),
        ExprKind::Subscript { array, index } => resolve_expr(resolve_expr(st, *array), *index),
        ExprKind::MemberAccess { object, .. } => resolve_expr(st, *object),
        ExprKind::StaticAccess { target, .. } => resolve_expr(st, *target),
        ExprKind::StructInit { name, fields } => resolve_fields(resolve_expr(st, *name), fields@),
    }
}

pub open spec fn resolve_exprs(st: ResState, es: Seq<Expr>) -> ResState
    decreases es,
{
    if es.len() == 0 {
        st
    } else {
        resolve_expr(resolve_exprs(st, es.drop_last()), es.last())
    }
}

pub open spec fn resolve_fields(st: ResState, fs: Seq<(String, Expr)>) -> ResState
    decreases fs,
{
    if fs.len() == 0 {
        st
    } else {
        resolve_expr(resolve_fields(st, fs.drop_last()), fs.last().1)
    }
}

/// Declares each parameter as an immutable variable of its type.
pub open spec fn declare_params(st: ResState, ps: Seq<(String, Type)>) -> ResState
    decreases ps.len(),
{
    if ps.len() == 0 {
        st
    } else {
        declare(
            declare_params(st, ps.drop_last()),
            ps.last().0@,
            SymbolInfo::Var { ty: Some(ps.last().1), mutable: false },
        )
    }
}

/// Resolution of a statement. A variable is declared before its initializer is
/// resolved; blocks and function bodies open scopes; a function declared
/// outside the global scope is an `InvalidFnScope` error and its body is skipped.
pub open spec fn resolve_stmt(st: ResState, s: Stmt) -> ResState
    decreases s,
{
    match s.node {
        StmtKind::VarDecl { name, ty, value, mutable } => resolve_expr(
            declare(st, name@, SymbolInfo::Var { ty, mutable }),
            value,
        ),
        StmtKind::Expr(e) => resolve_expr(st, e),
        StmtKind::Block(stmts) => close_scope(resolve_stmts(open_scope(st), stmts@)),
        StmtKind::Return(e) => match e {
            Some(e) => resolve_expr(st, e),
            None => st,
        },
        StmtKind::If { cond, then_branch, else_branch } => {
            let st1 = resolve_stmt(resolve_expr(st, cond), *then_branch);
            match else_branch {
                Some(b) => resolve_stmt(st1, *b),
                None => st1,
            }
        },
        StmtKind::While { cond, body } => resolve_stmt(resolve_expr(st, cond), *body),
        StmtKind::Fn { name, params, return_type, body } => if st.scopes.len() != 1 {
            report(st, TeenyCompilerError { span: s.span, kind: TeenyCompilerErrorKind::InvalidFnScope })
        } else {
            close_scope(
                resolve_stmt(
                    declare_params(
                        open_scope(
                            declare(st, name@, SymbolInfo::Fn { params: params@, return_type }),
                        ),
                        params@,
                    ),
                    *body,
                ),
            )
        },
        StmtKind::Struct { members, .. } => resolve_stmts(st, members@),
        StmtKind::StructField { .. } => st,
    }
}

pub open spec fn resolve_stmts(st: ResState, ss: Seq<Stmt>) -> ResState
    decreases ss,
{
    if ss.len() == 0 {
        st
    } else {
        resolve_stmt(resolve_stmts(st, ss.drop_last()), ss.last())
    }
}

/// Naming what a symbol declares commutes with adding it to a scope.
proof fn lemma_scope_info_insert(m: Map<Seq<char>, Symbol>, k: Seq<char>, s: Symbol)
    ensures
        scope_info(m.insert(k, s)) == scope_info(m).insert(k, info(s.kind)),
{
    assert(scope_info(m.insert(k, s)) =~= scope_info(m).insert(k, info(s.kind)));
}

/// Lookup in the raw scopes agrees with lookup in what they declare.
proof fn lemma_find_info(raw: Seq<Map<Seq<char>, Symbol>>, name: Seq<char>)
    ensures
        find(raw.map_values(|m: Map<Seq<char>, Symbol>| scope_info(m)), name) == match find(raw, name) {
            Some(s) => Some(info(s.kind)),
            None => None::<SymbolInfo>,
        },
    decreases raw.len(),
{
    let f = |m: Map<Seq<char>, Symbol>| scope_info(m);
    if raw.len() > 0 {
        assert(raw.map_values(f).drop_last() =~= raw.drop_last().map_values(f));
        lemma_find_info(raw.drop_last(), name);
    }
}

pub struct SymbolResolver {
    scopes: Vec<Scope>,
    pub errors: Vec<TeenyCompilerError>,
}

impl SymbolResolver {
    /// The scopes as maps from names to symbols, innermost last.
    pub closed spec fn scope_maps(&self) -> Seq<Map<Seq<char>, Symbol>> {
        self.scopes@.map_values(|m: Scope| m@)
    }

    /// The state of resolution: what the scopes declare, and the errors.
    pub closed spec fn state(&self) -> ResState {
        ResState {
            scopes: self.scope_maps().map_values(|m: Map<Seq<char>, Symbol>| scope_info(m)),
            errors: self.errors@,
        }
    }

    /// There is always at least the global scope, and every symbol is stored
    /// under its own name.
    pub open spec fn wf(&self) -> bool {
        &&& self.scope_maps().len() >= 1
        &&& forall|i: int, k: Seq<char>|
            0 <= i < self.scope_maps().len() && #[trigger] self.scope_maps()[i].contains_key(k)
                ==> self.scope_maps()[i][k].name@ == k
    }

    pub fn new() -> (r: Self)
        ensures
            r.wf(),
            r.scope_maps() == seq![Map::<Seq<char>, Symbol>::empty()],
            r.state() == (ResState {
                scopes: seq![Map::<Seq<char>, SymbolInfo>::empty()],
                errors: Seq::<TeenyCompilerError>::empty(),
            }),
    {
        let mut scopes: Vec<Scope> = Vec::new();
        scopes.push(Scope::new());
        let r = Self { scopes, errors: Vec::new() };
        proof {
            assert(r.scope_maps() =~= seq![Map::<Seq<char>, Symbol>::empty()]);
            assert(scope_info(Map::empty()) =~= Map::<Seq<char>, SymbolInfo>::empty());
            assert(r.state().scopes =~= seq![Map::<Seq<char>, SymbolInfo>::empty()]);
        }
        r
    }

    /// Resolves the names of a program. The errors found, together with those
    /// of earlier calls, are returned if there are any.
    pub fn check(&mut self, ast: &[Stmt]) -> (r: Result<(), Vec<TeenyCompilerError>>)
        requires
            old(self).wf(),
        ensures
            final(self).wf(),
            final(self).state() == resolve_stmts(old(self).state(), ast@),
            final(self).scope_maps().len() == old(self).scope_maps().len(),
            match r {
                Ok(()) => final(self).state().errors.len() == 0,
                Err(errors) => final(self).state().errors.len() > 0 && errors@ == final(self).state().errors,
            },
    {
        let mut i: usize = 0;
        while i < ast.len()
            invariant
                0 <= i <= ast@.len(),
                self.wf(),
                self.scope_maps().len() == old(self).scope_maps().len(),
                self.state() == resolve_stmts(old(self).state(), ast@.subrange(0, i as int)),
            decreases ast@.len() - i,
        {
            proof {
                assert(ast@.subrange(0, i + 1).drop_last() =~= ast@.subrange(0, i as int));
            }
            self.visit_stmt(&ast[i]);
            i += 1;
        }
        proof {
            assert(ast@.subrange(0, ast@.len() as int) =~= ast@);
        }

        if self.errors.len() == 0 {
            return Ok(());
        }

        Err(clone_errors(&self.errors))
    }

    pub fn enter_scope(&mut self)
        ensures
            old(self).wf() ==> final(self).wf(),
            final(self).scope_maps() == old(self).scope_maps().push(Map::empty()),
            final(self).state().errors == old(self).state().errors,
            final(self).state() == open_scope(old(self).state()),
    {
        self.scopes.push(Scope::new());
        proof {
            assert(self.scope_maps() =~= old(self).scope_maps().push(Map::empty()));
            assert(scope_info(Map::empty()) =~= Map::<Seq<char>, SymbolInfo>::empty());
            assert(self.state().scopes =~= open_scope(old(self).state()).scopes);
        }
    }

    /// Leaves the innermost scope; the global scope is never left.
    pub fn exit_scope(&mut self)
        requires
            old(self).wf(),
            old(self).scope_maps().len() > 1,
        ensures
            final(self).wf(),
            final(self).scope_maps() == old(self).scope_maps().drop_last(),
            final(self).state() == close_scope(old(self).state()),
    {
        self.scopes.pop();
        proof {
            assert(self.scope_maps() =~= old(self).scope_maps().drop_last());
            assert(self.state().scopes =~= close_scope(old(self).state()).scopes);
        }
    }

    /// The innermost symbol with the given name.
    pub fn lookup(&self, name: &String) -> (r: Option<&Symbol>)
        ensures
            match r {
                Some(s) => find(self.scope_maps(), name@) == Some(*s),
                None => find(self.scope_maps(), name@) is None,
            },
            self.wf() ==> (r matches Some(s) ==> s.name@ == name@),
    {
        let mut i: usize = self.scopes.len();
        proof {
            assert(self.scope_maps().subrange(0, i as int) =~= self.scope_maps());
        }
        while i > 0
            invariant
                i <= self.scopes@.len(),
                find(self.scope_maps(), name@) == find(self.scope_maps().subrange(0, i as int), name@),
            decreases i,
        {
            proof {
                assert(self.scope_maps().subrange(0, i as int).drop_last() =~= self.scope_maps().subrange(0, i - 1));
            }
            if let Some(sym) = self.scopes[i - 1].get(name.as_str()) {
                proof {
                    assert(self.scope_maps()[i - 1].contains_key(name@));
                }
                return Some(sym);
            }
            i -= 1;
        }
        None
    }

    /// Declares a symbol in the innermost scope, replacing one of the same name there.
    pub fn insert(&mut self, sym: Symbol)
        requires
            old(self).wf(),
        ensures
            final(self).wf(),
            final(self).scope_maps() == old(self).scope_maps().update(
                old(self).scope_maps().len() - 1,
                old(self).scope_maps().last().insert(sym.name@, sym),
            ),
            final(self).state().errors == old(self).state().errors,
            final(self).state() == declare(old(self).state(), sym.name@, info(sym.kind)),
    {
        let last = self.scopes.len() - 1;
        let key = sym.name.clone();
        let ghost raw = self.scope_maps();
        let mut top = self.scopes.pop().unwrap();
        top.insert(key, sym);
        self.scopes.push(top);
        proof {
            assert(self.scope_maps() =~= raw.update(last as int, raw.last().insert(sym.name@, sym)));
            assert forall|i: int, k: Seq<char>|
                0 <= i < self.scope_maps().len() && #[trigger] self.scope_maps()[i].contains_key(k)
                    implies self.scope_maps()[i][k].name@ == k by {
                if i != last {
                    assert(raw[i].contains_key(k));
                } else if k != sym.name@ {
                    assert(raw[i].contains_key(k));
                }
            }
            lemma_scope_info_insert(raw.last(), sym.name@, sym);
            assert(self.state().scopes =~= declare(old(self).state(), sym.name@, info(sym.kind)).scopes);
        }
    }

    /// Resolves the names of an expression (see [`resolve_expr`]).
    pub fn visit_expr(&mut self, expr: &Expr)
        requires
            old(self).wf(),
        ensures
            final(self).wf(),
            final(self).scope_maps() == old(self).scope_maps(),
            final(self).state() == resolve_expr(old(self).state(), *expr),
        decreases expr, 2nat,
    {
        let span = expr.span;
        match &expr.node {
            ExprKind::Integer(_) | ExprKind::Bool(_) => {},
            ExprKind::Ident(ident) => self.visit_ident(span, ident),
            ExprKind::Array(items) => {
                proof {
                    assert(decreases_to!(expr.node => expr.node->Array_0));
                }
                self.visit_exprs(items);
            },
            ExprKind::Increment { expr, .. } => self.visit_expr(expr),
            ExprKind::Decrement { expr, .. } => self.visit_expr(expr),
            ExprKind::Unary { rhs, .. } => self.visit_expr(rhs),
            ExprKind::Binary { lhs, rhs, .. } => {
                self.visit_expr(lhs);
                self.visit_expr(rhs);
            },
            ExprKind::Assignment { target, value } => {
                self.visit_expr(target);
                self.visit_expr(value);
            },
            ExprKind::Call { callee, args } => {
                self.visit_expr(callee);
                proof {
                    assert(decreases_to!(expr.node => expr.node->Call_args));
                }
                self.visit_exprs(args);
            },
            ExprKind::Subscript { array, index } => {
                self.visit_expr(array);
                self.visit_expr(index);
            },
            ExprKind::MemberAccess { object, .. } => self.visit_expr(object),
            ExprKind::StaticAccess { target, .. } => self.visit_expr(target),
            ExprKind::StructInit { name, fields } => {
                self.visit_expr(name);
                proof {
                    assert(decreases_to!(expr.node => expr.node->StructInit_fields));
                }
                self.visit_fields(fields);
            },
        }
    }

    /// Resolves a list of expressions in order.
    fn visit_exprs(&mut self, items: &Vec<Expr>)
        requires
            old(self).wf(),
        ensures
            final(self).wf(),
            final(self).scope_maps() == old(self).scope_maps(),
            final(self).state() == resolve_exprs(old(self).state(), items@),
        decreases items, 1nat,
    {
        let mut i: usize = 0;
        while i < items.len()
            invariant
                0 <= i <= items@.len(),
                self.wf(),
                self.scope_maps() == old(self).scope_maps(),
                self.state() == resolve_exprs(old(self).state(), items@.subrange(0, i as int)),
            decreases items@.len() - i,
        {
            proof {
                assert(items@.subrange(0, i + 1).drop_last() =~= items@.subrange(0, i as int));
                assert(decreases_to!(items => items[i as int]));
            }
            self.visit_expr(&items[i]);
            i += 1;
        }
        proof {
            assert(items@.subrange(0, items@.len() as int) =~= items@);
        }
    }

    /// Resolves the values of a struct literal's fields in order.
    fn visit_fields(&mut self, fields: &Vec<(String, Expr)>)
        requires
            old(self).wf(),
        ensures
            final(self).wf(),
            final(self).scope_maps() == old(self).scope_maps(),
            final(self).state() == resolve_fields(old(self).state(), fields@),
        decreases fields, 1nat,
    {
        let mut i: usize = 0;
        while i < fields.len()
            invariant
                0 <= i <= fields@.len(),
                self.wf(),
                self.scope_maps() == old(self).scope_maps(),
                self.state() == resolve_fields(old(self).state(), fields@.subrange(0, i as int)),
            decreases fields@.len() - i,
        {
            proof {
                assert(fields@.subrange(0, i + 1).drop_last() =~= fields@.subrange(0, i as int));
                assert(decreases_to!(fields => fields[i as int]));
                assert(decreases_to!(fields[i as int] => fields[i as int].1));
            }
            self.visit_expr(&fields[i].1);
            i += 1;
        }
        proof {
            assert(fields@.subrange(0, fields@.len() as int) =~= fields@);
        }
    }

    /// A name that no scope declares is an `IdentNotDefined` error.
    pub fn visit_ident(&mut self, span: Span, ident: &String)
        requires
            old(self).wf(),
        ensures
            final(self).wf(),
            final(self).scope_maps() == old(self).scope_maps(),
            final(self).state() == if find(old(self).state().scopes, ident@) is Some {
                old(self).state()
            } else {
                report(
                    old(self).state(),
                    TeenyCompilerError {
                        kind: TeenyCompilerErrorKind::IdentNotDefined(*ident),
                        span,
                    },
                )
            },
    {
        proof {
            lemma_find_info(self.scope_maps(), ident@);
        }
        if let None = self.lookup(ident) {
            self.errors.push(TeenyCompilerError {
                kind: TeenyCompilerErrorKind::IdentNotDefined(ident.clone()),
                span: span,
            });
        }
    }

    /// Resolves the names of a statement (see [`resolve_stmt`]).
    pub fn visit_stmt(&mut self, stmt: &Stmt)
        requires
            old(self).wf(),
        ensures
            final(self).wf(),
            final(self).scope_maps().len() == old(self).scope_maps().len(),
            final(self).state() == resolve_stmt(old(self).state(), *stmt),
        decreases stmt, 2nat,
    {
        let span = stmt.span;
        let id = stmt.id;
        match &stmt.node {
            StmtKind::VarDecl { name, ty, value, mutable } => self.visit_var_decl(
                id,
                span,
                name,
                ty,
                value,
                *mutable,
            ),
            StmtKind::Expr(expr) => self.visit_expr(expr),
            StmtKind::Block(stmts) => {
                proof {
                    assert(decreases_to!(stmt.node => stmt.node->Block_0));
                }
                self.visit_block(span, stmts)
            },
            StmtKind::Return(expr) => {
                if let Some(expr) = expr {
                    self.visit_expr(expr);
                }
            },
            StmtKind::If { cond, then_branch, else_branch } => {
                self.visit_expr(cond);
                self.visit_stmt(then_branch);
                if let Some(else_branch) = else_branch {
                    self.visit_stmt(else_branch);
                }
            },
            StmtKind::While { cond, body } => {
                self.visit_expr(cond);
                self.visit_stmt(body);
            },
            StmtKind::Fn { name, params, return_type, body } => self.visit_fn(
                span,
                name,
                params,
                return_type,
                body,
            ),
            StmtKind::Struct { members, .. } => {
                proof {
                    assert(decreases_to!(stmt.node => stmt.node->Struct_members));
                }
                self.visit_stmts(members);
            },
            StmtKind::StructField { .. } => {},
        }
    }

    /// Resolves a list of statements in order.
    fn visit_stmts(&mut self, stmts: &Vec<Stmt>)
        requires
            old(self).wf(),
        ensures
            final(self).wf(),
            final(self).scope_maps().len() == old(self).scope_maps().len(),
            final(self).state() == resolve_stmts(old(self).state(), stmts@),
        decreases stmts, 1nat,
    {
        let mut i: usize = 0;
        while i < stmts.len()
            invariant
                0 <= i <= stmts@.len(),
                self.wf(),
                self.scope_maps().len() == old(self).scope_maps().len(),
                self.state() == resolve_stmts(old(self).state(), stmts@.subrange(0, i as int)),
            decreases stmts@.len() - i,
        {
            proof {
                assert(stmts@.subrange(0, i + 1).drop_last() =~= stmts@.subrange(0, i as int));
                assert(decreases_to!(stmts => stmts[i as int]));
            }
            self.visit_stmt(&stmts[i]);
            i += 1;
        }
        proof {
            assert(stmts@.subrange(0, stmts@.len() as int) =~= stmts@);
        }
    }

    /// Declares the variable, then resolves its initializer.
    pub fn visit_var_decl(
        &mut self,
        _id: NodeId,
        _span: Span,
        name: &String,
        ty: &Option<Type>,
        value: &Expr,
        mutable: bool,
    )
        requires
            old(self).wf(),
        ensures
            final(self).wf(),
            final(self).scope_maps().len() == old(self).scope_maps().len(),
            final(self).state() == resolve_expr(
                declare(old(self).state(), name@, SymbolInfo::Var { ty: *ty, mutable }),
                *value,
            ),
    {
        self.insert(Symbol { name: name.clone(), kind: SymbolKind::Var { ty: clone_opt_type(ty), mutable } });

        self.visit_expr(value);
    }

    /// Declares the function and, in a new scope, its parameters, then resolves
    /// its body. Outside the global scope this is an `InvalidFnScope` error.
    pub fn visit_fn(
        &mut self,
        span: Span,
        name: &String,
        params: &Vec<(String, Type)>,
        return_type: &Option<Type>,
        body: &Stmt,
    )
        requires
            old(self).wf(),
        ensures
            final(self).wf(),
            final(self).scope_maps().len() == old(self).scope_maps().len(),
            final(self).state() == if old(self).scope_maps().len() != 1 {
                report(
                    old(self).state(),
                    TeenyCompilerError { span, kind: TeenyCompilerErrorKind::InvalidFnScope },
                )
            } else {
                close_scope(
                    resolve_stmt(
                        declare_params(
                            open_scope(
                                declare(
                                    old(self).state(),
                                    name@,
                                    SymbolInfo::Fn { params: params@, return_type: *return_type },
                                ),
                            ),
                            params@,
                        ),
                        *body,
                    ),
                )
            },
        decreases body, 3nat,
    {
        if !self.is_global_scope() {
            self.errors.push(TeenyCompilerError { span, kind: TeenyCompilerErrorKind::InvalidFnScope });
            return;
        }

        self.insert(Symbol {
            name: name.clone(),
            kind: SymbolKind::Fn { params: clone_params(params), return_type: clone_opt_type(return_type) },
        });
        self.enter_scope();

        let ghost opened = self.state();
        let mut i: usize = 0;
        while i < params.len()
            invariant
                0 <= i <= params@.len(),
                self.wf(),
                self.scope_maps().len() == 2,
                self.state() == declare_params(opened, params@.subrange(0, i as int)),
            decreases params@.len() - i,
        {
            let (param_name, param_ty) = &params[i];
            proof {
                assert(params@.subrange(0, i + 1).drop_last() =~= params@.subrange(0, i as int));
            }
            self.insert(Symbol {
                name: param_name.clone(),
                kind: SymbolKind::Var { ty: Some(param_ty.clone()), mutable: false },
            });
            i += 1;
        }
        proof {
            assert(params@.subrange(0, params@.len() as int) =~= params@);
        }

        self.visit_stmt(body);

        self.exit_scope();
    }

    /// Resolves the statements of a block in a new scope.
    pub fn visit_block(&mut self, _span: Span, stmts: &Vec<Stmt>)
        requires
            old(self).wf(),
        ensures
            final(self).wf(),
            final(self).scope_maps().len() == old(self).scope_maps().len(),
            final(self).state() == close_scope(resolve_stmts(open_scope(old(self).state()), stmts@)),
        decreases stmts, 3nat,
    {
        self.enter_scope();
        self.visit_stmts(stmts);
        self.exit_scope();
    }

    /// The errors reported so far (the `errors` field).
    pub fn errors(&self) -> (r: &Vec<TeenyCompilerError>)
        ensures
            r@ == self.state().errors,
    {
        &self.errors
    }

    pub fn is_global_scope(&self) -> (r: bool)
        ensures
            r == (self.scope_maps().len() == 1),
            r == (self.state().scopes.len() == 1),
    {
        self.scopes.len() == 1
    }

    /// The outermost scope, where functions and global constants are declared.
    pub fn global_scope(&self) -> (r: &Scope)
        requires
            self.wf(),
        ensures
            r@ == self.scope_maps()[0],
    {
        &self.scopes[0]
    }
}

} // verus!

verus! {

/// Functions may only be declared at the global scope: a function declared in
/// any other scope is an `InvalidFnScope` error, and nothing in it is resolved.
pub proof fn lemma_nested_fn_rejected(st: ResState, s: Stmt)
    requires
        s.node is Fn,
        st.scopes.len() != 1,
    ensures
        resolve_stmt(st, s) == report(
            st,
            TeenyCompilerError { span: s.span, kind: TeenyCompilerErrorKind::InvalidFnScope },
        ),
{
}

/// A name declared in the innermost scope resolves without error, and one that
/// no scope declares is an `IdentNotDefined` error at its span.
pub proof fn lemma_ident_resolution(st: ResState, e: Expr, i: SymbolInfo)
    requires
        st.scopes.len() >= 1,
        e.node is Ident,
    ensures
        resolve_expr(declare(st, e.node->Ident_0@, i), e) == declare(st, e.node->Ident_0@, i),
        find(st.scopes, e.node->Ident_0@) is None ==> resolve_expr(st, e) == report(
            st,
            TeenyCompilerError {
                kind: TeenyCompilerErrorKind::IdentNotDefined(e.node->Ident_0),
                span: e.span,
            },
        ),
{
    let name = e.node->Ident_0@;
    assert(declare(st, name, i).scopes.last() == st.scopes.last().insert(name, i));
}

/// Names declared in a block's scope are gone after the block: closing the
/// scope restores the enclosing ones.
pub proof fn lemma_block_scope(st: ResState, name: Seq<char>, i: SymbolInfo)
    ensures
        close_scope(declare(open_scope(st), name, i)).scopes == st.scopes,
{
    assert(close_scope(declare(open_scope(st), name, i)).scopes =~= st.scopes);
}

} // verus!

verus! {

/// A lookup finds the innermost binding: a name bound in the innermost scope
/// is found there, any other name as in the scopes around it; and once the
/// innermost scope is left, every lookup is as it was before it was entered.
pub proof fn lemma_find_innermost<V>(scopes: Seq<Map<Seq<char>, V>>, inner: Map<Seq<char>, V>, name: Seq<char>)
    ensures
        find(scopes.push(inner), name) == if inner.contains_key(name) {
            Some(inner[name])
        } else {
            find(scopes, name)
        },
        find(scopes.push(inner).drop_last(), name) == find(scopes, name),
{
    assert(scopes.push(inner).drop_last() =~= scopes);
}

/// The net number of scopes a sequence of entries (`true`) and exits
/// (`false`) opens.
pub open spec fn scope_change(ops: Seq<bool>) -> int
    decreases ops.len(),
{
    if ops.len() == 0 {
        0
    } else {
        scope_change(ops.drop_last()) + if ops.last() {
            1int
        } else {
            -1int
        }
    }
}

/// The resolution state after entering (`true`) and leaving (`false`) scopes in turn.
pub open spec fn apply_scope_ops(st: ResState, ops: Seq<bool>) -> ResState
    decreases ops.len(),
{
    if ops.len() == 0 {
        st
    } else if ops.last() {
        open_scope(apply_scope_ops(st, ops.drop_last()))
    } else {
        close_scope(apply_scope_ops(st, ops.drop_last()))
    }
}

/// Entering and leaving scopes, never leaving the global one: the depth is
/// the starting depth plus the entries minus the exits, so a resolver that
/// starts at the global scope is back there exactly when it has left as many
/// scopes as it entered. The errors are untouched.
pub proof fn lemma_scope_depth(st: ResState, ops: Seq<bool>)
    requires
        st.scopes.len() >= 1,
        forall|i: int| 0 <= i <= ops.len() ==> st.scopes.len() + #[trigger] scope_change(ops.take(i)) >= 1,
    ensures
        apply_scope_ops(st, ops).scopes.len() == st.scopes.len() + scope_change(ops),
        apply_scope_ops(st, ops).errors == st.errors,
        st.scopes.len() == 1 ==> (apply_scope_ops(st, ops).scopes.len() == 1 <==> scope_change(ops) == 0),
    decreases ops.len(),
{
    if ops.len() > 0 {
        let prev = ops.drop_last();
        assert forall|i: int| 0 <= i <= prev.len() implies st.scopes.len() + #[trigger] scope_change(prev.take(i)) >= 1 by {
            assert(prev.take(i) =~= ops.take(i));
        }
        lemma_scope_depth(st, prev);
        assert(ops.take(ops.len() as int) =~= ops);
        assert(ops.take(prev.len() as int) =~= prev);
    }
}

/// Leaving a scope undoes entering it, whatever was declared inside: every
/// lookup finds what it found before the scope was entered, and the depth,
/// so whether the resolver is at the global scope, is as it was.
pub proof fn lemma_resolver_round_trip(st: ResState, inner: Map<Seq<char>, SymbolInfo>, name: Seq<char>)
    ensures
        close_scope(ResState { scopes: open_scope(st).scopes.update(st.scopes.len() as int, inner), ..st }) == st,
        find(ResState { scopes: open_scope(st).scopes.update(st.scopes.len() as int, inner), ..st }.scopes, name)
            == if inner.contains_key(name) {
            Some(inner[name])
        } else {
            find(st.scopes, name)
        },
{
    let s1 = ResState { scopes: open_scope(st).scopes.update(st.scopes.len() as int, inner), ..st };
    assert(s1.scopes =~= st.scopes.push(inner));
    assert(close_scope(s1).scopes =~= st.scopes);
    lemma_find_innermost(st.scopes, inner, name);
}

} // verus!

verus! {

/// The `IdentNotDefined` errors for the names among `ls` that no scope
/// declares, in order, each at the name's span.
pub open spec fn undeclared(scopes: Seq<Map<Seq<char>, SymbolInfo>>, ls: Seq<Leaf>) -> Seq<TeenyCompilerError>
    decreases ls.len(),
{
    if ls.len() == 0 {
        Seq::empty()
    } else {
        undeclared(scopes, ls.drop_last()) + match ls.last() {
            Leaf::Ident(span, n) => if find(scopes, n@) is Some {
                Seq::empty()
            } else {
                seq![TeenyCompilerError { kind: TeenyCompilerErrorKind::IdentNotDefined(n), span }]
            },
            _ => Seq::empty(),
        }
    }
}

/// The literals and names of the expressions a part of a statement holds.
pub open spec fn item_leaves(i: ItemView) -> Seq<Leaf> {
    match i {
        ItemView::Cond(e) => expr_leaves(e),
        ItemView::Stmt(s) => match s.node {
            StmtKind::Expr(e) => expr_leaves(e),
            StmtKind::Return(Some(e)) => expr_leaves(e),
            StmtKind::VarDecl { value, .. } => expr_leaves(value),
            _ => Seq::empty(),
        },
    }
}

/// The literals and names of the expressions of a list of parts, in order.
pub open spec fn items_leaves(items: Seq<ItemView>) -> Seq<Leaf>
    decreases items.len(),
{
    if items.len() == 0 {
        Seq::empty()
    } else {
        items_leaves(items.drop_last()) + item_leaves(items.last())
    }
}

/// Whether a statement declares nothing: no variable and no function, at any depth.
pub open spec fn declares_nothing(s: Stmt) -> bool
    decreases s,
{
    match s.node {
        StmtKind::VarDecl { .. } | StmtKind::Fn { .. } => false,
        StmtKind::Block(stmts) => all_declare_nothing(stmts@),
        StmtKind::If { then_branch, else_branch, .. } => declares_nothing(*then_branch) && match else_branch {
            Some(b) => declares_nothing(*b),
            None => true,
        },
        StmtKind::While { body, .. } => declares_nothing(*body),
        StmtKind::Struct { members, .. } => all_declare_nothing(members@),
        _ => true,
    }
}

pub open spec fn all_declare_nothing(ss: Seq<Stmt>) -> bool
    decreases ss,
{
    ss.len() == 0 || (all_declare_nothing(ss.drop_last()) && declares_nothing(ss.last()))
}

proof fn lemma_undeclared_concat(scopes: Seq<Map<Seq<char>, SymbolInfo>>, a: Seq<Leaf>, b: Seq<Leaf>)
    ensures
        undeclared(scopes, a + b) == undeclared(scopes, a) + undeclared(scopes, b),
    decreases b.len(),
{
    if b.len() == 0 {
        assert(a + b =~= a);
        assert(undeclared(scopes, a) + undeclared(scopes, b) =~= undeclared(scopes, a));
    } else {
        lemma_undeclared_concat(scopes, a, b.drop_last());
        assert((a + b).drop_last() =~= a + b.drop_last());
        assert((a + b).last() == b.last());
        assert(undeclared(scopes, a + b) =~= undeclared(scopes, a) + undeclared(scopes, b));
    }
}

proof fn lemma_items_leaves_concat(a: Seq<ItemView>, b: Seq<ItemView>)
    ensures
        items_leaves(a + b) == items_leaves(a) + items_leaves(b),
    decreases b.len(),
{
    if b.len() == 0 {
        assert(a + b =~= a);
        assert(items_leaves(a) + items_leaves(b) =~= items_leaves(a));
    } else {
        lemma_items_leaves_concat(a, b.drop_last());
        assert((a + b).drop_last() =~= a + b.drop_last());
        assert((a + b).last() == b.last());
        assert(items_leaves(a + b) =~= items_leaves(a) + items_leaves(b));
    }
}

proof fn lemma_undeclared_open(scopes: Seq<Map<Seq<char>, SymbolInfo>>, ls: Seq<Leaf>)
    ensures
        undeclared(scopes.push(Map::empty()), ls) == undeclared(scopes, ls),
    decreases ls.len(),
{
    if ls.len() > 0 {
        lemma_undeclared_open(scopes, ls.drop_last());
        match ls.last() {
            Leaf::Ident(span, n) => lemma_find_innermost(scopes, Map::<Seq<char>, SymbolInfo>::empty(), n@),
            _ => {},
        }
    }
}

/// Names are resolved where they are used: resolving an expression leaves
/// the scopes as they are and reports one `IdentNotDefined` error, at its
/// span, for each name in the expression that no scope declares, in source
/// order, and nothing else.
pub proof fn lemma_resolve_expr_reports(st: ResState, e: Expr)
    ensures
        resolve_expr(st, e) == (ResState {
            scopes: st.scopes,
            errors: st.errors + undeclared(st.scopes, expr_leaves(e)),
        }),
    decreases e,
{
    let r = resolve_expr(st, e);
    match e.node {
        ExprKind::Integer(_) | ExprKind::Bool(_) | ExprKind::Ident(_) => {
            let ls = expr_leaves(e);
            assert(ls.drop_last() =~= Seq::<Leaf>::empty());
            assert(undeclared(st.scopes, Seq::<Leaf>::empty()) =~= Seq::<TeenyCompilerError>::empty());
            assert(r.errors =~= st.errors + undeclared(st.scopes, expr_leaves(e)));
        },
        ExprKind::Array(items) => {
            lemma_resolve_exprs_reports(st, items@);
        },
        ExprKind::Increment { expr, .. } => lemma_resolve_expr_reports(st, *expr),
        ExprKind::Decrement { expr, .. } => lemma_resolve_expr_reports(st, *expr),
        ExprKind::Unary { rhs, .. } => lemma_resolve_expr_reports(st, *rhs),
        ExprKind::Binary { lhs, rhs, .. } => {
            lemma_resolve_expr_reports(st, *lhs);
            lemma_resolve_expr_reports(resolve_expr(st, *lhs), *rhs);
            lemma_undeclared_concat(st.scopes, expr_leaves(*lhs), expr_leaves(*rhs));
            assert(r.errors =~= st.errors + undeclared(st.scopes, expr_leaves(e)));
        },
        ExprKind::Assignment { target, value } => {
            lemma_resolve_expr_reports(st, *target);
            lemma_resolve_expr_reports(resolve_expr(st, *target), *value);
            lemma_undeclared_concat(st.scopes, expr_leaves(*target), expr_leaves(*value));
            assert(r.errors =~= st.errors + undeclared(st.scopes, expr_leaves(e)));
        },
        ExprKind::Call { callee, args } => {
            lemma_resolve_expr_reports(st, *callee);
            lemma_resolve_exprs_reports(resolve_expr(st, *callee), args@);
            lemma_undeclared_concat(st.scopes, expr_leaves(*callee), exprs_leaves(args@));
            assert(r.errors =~= st.errors + undeclared(st.scopes, expr_leaves(e)));
        },
        ExprKind::Subscript { array, index } => {
            lemma_resolve_expr_reports(st, *array);
            lemma_resolve_expr_reports(resolve_expr(st, *array), *index);
            lemma_undeclared_concat(st.scopes, expr_leaves(*array), expr_leaves(*index));
            assert(r.errors =~= st.errors + undeclared(st.scopes, expr_leaves(e)));
        },
        ExprKind::MemberAccess { object, .. } => lemma_resolve_expr_reports(st, *object),
        ExprKind::StaticAccess { target, .. } => lemma_resolve_expr_reports(st, *target),
        ExprKind::StructInit { name, fields } => {
            lemma_resolve_expr_reports(st, *name);
            lemma_resolve_fields_reports(resolve_expr(st, *name), fields@);
            lemma_undeclared_concat(st.scopes, expr_leaves(*name), fields_leaves(fields@));
            assert(r.errors =~= st.errors + undeclared(st.scopes, expr_leaves(e)));
        },
    }
}

proof fn lemma_resolve_exprs_reports(st: ResState, es: Seq<Expr>)
    ensures
        resolve_exprs(st, es) == (ResState {
            scopes: st.scopes,
            errors: st.errors + undeclared(st.scopes, exprs_leaves(es)),
        }),
    decreases es,
{
    if es.len() == 0 {
        assert(st.errors + undeclared(st.scopes, exprs_leaves(es)) =~= st.errors);
    } else {
        lemma_resolve_exprs_reports(st, es.drop_last());
        lemma_resolve_expr_reports(resolve_exprs(st, es.drop_last()), es.last());
        lemma_undeclared_concat(st.scopes, exprs_leaves(es.drop_last()), expr_leaves(es.last()));
        assert(resolve_exprs(st, es).errors =~= st.errors + undeclared(st.scopes, exprs_leaves(es)));
    }
}

proof fn lemma_resolve_fields_reports(st: ResState, fs: Seq<(String, Expr)>)
    ensures
        resolve_fields(st, fs) == (ResState {
            scopes: st.scopes,
            errors: st.errors + undeclared(st.scopes, fields_leaves(fs)),
        }),
    decreases fs,
{
    if fs.len() == 0 {
        assert(st.errors + undeclared(st.scopes, fields_leaves(fs)) =~= st.errors);
    } else {
        lemma_resolve_fields_reports(st, fs.drop_last());
        lemma_resolve_expr_reports(resolve_fields(st, fs.drop_last()), fs.last().1);
        lemma_undeclared_concat(st.scopes, fields_leaves(fs.drop_last()), expr_leaves(fs.last().1));
        assert(resolve_fields(st, fs).errors =~= st.errors + undeclared(st.scopes, fields_leaves(fs)));
    }
}

/// Every name a statement uses is checked, however deeply it is nested (in a
/// block, a branch of an `if`, the body of a `while`): for a statement that
/// declares nothing, resolution leaves the scopes as they are and reports
/// exactly one `IdentNotDefined` error, at its span, for each name in its
/// conditions and expressions that no scope declares, in source order.
pub proof fn lemma_resolve_stmt_reports(st: ResState, s: Stmt)
    requires
        st.scopes.len() >= 1,
        declares_nothing(s),
    ensures
        resolve_stmt(st, s) == (ResState {
            scopes: st.scopes,
            errors: st.errors + undeclared(st.scopes, items_leaves(stmt_items(s))),
        }),
    decreases s,
{
    let r = resolve_stmt(st, s);
    let want = st.errors + undeclared(st.scopes, items_leaves(stmt_items(s)));
    assert(items_leaves(Seq::<ItemView>::empty()) =~= Seq::<Leaf>::empty());
    assert(undeclared(st.scopes, Seq::<Leaf>::empty()) =~= Seq::<TeenyCompilerError>::empty());
    match s.node {
        StmtKind::Expr(e) => {
            assert(stmt_items(s).drop_last() =~= Seq::<ItemView>::empty());
            assert(stmt_items(s).last() == ItemView::Stmt(s));
            lemma_resolve_expr_reports(st, e);
            assert(items_leaves(stmt_items(s)) =~= expr_leaves(e));
        },
        StmtKind::Return(e) => {
            assert(stmt_items(s).drop_last() =~= Seq::<ItemView>::empty());
            assert(stmt_items(s).last() == ItemView::Stmt(s));
            match e {
                Some(x) => {
                    lemma_resolve_expr_reports(st, x);
                    assert(items_leaves(stmt_items(s)) =~= expr_leaves(x));
                },
                None => {
                    assert(items_leaves(stmt_items(s)) =~= Seq::<Leaf>::empty());
                    assert(want =~= st.errors);
                },
            }
        },
        StmtKind::StructField { .. } => {
            assert(stmt_items(s).drop_last() =~= Seq::<ItemView>::empty());
            assert(stmt_items(s).last() == ItemView::Stmt(s));
            assert(items_leaves(stmt_items(s)) =~= Seq::<Leaf>::empty());
            assert(want =~= st.errors);
        },
        StmtKind::Block(stmts) => {
            let o = open_scope(st);
            lemma_resolve_stmts_reports(o, stmts@);
            lemma_undeclared_open(st.scopes, items_leaves(stmts_items(stmts@)));
            assert(o.scopes.drop_last() =~= st.scopes);
        },
        StmtKind::Struct { members, .. } => {
            lemma_resolve_stmts_reports(st, members@);
        },
        StmtKind::If { cond, then_branch, else_branch } => {
            let c = seq![ItemView::Cond(cond)];
            assert(items_leaves(c) =~= expr_leaves(cond)) by {
                assert(c.drop_last() =~= Seq::<ItemView>::empty());
            }
            let s1 = resolve_expr(st, cond);
            lemma_resolve_expr_reports(st, cond);
            lemma_resolve_stmt_reports(s1, *then_branch);
            let t = stmt_items(*then_branch);
            let e = match else_branch {
                Some(b) => stmt_items(*b),
                None => Seq::<ItemView>::empty(),
            };
            lemma_items_leaves_concat(c, t);
            lemma_items_leaves_concat(c + t, e);
            lemma_undeclared_concat(st.scopes, expr_leaves(cond), items_leaves(t));
            lemma_undeclared_concat(st.scopes, items_leaves(c + t), items_leaves(e));
            match else_branch {
                Some(b) => {
                    lemma_resolve_stmt_reports(resolve_stmt(s1, *then_branch), *b);
                },
                None => {
                    assert(items_leaves(e) =~= Seq::<Leaf>::empty());
                    assert(c + t + e =~= c + t);
                },
            }
            assert(r.errors =~= want);
        },
        StmtKind::While { cond, body } => {
            let c = seq![ItemView::Cond(cond)];
            assert(items_leaves(c) =~= expr_leaves(cond)) by {
                assert(c.drop_last() =~= Seq::<ItemView>::empty());
            }
            let s1 = resolve_expr(st, cond);
            lemma_resolve_expr_reports(st, cond);
            lemma_resolve_stmt_reports(s1, *body);
            lemma_items_leaves_concat(c, stmt_items(*body));
            lemma_undeclared_concat(st.scopes, expr_leaves(cond), items_leaves(stmt_items(*body)));
            assert(r.errors =~= want);
        },
        _ => {},
    }
}

proof fn lemma_resolve_stmts_reports(st: ResState, ss: Seq<Stmt>)
    requires
        st.scopes.len() >= 1,
        all_declare_nothing(ss),
    ensures
        resolve_stmts(st, ss) == (ResState {
            scopes: st.scopes,
            errors: st.errors + undeclared(st.scopes, items_leaves(stmts_items(ss))),
        }),
    decreases ss,
{
    if ss.len() == 0 {
        assert(st.errors + undeclared(st.scopes, items_leaves(stmts_items(ss))) =~= st.errors);
    } else {
        lemma_resolve_stmts_reports(st, ss.drop_last());
        lemma_resolve_stmt_reports(resolve_stmts(st, ss.drop_last()), ss.last());
        lemma_items_leaves_concat(stmts_items(ss.drop_last()), stmt_items(ss.last()));
        lemma_undeclared_concat(
            st.scopes,
            items_leaves(stmts_items(ss.drop_last())),
            items_leaves(stmt_items(ss.last())),
        );
        assert(resolve_stmts(st, ss).errors =~= st.errors + undeclared(st.scopes, items_leaves(stmts_items(ss))));
    }
}

/// A variable is in scope from its own declaration on: resolving `let x = e`
/// declares `x` in the innermost scope and then reports the names of `e`
/// that no scope declares, `x` itself included among the declared.
pub proof fn lemma_resolve_var_decl(st: ResState, s: Stmt)
    requires
        s.node is VarDecl,
    ensures
        ({
            let name = s.node->VarDecl_name;
            let d = declare(st, name@, SymbolInfo::Var { ty: s.node->VarDecl_ty, mutable: s.node->VarDecl_mutable });
            &&& resolve_stmt(st, s) == (ResState {
                scopes: d.scopes,
                errors: st.errors + undeclared(d.scopes, expr_leaves(s.node->VarDecl_value)),
            })
            &&& st.scopes.len() >= 1 ==> find(d.scopes, name@) is Some
        }),
{
    let name = s.node->VarDecl_name;
    let d = declare(st, name@, SymbolInfo::Var { ty: s.node->VarDecl_ty, mutable: s.node->VarDecl_mutable });
    lemma_resolve_expr_reports(d, s.node->VarDecl_value);
    if st.scopes.len() >= 1 {
        assert(d.scopes.last() == st.scopes.last().insert(name@, SymbolInfo::Var { ty: s.node->VarDecl_ty, mutable: s.node->VarDecl_mutable }));
    }
}

} // verus!
