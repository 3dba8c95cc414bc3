//! A visitor over the syntax tree.
//!
//! `visit_expr` and `visit_stmt` hand a node to the method for its kind
//! (`visit_binary`, `visit_call`, `visit_if`, ...). The defaults of those
//! methods go on below the node with `walk_expr`, which reports every literal
//! and name that [`leaves`] lists to `visit_integer`, `visit_bool` and
//! `visit_ident`, and with `walk_stmt`, which hands every part that [`parts`]
//! lists to `visit_expr`, `visit_var_decl`, `visit_return` or
//! `visit_struct_field`.

use vstd::prelude::*;
use crate::lexer::token::TokenKind;
use crate::parser::ast::{Expr, ExprKind, NodeId, Span, Stmt, StmtKind, Type};

verus! {

/// The number of nodes of an expression.
pub open spec fn expr_size(e: Expr) -> nat
    decreases e,
{
    1 + match e.node {
        ExprKind::Integer(_) | ExprKind::Bool(_) | ExprKind::Ident(_) => 0,
        ExprKind::Array(items) => exprs_size(items@),
        ExprKind::Increment { expr, .. } => expr_size(*expr),
        ExprKind::Decrement { expr, .. } => expr_size(*expr),
        ExprKind::Unary { rhs, .. } => expr_size(*rhs),
        ExprKind::Binary { lhs, rhs, .. } => expr_size(*lhs) + expr_size(*rhs),
        ExprKind::Assignment { target, value } => expr_size(*target) + expr_size(*value),
        ExprKind::Call { callee, args } => expr_size(*callee) + exprs_size(args@),
        ExprKind::Subscript { array, index } => expr_size(*array) + expr_size(*index),
        ExprKind::MemberAccess { object, .. } => expr_size(*object),
        ExprKind::StaticAccess { target, .. } => expr_size(*target),
        ExprKind::StructInit { name, fields } => expr_size(*name) + fields_size(fields@),
    }
}

/// The number of nodes of a list of expressions.
pub open spec fn exprs_size(s: Seq<Expr>) -> nat
    decreases s,
{
    if s.len() == 0 {
        0
    } else {
        exprs_size(s.drop_last()) + expr_size(s.last())
    }
}

/// The number of nodes of the values of struct literal fields.
pub open spec fn fields_size(s: Seq<(String, Expr)>) -> nat
    decreases s,
{
    if s.len() == 0 {
        0
    } else {
        fields_size(s.drop_last()) + expr_size(s.last().1)
    }
}

/// The number of statements of a statement, itself included.
pub open spec fn stmt_size(s: Stmt) -> nat
    decreases s,
{
    1 + match s.node {
        StmtKind::Block(stmts) => stmts_size(stmts@),
        StmtKind::If { then_branch, else_branch, .. } => stmt_size(*then_branch) + match else_branch {
            Some(b) => stmt_size(*b),
            None => 0,
        },
        StmtKind::While { body, .. } => stmt_size(*body),
        StmtKind::Fn { body, .. } => stmt_size(*body),
        StmtKind::Struct { members, .. } => stmts_size(members@),
        _ => 0,
    }
}

/// The number of statements of a list of statements.
pub open spec fn stmts_size(s: Seq<Stmt>) -> nat
    decreases s,
{
    if s.len() == 0 {
        0
    } else {
        stmts_size(s.drop_last()) + stmt_size(s.last())
    }
}

/// An expression of a list counts no more nodes than the list.
pub proof fn lemma_exprs_size_elem(s: Seq<Expr>, i: int)
    requires
        0 <= i < s.len(),
    ensures
        1 <= expr_size(s[i]) <= exprs_size(s),
    decreases s.len(),
{
    if i < s.len() - 1 {
        lemma_exprs_size_elem(s.drop_last(), i);
        assert(s.drop_last()[i] == s[i]);
    }
}

/// A field's value counts no more nodes than all the fields' values.
pub proof fn lemma_fields_size_elem(s: Seq<(String, Expr)>, i: int)
    requires
        0 <= i < s.len(),
    ensures
        1 <= expr_size(s[i].1) <= fields_size(s),
    decreases s.len(),
{
    if i < s.len() - 1 {
        lemma_fields_size_elem(s.drop_last(), i);
        assert(s.drop_last()[i] == s[i]);
    }
}

/// A statement of a list counts no more statements than the list.
pub proof fn lemma_stmts_size_elem(s: Seq<Stmt>, i: int)
    requires
        0 <= i < s.len(),
    ensures
        1 <= stmt_size(s[i]) <= stmts_size(s),
    decreases s.len(),
{
    if i < s.len() - 1 {
        lemma_stmts_size_elem(s.drop_last(), i);
        assert(s.drop_last()[i] == s[i]);
    }
}

/// A literal or a name of an expression, with its span.
#[derive(Debug)]
pub enum Leaf {
    Integer(Span, u16),
    Bool(Span, bool),
    Ident(Span, String),
}

/// The literals and names of an expression, in source order: the operands of
/// every operator, the callee before the arguments, a struct literal's name
/// before its fields' values.
pub open spec fn expr_leaves(e: Expr) -> Seq<Leaf>
    decreases e,
{
    match e.node {
        ExprKind::Integer(v) => seq![Leaf::Integer(e.span, v)],
        ExprKind::Bool(b) => seq![Leaf::Bool(e.span, b)],
        ExprKind::Ident(n) => seq![Leaf::Ident(e.span, n)],
        ExprKind::Array(items) => exprs_leaves(items@),
        ExprKind::Increment { expr, .. } => expr_leaves(*expr),
        ExprKind::Decrement { expr, .. } => expr_leaves(*expr),
        ExprKind::Unary { rhs, .. } => expr_leaves(*rhs),
        ExprKind::Binary { lhs, rhs, .. } => expr_leaves(*lhs) + expr_leaves(*rhs),
        ExprKind::Assignment { target, value } => expr_leaves(*target) + expr_leaves(*value),
        ExprKind::Call { callee, args } => expr_leaves(*callee) + exprs_leaves(args@),
        ExprKind::Subscript { array, index } => expr_leaves(*array) + expr_leaves(*index),
        ExprKind::MemberAccess { object, .. } => expr_leaves(*object),
        ExprKind::StaticAccess { target, .. } => expr_leaves(*target),
        ExprKind::StructInit { name, fields } => expr_leaves(*name) + fields_leaves(fields@),
    }
}

/// The literals and names of a list of expressions, in order.
pub open spec fn exprs_leaves(s: Seq<Expr>) -> Seq<Leaf>
    decreases s,
{
    if s.len() == 0 {
        Seq::empty()
    } else {
        exprs_leaves(s.drop_last()) + expr_leaves(s.last())
    }
}

/// The literals and names of the values of struct literal fields, in order.
pub open spec fn fields_leaves(s: Seq<(String, Expr)>) -> Seq<Leaf>
    decreases s,
{
    if s.len() == 0 {
        Seq::empty()
    } else {
        fields_leaves(s.drop_last()) + expr_leaves(s.last().1)
    }
}

fn push_leaves(out: &mut Vec<Leaf>, e: &Expr)
    ensures
        final(out)@ == old(out)@ + expr_leaves(*e),
    decreases e, 1nat,
{
    let ghost start = out@;
    let span = e.span;
    match &e.node {
        ExprKind::Integer(v) => out.push(Leaf::Integer(span, *v)),
        ExprKind::Bool(b) => out.push(Leaf::Bool(span, *b)),
        ExprKind::Ident(n) => out.push(Leaf::Ident(span, n.clone())),
        ExprKind::Array(items) => {
            proof {
                assert(decreases_to!(e.node => items));
            }
            push_exprs_leaves(out, items);
        },
        ExprKind::Increment { expr, .. } => push_leaves(out, expr),
        ExprKind::Decrement { expr, .. } => push_leaves(out, expr),
        ExprKind::Unary { rhs, .. } => push_leaves(out, rhs),
        ExprKind::Binary { lhs, rhs, .. } => {
            push_leaves(out, lhs);
            push_leaves(out, rhs);
        },
        ExprKind::Assignment { target, value } => {
            push_leaves(out, target);
            push_leaves(out, value);
        },
        ExprKind::Call { callee, args } => {
            push_leaves(out, callee);
            proof {
                assert(decreases_to!(e.node => args));
            }
            push_exprs_leaves(out, args);
        },
        ExprKind::Subscript { array, index } => {
            push_leaves(out, array);
            push_leaves(out, index);
        },
        ExprKind::MemberAccess { object, .. } => push_leaves(out, object),
        ExprKind::StaticAccess { target, .. } => push_leaves(out, target),
        ExprKind::StructInit { name, fields } => {
            push_leaves(out, name);
            proof {
                assert(decreases_to!(e.node => fields));
            }
            push_fields_leaves(out, fields);
        },
    }
    proof {
        assert(out@ =~= start + expr_leaves(*e));
    }
}

fn push_exprs_leaves(out: &mut Vec<Leaf>, items: &Vec<Expr>)
    ensures
        final(out)@ == old(out)@ + exprs_leaves(items@),
    decreases items, 0nat,
{
    let ghost start = out@;
    let mut i: usize = 0;
    proof {
        assert(items@.take(0) =~= Seq::<Expr>::empty());
        assert(out@ =~= start + exprs_leaves(items@.take(0)));
    }
    while i < items.len()
        invariant
            0 <= i <= items@.len(),
            out@ == start + exprs_leaves(items@.take(i as int)),
        decreases items@.len() - i,
    {
        proof {
            assert(decreases_to!(items => items[i as int]));
            assert(items@.take(i + 1).drop_last() =~= items@.take(i as int));
        }
        push_leaves(out, &items[i]);
        proof {
            assert(out@ =~= start + exprs_leaves(items@.take(i + 1)));
        }
        i += 1;
    }
    proof {
        assert(items@.take(i as int) =~= items@);
    }
}

fn push_fields_leaves(out: &mut Vec<Leaf>, fields: &Vec<(String, Expr)>)
    ensures
        final(out)@ == old(out)@ + fields_leaves(fields@),
    decreases fields, 0nat,
{
    let ghost start = out@;
    let mut i: usize = 0;
    proof {
        assert(fields@.take(0) =~= Seq::<(String, Expr)>::empty());
        assert(out@ =~= start + fields_leaves(fields@.take(0)));
    }
    while i < fields.len()
        invariant
            0 <= i <= fields@.len(),
            out@ == start + fields_leaves(fields@.take(i as int)),
        decreases fields@.len() - i,
    {
        proof {
            assert(decreases_to!(fields => fields[i as int]));
            assert(decreases_to!(fields[i as int] => fields[i as int].1));
            assert(fields@.take(i + 1).drop_last() =~= fields@.take(i as int));
        }
        push_leaves(out, &fields[i].1);
        proof {
            assert(out@ =~= start + fields_leaves(fields@.take(i + 1)));
        }
        i += 1;
    }
    proof {
        assert(fields@.take(i as int) =~= fields@);
    }
}

/// The literals and names of an expression, in source order (see [`expr_leaves`]).
pub fn leaves(e: &Expr) -> (r: Vec<Leaf>)
    ensures
        r@ == expr_leaves(*e),
{
    let mut r: Vec<Leaf> = Vec::new();
    push_leaves(&mut r, e);
    proof {
        assert(r@ =~= expr_leaves(*e));
    }
    r
}

/// A part of a statement that a walk hands to the visitor: a statement that
/// holds no other statement, or the condition of an `if` or a `while`.
#[derive(Clone, Copy)]
pub enum StmtItem<'a> {
    Stmt(&'a Stmt),
    Cond(&'a Expr),
}

/// A [`StmtItem`] by value.
pub ghost enum ItemView {
    Stmt(Stmt),
    Cond(Expr),
}

pub open spec fn item_view(i: StmtItem) -> ItemView {
    match i {
        StmtItem::Stmt(s) => ItemView::Stmt(*s),
        StmtItem::Cond(e) => ItemView::Cond(*e),
    }
}

pub open spec fn items_view(v: Seq<StmtItem>) -> Seq<ItemView> {
    v.map_values(|i: StmtItem| item_view(i))
}

/// The parts of a statement in source order: declarations, expression
/// statements, `return`s and struct fields as they are; blocks, function
/// bodies and struct members by their parts; an `if` or a `while` by its
/// condition, then the parts of its branches or body.
pub open spec fn stmt_items(s: Stmt) -> Seq<ItemView>
    decreases s,
{
    match s.node {
        StmtKind::Block(stmts) => stmts_items(stmts@),
        StmtKind::If { cond, then_branch, else_branch } => seq![ItemView::Cond(cond)] + stmt_items(*then_branch)
            + match else_branch {
            Some(b) => stmt_items(*b),
            None => Seq::empty(),
        },
        StmtKind::While { cond, body } => seq![ItemView::Cond(cond)] + stmt_items(*body),
        StmtKind::Fn { body, .. } => stmt_items(*body),
        StmtKind::Struct { members, .. } => stmts_items(members@),
        _ => seq![ItemView::Stmt(s)],
    }
}

/// The parts of a list of statements, in order.
pub open spec fn stmts_items(s: Seq<Stmt>) -> Seq<ItemView>
    decreases s,
{
    if s.len() == 0 {
        Seq::empty()
    } else {
        stmts_items(s.drop_last()) + stmt_items(s.last())
    }
}

proof fn lemma_items_view_push(v: Seq<StmtItem>, x: StmtItem)
    ensures
        items_view(v.push(x)) == items_view(v).push(item_view(x)),
{
    assert(items_view(v.push(x)) =~= items_view(v).push(item_view(x)));
}

fn push_stmt_items<'a>(out: &mut Vec<StmtItem<'a>>, s: &'a Stmt)
    ensures
        items_view(final(out)@) == items_view(old(out)@) + stmt_items(*s),
    decreases s, 1nat,
{
    let ghost start = items_view(out@);
    match &s.node {
        StmtKind::Block(stmts) => {
            proof {
                assert(decreases_to!(s.node => stmts));
            }
            push_stmts_items(out, stmts);
        },
        StmtKind::If { cond, then_branch, else_branch } => {
            proof {
                lemma_items_view_push(out@, StmtItem::Cond(cond));
            }
            out.push(StmtItem::Cond(cond));
            push_stmt_items(out, then_branch);
            if let Some(b) = else_branch {
                push_stmt_items(out, b);
            }
        },
        StmtKind::While { cond, body } => {
            proof {
                lemma_items_view_push(out@, StmtItem::Cond(cond));
            }
            out.push(StmtItem::Cond(cond));
            push_stmt_items(out, body);
        },
        StmtKind::Fn { body, .. } => push_stmt_items(out, body),
        StmtKind::Struct { members, .. } => {
            proof {
                assert(decreases_to!(s.node => members));
            }
            push_stmts_items(out, members);
        },
        _ => {
            proof {
                lemma_items_view_push(out@, StmtItem::Stmt(s));
            }
            out.push(StmtItem::Stmt(s));
        },
    }
    proof {
        assert(items_view(out@) =~= start + stmt_items(*s));
    }
}

fn push_stmts_items<'a>(out: &mut Vec<StmtItem<'a>>, items: &'a Vec<Stmt>)
    ensures
        items_view(final(out)@) == items_view(old(out)@) + stmts_items(items@),
    decreases items, 0nat,
{
    let ghost start = items_view(out@);
    let mut i: usize = 0;
    proof {
        assert(items@.take(0) =~= Seq::<Stmt>::empty());
        assert(items_view(out@) =~= start + stmts_items(items@.take(0)));
    }
    while i < items.len()
        invariant
            0 <= i <= items@.len(),
            items_view(out@) == start + stmts_items(items@.take(i as int)),
        decreases items@.len() - i,
    {
        proof {
            assert(decreases_to!(items => items[i as int]));
            assert(items@.take(i + 1).drop_last() =~= items@.take(i as int));
        }
        push_stmt_items(out, &items[i]);
        proof {
            assert(items_view(out@) =~= start + stmts_items(items@.take(i + 1)));
        }
        i += 1;
    }
    proof {
        assert(items@.take(i as int) =~= items@);
    }
}

/// The parts of a statement, in source order (see [`stmt_items`]).
pub fn parts(s: &Stmt) -> (r: Vec<StmtItem<'_>>)
    ensures
        items_view(r@) == stmt_items(*s),
{
    let mut r: Vec<StmtItem> = Vec::new();
    proof {
        assert(items_view(r@) =~= Seq::<ItemView>::empty());
    }
    push_stmt_items(&mut r, s);
    proof {
        assert(items_view(r@) =~= stmt_items(*s));
    }
    r
}

/// A visitor over the syntax tree. `visit_expr` and `visit_stmt` hand a node
/// to the method for its kind. The defaults of the methods for nodes that hold
/// other expressions or statements visit those with `walk_expr` and
/// `walk_stmt`.
pub trait Visitor: Sized {
    /// Reports the literals and names of an expression, in source order, to
    /// `visit_integer`, `visit_bool` and `visit_ident`: each leaf that
    /// [`leaves`] lists, once.
    fn walk_expr(&mut self, expr: &Expr) {
        let ls = leaves(expr);
        let mut i: usize = 0;
        while i < ls.len()
            decreases ls@.len() - i,
        {
            match &ls[i] {
                Leaf::Integer(span, v) => self.visit_integer(*span, *v),
                Leaf::Bool(span, b) => self.visit_bool(*span, *b),
                Leaf::Ident(span, name) => self.visit_ident(*span, name),
            }
            i += 1;
        }
    }

    /// Hands the parts of a statement, in source order, to the visitor: each
    /// part that [`parts`] lists, once. A condition and an expression
    /// statement's expression go to `visit_expr`, a declaration to
    /// `visit_var_decl`, a `return` to `visit_return`, a struct field to
    /// `visit_struct_field`.
    fn walk_stmt(&mut self, stmt: &Stmt) {
        let ps = parts(stmt);
        let mut i: usize = 0;
        while i < ps.len()
            decreases ps@.len() - i,
        {
            match ps[i] {
                StmtItem::Cond(cond) => self.visit_expr(cond),
                StmtItem::Stmt(s) => {
                    let span = s.span;
                    match &s.node {
                        StmtKind::VarDecl { name, ty, value, mutable } => self.visit_var_decl(
                            s.id,
                            span,
                            name,
                            ty,
                            value,
                            *mutable,
                        ),
                        StmtKind::Expr(expr) => self.visit_expr(expr),
                        StmtKind::Return(expr) => self.visit_return(span, expr),
                        StmtKind::StructField { name, ty } => self.visit_struct_field(span, name, ty),
                        _ => {},
                    }
                },
            }
            i += 1;
        }
    }

    /// Hands `expr` to the method for its kind.
    fn _visit_expr(&mut self, expr: &Expr) {
        let span = expr.span;
        match &expr.node {
            ExprKind::Integer(i) => self.visit_integer(span, *i),
            ExprKind::Bool(b) => self.visit_bool(span, *b),
            ExprKind::Ident(ident) => self.visit_ident(span, ident),
            ExprKind::Array(exprs) => self.visit_array(span, exprs),
            ExprKind::Increment { prefix, expr } => self.visit_increment(span, *prefix, expr),
            ExprKind::Decrement { prefix, expr } => self.visit_decrement(span, *prefix, expr),
            ExprKind::Unary { op, rhs } => self.visit_unary(span, op, rhs),
            ExprKind::Binary { lhs, op, rhs } => self.visit_binary(span, lhs, op, rhs),
            ExprKind::Assignment { target, value } => self.visit_assignment(span, target, value),
            ExprKind::Call { callee, args } => self.visit_call(span, callee, args),
            ExprKind::Subscript { array, index } => self.visit_subscript(span, array, index),
            ExprKind::MemberAccess { object, name } => self.visit_member_access(span, object, name),
            ExprKind::StaticAccess { target, member } => self.visit_static_access(span, target, member),
            ExprKind::StructInit { name, fields } => self.visit_struct_init(span, name, fields),
        }
    }

    fn visit_expr(&mut self, expr: &Expr) {
        self._visit_expr(expr);
    }

    fn visit_integer(&mut self, _span: Span, _i: u16) {
    }

    fn visit_bool(&mut self, _span: Span, _b: bool) {
    }

    fn visit_ident(&mut self, _span: Span, _ident: &String) {
    }

    fn visit_array(&mut self, _span: Span, exprs: &Vec<Expr>) {
        let mut i: usize = 0;
        while i < exprs.len()
            decreases exprs@.len() - i,
        {
            self.walk_expr(&exprs[i]);
            i += 1;
        }
    }

    fn visit_increment(&mut self, _span: Span, _prefix: bool, expr: &Expr) {
        self.walk_expr(expr);
    }

    fn visit_decrement(&mut self, _span: Span, _prefix: bool, expr: &Expr) {
        self.walk_expr(expr);
    }

    fn visit_unary(&mut self, _span: Span, _op: &TokenKind, rhs: &Expr) {
        self.walk_expr(rhs);
    }

    fn visit_binary(&mut self, _span: Span, lhs: &Expr, _op: &TokenKind, rhs: &Expr) {
        self.walk_expr(lhs);
        self.walk_expr(rhs);
    }

    fn visit_assignment(&mut self, _span: Span, target: &Expr, value: &Expr) {
        self.walk_expr(target);
        self.walk_expr(value);
    }

    fn visit_call(&mut self, _span: Span, callee: &Expr, args: &Vec<Expr>) {
        self.walk_expr(callee);
        let mut i: usize = 0;
        while i < args.len()
            decreases args@.len() - i,
        {
            self.walk_expr(&args[i]);
            i += 1;
        }
    }

    fn visit_subscript(&mut self, _span: Span, array: &Expr, index: &Expr) {
        self.walk_expr(array);
        self.walk_expr(index);
    }

    fn visit_member_access(&mut self, _span: Span, object: &Expr, _name: &String) {
        self.walk_expr(object);
    }

    fn visit_static_access(&mut self, _span: Span, target: &Expr, _member: &String) {
        self.walk_expr(target);
    }

    fn visit_struct_init(&mut self, _span: Span, name: &Expr, fields: &Vec<(String, Expr)>) {
        self.walk_expr(name);
        let mut i: usize = 0;
        while i < fields.len()
            decreases fields@.len() - i,
        {
            self.walk_expr(&fields[i].1);
            i += 1;
        }
    }

    /// Hands `stmt` to the method for its kind.
    fn visit_stmt(&mut self, stmt: &Stmt) {
        let span = stmt.span;
        let id = stmt.id;
        match &stmt.node {
            StmtKind::VarDecl { name, ty, value, mutable } => self.visit_var_decl(id, span, name, ty, value, *mutable),
            StmtKind::Expr(expr) => self.visit_expr(expr),
            StmtKind::Block(stmts) => self.visit_block(span, stmts),
            StmtKind::Return(expr) => self.visit_return(span, expr),
            StmtKind::If { cond, then_branch, else_branch } => {
                let else_branch: Option<&Stmt> = match else_branch {
                    Some(b) => Some(&**b),
                    None => None,
                };
                self.visit_if(span, cond, then_branch, else_branch)
            },
            StmtKind::While { cond, body } => self.visit_while(span, cond, body),
            StmtKind::Fn { name, params, return_type, body } => self.visit_fn(span, name, params, return_type, body),
            StmtKind::Struct { name, members } => self.visit_struct(span, name, members),
            StmtKind::StructField { name, ty } => self.visit_struct_field(span, name, ty),
        }
    }

    fn visit_var_decl(
        &mut self,
        _id: NodeId,
        _span: Span,
        _name: &String,
        _ty: &Option<Type>,
        value: &Expr,
        _mutable: bool,
    ) {
        self.visit_expr(value);
    }

    fn visit_block(&mut self, _span: Span, stmts: &Vec<Stmt>) {
        let mut i: usize = 0;
        while i < stmts.len()
            decreases stmts@.len() - i,
        {
            self.walk_stmt(&stmts[i]);
            i += 1;
        }
    }

    fn visit_return(&mut self, _span: Span, expr: &Option<Expr>) {
        if let Some(expr) = expr {
            self.visit_expr(expr);
        }
    }

    fn visit_if(&mut self, _span: Span, cond: &Expr, then_branch: &Stmt, else_branch: Option<&Stmt>) {
        self.visit_expr(cond);
        self.walk_stmt(then_branch);
        if let Some(else_branch) = else_branch {
            self.walk_stmt(else_branch);
        }
    }

    fn visit_while(&mut self, _span: Span, cond: &Expr, body: &Stmt) {
        self.visit_expr(cond);
        self.walk_stmt(body);
    }

    fn visit_fn(
        &mut self,
        _span: Span,
        _name: &String,
        _params: &Vec<(String, Type)>,
        _return_type: &Option<Type>,
        body: &Stmt,
    ) {
        self.walk_stmt(body);
    }

    fn visit_struct(&mut self, _span: Span, _name: &String, members: &Vec<Stmt>) {
        let mut i: usize = 0;
        while i < members.len()
            decreases members@.len() - i,
        {
            self.walk_stmt(&members[i]);
            i += 1;
        }
    }

    fn visit_struct_field(&mut self, _span: Span, _name: &String, _ty: &Type) {
    }
}

} // verus!
