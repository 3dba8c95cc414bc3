use teeny::lexer::token::TokenKind;
use teeny::parser::ast::{ExprKind, Span, Spanned, Stmt, StmtKind, Type};
use teeny::visitor::{leaves, parts, Leaf, StmtItem, Visitor};

struct CounterVisitor {
    integer_count: usize,
    bool_count: usize,
    ident_count: usize,
}

impl CounterVisitor {
    fn new() -> Self {
        Self { integer_count: 0, bool_count: 0, ident_count: 0 }
    }
}

impl Visitor for CounterVisitor {
    fn visit_integer(&mut self, _span: Span, _i: u16) {
        self.integer_count += 1;
    }

    fn visit_bool(&mut self, _span: Span, _b: bool) {
        self.bool_count += 1;
    }

    fn visit_ident(&mut self, _span: Span, _ident: &String) {
        self.ident_count += 1;
    }
}

fn count_expr(expr: &Spanned<ExprKind>) -> CounterVisitor {
    let mut visitor = CounterVisitor::new();
    visitor.visit_expr(expr);
    visitor
}

fn count_stmt(stmt: &Stmt) -> CounterVisitor {
    let mut visitor = CounterVisitor::new();
    visitor.visit_stmt(stmt);
    visitor
}

fn spanned<T>(node: T) -> Spanned<T> {
    Spanned::new(node, Span::new(0, 0))
}

fn boxed<T>(node: T) -> Box<Spanned<T>> {
    Box::new(spanned(node))
}

#[test]
fn test_visit_array() {
    let arr = spanned(ExprKind::Array(vec![
        spanned(ExprKind::Integer(0)),
        spanned(ExprKind::Integer(1)),
        spanned(ExprKind::Integer(2)),
    ]));

    let v = count_expr(&arr);
    assert_eq!(v.integer_count, 3);
}

#[test]
fn test_visit_increment() {
    let expr = spanned(ExprKind::Increment { prefix: true, expr: boxed(ExprKind::Ident("i".to_string())) });

    let v = count_expr(&expr);
    assert_eq!(v.ident_count, 1);
}

#[test]
fn test_visit_decrement() {
    let expr = spanned(ExprKind::Decrement { prefix: true, expr: boxed(ExprKind::Ident("i".to_string())) });

    let v = count_expr(&expr);
    assert_eq!(v.ident_count, 1);
}

#[test]
fn test_visit_unary() {
    let expr = spanned(ExprKind::Unary { op: TokenKind::Bang, rhs: boxed(ExprKind::Ident("i".to_string())) });

    let v = count_expr(&expr);
    assert_eq!(v.ident_count, 1);
}

#[test]
fn test_visit_binary() {
    let expr = spanned(ExprKind::Binary {
        lhs: boxed(ExprKind::Ident("n".to_string())),
        op: TokenKind::Plus,
        rhs: boxed(ExprKind::Integer(5)),
    });

    let v = count_expr(&expr);
    assert_eq!(v.ident_count, 1);
    assert_eq!(v.integer_count, 1);
}

#[test]
fn test_visit_assignment() {
    let expr = spanned(ExprKind::Assignment {
        target: boxed(ExprKind::Ident("i".to_string())),
        value: boxed(ExprKind::Integer(5)),
    });

    let v = count_expr(&expr);
    assert_eq!(v.ident_count, 1);
    assert_eq!(v.integer_count, 1);
}

#[test]
fn test_visit_call() {
    let expr = spanned(ExprKind::Call {
        callee: boxed(ExprKind::Ident("foo".to_string())),
        args: vec![spanned(ExprKind::Integer(1)), spanned(ExprKind::Integer(2))],
    });

    let v = count_expr(&expr);
    assert_eq!(v.ident_count, 1);
    assert_eq!(v.integer_count, 2);
}

#[test]
fn test_visit_subscript() {
    let expr = spanned(ExprKind::Subscript {
        array: boxed(ExprKind::Ident("arr".to_string())),
        index: boxed(ExprKind::Ident("i".to_string())),
    });

    let v = count_expr(&expr);
    assert_eq!(v.ident_count, 2);
}

#[test]
fn test_visit_member_access() {
    let expr = spanned(ExprKind::MemberAccess {
        object: boxed(ExprKind::Ident("obj".to_string())),
        name: "x".to_string(),
    });

    let v = count_expr(&expr);
    assert_eq!(v.ident_count, 1);
}

#[test]
fn test_visit_static_access() {
    let expr = spanned(ExprKind::StaticAccess {
        target: boxed(ExprKind::Ident("ivt".to_string())),
        member: "register".to_string(),
    });

    let v = count_expr(&expr);
    assert_eq!(v.ident_count, 1);
}

#[test]
fn test_visit_struct_init() {
    let expr = spanned(ExprKind::StructInit {
        name: boxed(ExprKind::Ident("Point".to_string())),
        fields: vec![
            ("x".to_string(), spanned(ExprKind::Integer(1))),
            ("y".to_string(), spanned(ExprKind::Integer(2))),
        ],
    });

    let v = count_expr(&expr);
    assert_eq!(v.ident_count, 1);
    assert_eq!(v.integer_count, 2);
}

#[test]
fn test_visit_var_decl() {
    let stmt = spanned(StmtKind::VarDecl {
        name: "x".to_string(),
        ty: Some(Type::I16),
        value: spanned(ExprKind::Integer(42)),
        mutable: true,
    });

    let v = count_stmt(&stmt);
    assert_eq!(v.integer_count, 1);
}

#[test]
fn test_visit_expr_stmt() {
    let stmt = spanned(StmtKind::Expr(spanned(ExprKind::Integer(5))));

    let v = count_stmt(&stmt);
    assert_eq!(v.integer_count, 1);
}

#[test]
fn test_visit_block() {
    let stmt = spanned(StmtKind::Block(vec![
        spanned(StmtKind::Expr(spanned(ExprKind::Integer(1)))),
        spanned(StmtKind::Expr(spanned(ExprKind::Integer(2)))),
        spanned(StmtKind::Expr(spanned(ExprKind::Integer(3)))),
    ]));

    let v = count_stmt(&stmt);
    assert_eq!(v.integer_count, 3);
}

#[test]
fn test_visit_return_with_value() {
    let stmt = spanned(StmtKind::Return(Some(spanned(ExprKind::Integer(42)))));

    let v = count_stmt(&stmt);
    assert_eq!(v.integer_count, 1);
}

#[test]
fn test_visit_return_no_value() {
    let stmt = spanned(StmtKind::Return(None));

    let v = count_stmt(&stmt);
    assert_eq!(v.integer_count, 0);
    assert_eq!(v.bool_count, 0);
    assert_eq!(v.ident_count, 0);
}

#[test]
fn test_visit_if_no_else() {
    let then_body: Stmt = spanned(StmtKind::Expr(spanned(ExprKind::Integer(1))));
    let stmt = spanned(StmtKind::If {
        cond: spanned(ExprKind::Bool(true)),
        then_branch: Box::new(then_body),
        else_branch: None,
    });

    let v = count_stmt(&stmt);
    assert_eq!(v.bool_count, 1);
    assert_eq!(v.integer_count, 1);
}

#[test]
fn test_visit_if_with_else() {
    let then_body: Stmt = spanned(StmtKind::Expr(spanned(ExprKind::Integer(1))));
    let else_body: Stmt = spanned(StmtKind::Expr(spanned(ExprKind::Integer(2))));
    let stmt = spanned(StmtKind::If {
        cond: spanned(ExprKind::Bool(true)),
        then_branch: Box::new(then_body),
        else_branch: Some(Box::new(else_body)),
    });

    let v = count_stmt(&stmt);
    assert_eq!(v.bool_count, 1);
    assert_eq!(v.integer_count, 2);
}

#[test]
fn test_visit_while() {
    let body: Stmt = spanned(StmtKind::Expr(spanned(ExprKind::Integer(1))));
    let stmt = spanned(StmtKind::While { cond: spanned(ExprKind::Bool(true)), body: Box::new(body) });

    let v = count_stmt(&stmt);
    assert_eq!(v.bool_count, 1);
    assert_eq!(v.integer_count, 1);
}

#[test]
fn test_visit_fn() {
    let return_stmt: Stmt = spanned(StmtKind::Return(Some(spanned(ExprKind::Integer(42)))));
    let body: Stmt = spanned(StmtKind::Block(vec![return_stmt]));
    let stmt = spanned(StmtKind::Fn {
        name: "foo".to_string(),
        params: vec![("x".to_string(), Type::I16)],
        return_type: Some(Type::I16),
        body: Box::new(body),
    });

    let v = count_stmt(&stmt);
    assert_eq!(v.integer_count, 1);
}

#[test]
fn test_visit_struct() {
    let stmt = spanned(StmtKind::Struct {
        name: "Point".to_string(),
        members: vec![
            spanned(StmtKind::StructField { name: "x".to_string(), ty: Type::I16 }),
            spanned(StmtKind::StructField { name: "y".to_string(), ty: Type::I16 }),
        ],
    });

    let v = count_stmt(&stmt);
    assert_eq!(v.integer_count, 0);
    assert_eq!(v.bool_count, 0);
    assert_eq!(v.ident_count, 0);
}

// A deeply nested tree is walked without recursion in the default visitor.
#[test]
fn visit_deep_nesting() {
    let mut e = spanned(ExprKind::Integer(1));
    for _ in 0..10000 {
        e = spanned(ExprKind::Unary { op: TokenKind::Minus, rhs: Box::new(e) });
    }
    let v = count_expr(&e);
    assert_eq!(v.integer_count, 1);
    std::mem::forget(e);
}

struct NodeVisitor {
    binaries: usize,
    ifs: usize,
}

impl Visitor for NodeVisitor {
    fn visit_binary(&mut self, _span: Span, lhs: &Spanned<ExprKind>, _op: &TokenKind, rhs: &Spanned<ExprKind>) {
        self.binaries += 1;
        self.visit_expr(lhs);
        self.visit_expr(rhs);
    }

    fn visit_if(&mut self, _span: Span, cond: &Spanned<ExprKind>, _then: &Stmt, _else: Option<&Stmt>) {
        self.ifs += 1;
        self.visit_expr(cond);
    }
}

// `visit_expr` and `visit_stmt` hand each node to the method for its kind, so
// an overriding method sees the nodes it is written for.
#[test]
fn visit_dispatches_to_node_methods() {
    let inner = spanned(ExprKind::Binary {
        lhs: boxed(ExprKind::Integer(1)),
        op: TokenKind::Plus,
        rhs: boxed(ExprKind::Integer(2)),
    });
    let expr = spanned(ExprKind::Binary { lhs: Box::new(inner), op: TokenKind::Star, rhs: boxed(ExprKind::Integer(3)) });
    let mut v = NodeVisitor { binaries: 0, ifs: 0 };
    v.visit_expr(&expr);
    assert_eq!(v.binaries, 2);

    let stmt = spanned(StmtKind::If {
        cond: expr,
        then_branch: Box::new(spanned(StmtKind::Block(vec![]))),
        else_branch: None,
    });
    let mut v = NodeVisitor { binaries: 0, ifs: 0 };
    v.visit_stmt(&stmt);
    assert_eq!(v.ifs, 1);
    assert_eq!(v.binaries, 2);
}

// The leaves of an expression are its literals and names in source order:
// the callee first, then the arguments.
#[test]
fn leaves_in_source_order() {
    let expr = spanned(ExprKind::Call {
        callee: boxed(ExprKind::Ident("foo".to_string())),
        args: vec![spanned(ExprKind::Integer(1)), spanned(ExprKind::Bool(true))],
    });
    let ls = leaves(&expr);
    assert_eq!(ls.len(), 3);
    assert!(matches!(&ls[0], Leaf::Ident(_, n) if n == "foo"));
    assert!(matches!(ls[1], Leaf::Integer(_, 1)));
    assert!(matches!(ls[2], Leaf::Bool(_, true)));
}

// The parts of an `if`: its condition, then the statements of its branches.
#[test]
fn parts_of_if() {
    let stmt = spanned(StmtKind::If {
        cond: spanned(ExprKind::Bool(true)),
        then_branch: Box::new(spanned(StmtKind::Block(vec![
            spanned(StmtKind::Expr(spanned(ExprKind::Integer(1)))),
            spanned(StmtKind::Return(None)),
        ]))),
        else_branch: Some(Box::new(spanned(StmtKind::Expr(spanned(ExprKind::Integer(2)))))),
    });
    let ps = parts(&stmt);
    assert_eq!(ps.len(), 4);
    assert!(matches!(ps[0], StmtItem::Cond(_)));
    assert!(matches!(ps[1], StmtItem::Stmt(s) if matches!(s.node, StmtKind::Expr(_))));
    assert!(matches!(ps[2], StmtItem::Stmt(s) if matches!(s.node, StmtKind::Return(None))));
    assert!(matches!(ps[3], StmtItem::Stmt(s) if matches!(s.node, StmtKind::Expr(_))));
}
