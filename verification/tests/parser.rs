use teeny::lexer::token::{Token, TokenKind};
use teeny::lexer::Lexer;
use teeny::parser::ast::{Expr, ExprKind, Span, Stmt, StmtKind, Type};
use teeny::parser::precedence::Precedence;
use teeny::parser::Parser;

fn parse_expr(input: &str) -> Expr {
    let lex = Lexer::new(input);
    let tokens: Vec<Token> = lex.collect();
    let mut parser = Parser::new(tokens);
    parser.parse_expr(Precedence::Lowest).unwrap()
}

fn parse_stmt(input: &str) -> Stmt {
    let lex = Lexer::new(input);
    let tokens: Vec<Token> = lex.collect();
    let mut parser = Parser::new(tokens);
    parser.parse().0[0].clone()
}

#[test]
fn integer_literal() {
    let expr = parse_expr("123");
    assert_eq!(expr.node, ExprKind::Integer(123));
}

#[test]
fn prefix_operator() {
    let expr = parse_expr("-5");

    let expected = ExprKind::Unary {
        op: TokenKind::Minus,
        rhs: Box::new(Expr::new(ExprKind::Integer(5), Span::new(1, 2))),
    };

    assert_eq!(expr.node, expected);
}

#[test]
fn infix_operator() {
    let expr = parse_expr("5 + 10");

    let expected = ExprKind::Binary {
        lhs: Box::new(Expr::new(ExprKind::Integer(5), Span::new(0, 1))),
        op: TokenKind::Plus,
        rhs: Box::new(Expr::new(ExprKind::Integer(10), Span::new(4, 6))),
    };

    assert_eq!(expr.node, expected);
}

#[test]
fn operator_precedence() {
    let expr = parse_expr("1 + 2 * 3");

    match expr.node {
        ExprKind::Binary { lhs, op, rhs } => {
            assert_eq!(op, TokenKind::Plus);
            assert_eq!(lhs.node, ExprKind::Integer(1));

            match rhs.node {
                ExprKind::Binary { lhs, op, rhs } => {
                    assert_eq!(op, TokenKind::Star);
                    assert_eq!(lhs.node, ExprKind::Integer(2));
                    assert_eq!(rhs.node, ExprKind::Integer(3));
                },
                _ => panic!("Right side is not a binary expr"),
            }
        },
        _ => panic!("Top level is not a binary expr"),
    }
}

#[test]
fn grouped_expr() {
    let expr = parse_expr("(1 + 2) * 3");

    match expr.node {
        ExprKind::Binary { lhs, op, rhs } => {
            assert_eq!(op, TokenKind::Star);
            assert_eq!(rhs.node, ExprKind::Integer(3));

            match lhs.node {
                ExprKind::Binary { lhs, op, rhs } => {
                    assert_eq!(op, TokenKind::Plus);
                    assert_eq!(lhs.node, ExprKind::Integer(1));
                    assert_eq!(rhs.node, ExprKind::Integer(2));
                },
                _ => panic!("Right side is not a binary expr"),
            }
        },
        _ => panic!("Top level is not a binary expr"),
    }
}

#[test]
fn variable_in_expr() {
    let expr = parse_expr("x + 5");
    let expected = ExprKind::Binary {
        lhs: Box::new(Expr::new(ExprKind::Ident("x".to_string()), Span::new(0, 1))),
        op: TokenKind::Plus,
        rhs: Box::new(Expr::new(ExprKind::Integer(5), Span::new(4, 5))),
    };

    assert_eq!(expr.node, expected);
}

#[test]
fn assignment() {
    let expr = parse_expr("var = 1");

    match expr.node {
        ExprKind::Assignment { target, value } => {
            assert_eq!(target.node, ExprKind::Ident("var".to_string()));
            assert_eq!(value.node, ExprKind::Integer(1));
        },
        _ => panic!("top level is not Assignment"),
    }
}

#[test]
fn parse_call() {
    let expr = parse_expr("something(3)");
    let expected = ExprKind::Call {
        callee: Box::new(Expr::new(ExprKind::Ident("something".to_string()), Span::new(0, 9))),
        args: vec![Expr::new(ExprKind::Integer(3), Span::new(10, 11))],
    };

    assert_eq!(expr.node, expected);
}

#[test]
fn parse_subscript() {
    let expr = parse_expr("arr[5]");
    let expected = ExprKind::Subscript {
        array: Box::new(Expr::new(ExprKind::Ident("arr".to_string()), Span::new(0, 3))),
        index: Box::new(Expr::new(ExprKind::Integer(5), Span::new(4, 5))),
    };

    assert_eq!(expr.node, expected);
}

#[test]
fn parse_member_accessor() {
    let expr = parse_expr("user.name");
    let expected = ExprKind::MemberAccess {
        object: Box::new(Expr::new(ExprKind::Ident("user".to_string()), Span::new(0, 4))),
        name: "name".to_string(),
    };

    assert_eq!(expr.node, expected);
}

#[test]
fn parse_booleans() {
    let expr = parse_expr("true");
    let expected = ExprKind::Bool(true);
    assert_eq!(expr.node, expected);
}

#[test]
fn parse_array_literal() {
    let expr = parse_expr("[1, 2]");
    let expected = ExprKind::Array(vec![
        Expr::new(ExprKind::Integer(1), Span::new(1, 2)),
        Expr::new(ExprKind::Integer(2), Span::new(4, 5)),
    ]);
    assert_eq!(expr.node, expected);
}

#[test]
fn parse_prefix_incr_decr() {
    let expr = parse_expr("++x");
    let expected = ExprKind::Increment {
        prefix: true,
        expr: Box::new(Expr::new(ExprKind::Ident("x".to_string()), Span::new(2, 3))),
    };
    assert_eq!(expr.node, expected);

    let expr = parse_expr("--x");
    let expected = ExprKind::Decrement {
        prefix: true,
        expr: Box::new(Expr::new(ExprKind::Ident("x".to_string()), Span::new(2, 3))),
    };
    assert_eq!(expr.node, expected);
}

#[test]
fn parse_postfix_incr_decr() {
    let expr = parse_expr("x++");
    let expected = ExprKind::Increment {
        prefix: false,
        expr: Box::new(Expr::new(ExprKind::Ident("x".to_string()), Span::new(0, 1))),
    };
    assert_eq!(expr.node, expected);

    let expr = parse_expr("x--");
    let expected = ExprKind::Decrement {
        prefix: false,
        expr: Box::new(Expr::new(ExprKind::Ident("x".to_string()), Span::new(0, 1))),
    };
    assert_eq!(expr.node, expected);
}

#[test]
fn parse_struct_init() {
    let expr = parse_expr("Point { x: 5, y: 0 }");
    let expected = ExprKind::StructInit {
        name: Box::new(Expr::new(ExprKind::Ident("Point".to_string()), Span::new(0, 5))),
        fields: vec![
            ("x".to_string(), Expr::new(ExprKind::Integer(5), Span::new(11, 12))),
            ("y".to_string(), Expr::new(ExprKind::Integer(0), Span::new(17, 18))),
        ],
    };
    assert_eq!(expr.node, expected);

    let expr = parse_expr("Point { x, y: 3 }");
    let expected = ExprKind::StructInit {
        name: Box::new(Expr::new(ExprKind::Ident("Point".to_string()), Span::new(0, 5))),
        fields: vec![
            ("x".to_string(), Expr::new(ExprKind::Ident("x".to_string()), Span::new(8, 9))),
            ("y".to_string(), Expr::new(ExprKind::Integer(3), Span::new(14, 15))),
        ],
    };
    assert_eq!(expr.node, expected);
}

#[test]
fn parse_var_decl() {
    let s = parse_stmt("let x = 5;");
    assert_eq!(
        s.node,
        StmtKind::VarDecl {
            ty: None,
            name: "x".to_string(),
            value: Expr::new(ExprKind::Integer(5), Span::new(8, 9)),
            mutable: true,
        }
    );

    let s = parse_stmt("let x: i16 = 5;");
    assert_eq!(
        s.node,
        StmtKind::VarDecl {
            ty: Some(Type::I16),
            name: "x".to_string(),
            value: Expr::new(ExprKind::Integer(5), Span::new(13, 14)),
            mutable: true,
        }
    );

    let s = parse_stmt("const x: [i16; 3] = 5;");
    assert_eq!(
        s.node,
        StmtKind::VarDecl {
            ty: Some(Type::Array { ty: Box::new(Type::I16), size: 3 }),
            name: "x".to_string(),
            value: Expr::new(ExprKind::Integer(5), Span::new(20, 21)),
            mutable: false,
        }
    );

    let s = parse_stmt("let x: *i16 = 5;");
    assert_eq!(
        s.node,
        StmtKind::VarDecl {
            ty: Some(Type::Pointer(Box::new(Type::I16))),
            name: "x".to_string(),
            value: Expr::new(ExprKind::Integer(5), Span::new(14, 15)),
            mutable: true,
        }
    );
}

#[test]
fn parse_if() {
    let stmt = parse_stmt("if (1) something();");
    assert!(matches!(stmt.node, StmtKind::If { else_branch: None, .. }));

    let stmt = parse_stmt("if (x > 5) { something(); }");
    assert!(matches!(stmt.node, StmtKind::If { else_branch: None, .. }));

    let stmt = parse_stmt("if (x > 5) something(); else something_else();");
    assert!(matches!(stmt.node, StmtKind::If { else_branch: Some(_), .. }));

    let stmt = parse_stmt("if (x > 5) { something(); } else { something_else(); }");
    assert!(matches!(stmt.node, StmtKind::If { else_branch: Some(_), .. }));
}

#[test]
fn parse_while() {
    let stmt = parse_stmt("while (x > 5) x--;");
    assert!(matches!(stmt.node, StmtKind::While { .. }));

    let stmt = parse_stmt("while (x > 5) { x--; }");
    assert!(matches!(stmt.node, StmtKind::While { .. }));
}

#[test]
fn parse_fn_decl() {
    let stmt = parse_stmt("fn main() {}");

    let StmtKind::Fn { name, params, return_type, .. } = stmt.node else {
        panic!("not Fn");
    };

    assert_eq!(name, "main".to_string());
    assert_eq!(params.len(), 0);
    assert_eq!(return_type, None);

    let stmt = parse_stmt("fn main(a: i16, b: i16) {}");
    let StmtKind::Fn { params, .. } = stmt.node else {
        panic!("not Fn");
    };

    assert_eq!(params, vec![("a".to_string(), Type::I16), ("b".to_string(), Type::I16)]);

    let stmt = parse_stmt("fn main(a: i16) -> *i16 {}");
    let StmtKind::Fn { return_type, .. } = stmt.node else {
        panic!("not Fn");
    };

    assert_eq!(return_type, Some(Type::Pointer(Box::new(Type::I16))));
}

#[test]
fn parse_struct_decl() {
    let stmt = parse_stmt(
        "
            struct User {
                name: string,
                id: i16,

                fn get_id(self) {
                    return self.id;
                }
            }
        ",
    );

    let StmtKind::Struct { name, members } = stmt.node else {
        panic!("not struct");
    };

    assert_eq!(name, "User".to_string());
    assert_eq!(members.len(), 3);
}

#[test]
fn parse_errors_syncronize() {
    // After an error the parser skips to the next statement and goes on.
    let tokens: Vec<Token> = Lexer::new("let = 5; let y = 2;").collect();
    let mut parser = Parser::new(tokens);
    let (stmts, errors) = parser.parse();
    assert_eq!(errors.len(), 1);
    assert_eq!(stmts.len(), 1);
    assert!(matches!(&stmts[0].node, StmtKind::VarDecl { name, .. } if name == "y"));
}

// Compound assignment is written out: `x += 2` is `x = x + 2`.
#[test]
fn compound_assignment_desugars() {
    let expr = parse_expr("x += 2");
    match expr.node {
        ExprKind::Assignment { target, value } => {
            assert_eq!(target.node, ExprKind::Ident("x".to_string()));
            match value.node {
                ExprKind::Binary { lhs, op, rhs } => {
                    assert_eq!(op, TokenKind::Plus);
                    assert_eq!(lhs.node, ExprKind::Ident("x".to_string()));
                    assert_eq!(rhs.node, ExprKind::Integer(2));
                },
                _ => panic!("value is not binary"),
            }
        },
        _ => panic!("not an assignment"),
    }
}

// Assigning to something that is neither a name nor a dereference is an error.
#[test]
fn assignment_to_non_variable() {
    let tokens: Vec<Token> = Lexer::new("1 = 2;").collect();
    let mut parser = Parser::new(tokens);
    let (_stmts, errors) = parser.parse();
    assert!(!errors.is_empty());
    assert!(
        errors[0].message.starts_with(
            "Assigning to a non-variable: Spanned { node: Integer(1), span: Span { start: 0, end: 1 }, id: NodeId("
        ),
        "{}",
        errors[0].message
    );
    assert!(errors[0].message.ends_with(") }"));
}

// The debug form of an expression is the one `{:?}` writes.
#[test]
fn expression_debug_form() {
    let e = parse_expr("f(a, -1)");
    assert_eq!(teeny::parser::debug::expr_debug(&e), format!("{:?}", e));
    let e = parse_expr("p.x + [true, 2]");
    assert_eq!(teeny::parser::debug::expr_debug(&e), format!("{:?}", e));
}

// A missing semicolon is reported.
#[test]
fn missing_semicolon_error() {
    let tokens: Vec<Token> = Lexer::new("let x = 5").collect();
    let mut parser = Parser::new(tokens);
    let (_stmts, errors) = parser.parse();
    assert_eq!(errors.len(), 1);
}

// Span::merge covers both spans; node ids count up.
#[test]
fn span_merge_and_node_ids() {
    let s = Span::merge(Span::new(2, 4), Span::new(7, 9));
    assert_eq!(s, Span::new(2, 9));
    let id = teeny::parser::ast::NodeId(5);
    assert_eq!(id.next(), teeny::parser::ast::NodeId(6));
}

// Sizes in words: an array's is its element's times its length.
#[test]
fn type_sizes() {
    assert_eq!(Type::I16.size(), 1);
    assert_eq!(Type::Pointer(Box::new(Type::Bool)).size(), 1);
    assert_eq!(Type::Array { ty: Box::new(Type::I16), size: 3 }.size(), 3);
    assert_eq!(Type::Void.size(), 0);
}

// The precedence table: multiplication binds tighter than addition.
#[test]
fn precedence_levels() {
    assert!(Precedence::of(&TokenKind::Star).level() > Precedence::of(&TokenKind::Plus).level());
    assert!(Precedence::of(&TokenKind::Plus).level() > Precedence::of(&TokenKind::Equal).level());
}

// A copied statement is equal to the statement it was copied from.
#[test]
fn cloned_statement_is_equal() {
    let stmt = parse_stmt(
        "fn f(a: int, b: *bool) -> int { let mut x = [1, 2]; if a > 0 { return x[0]; } else { while b { x[1] += 1; } } }",
    );
    let copy = teeny::parser::ast::clone_stmt_kind(&stmt.node);
    assert_eq!(copy, stmt.node);
    let stmt = parse_stmt("struct P { x: int, y: bool }");
    assert_eq!(teeny::parser::ast::clone_stmt_kind(&stmt.node), stmt.node);
}

// Parentheses group an expression without changing it.
#[test]
fn parenthesized_expression_is_the_inner_expression() {
    let grouped = parse_expr("(1 + 2)");
    assert_eq!(grouped.span, Span::new(1, 6));
    match grouped.node {
        ExprKind::Binary { op, .. } => assert_eq!(op, TokenKind::Plus),
        _ => panic!("not a binary expression"),
    }
}

// A pointer type annotation is read as a pointer to its target type.
#[test]
fn pointer_type_annotation() {
    let stmt = parse_stmt("let x: *bool = 0;");
    match stmt.node {
        StmtKind::VarDecl { ty, .. } => assert_eq!(ty, Some(Type::Pointer(Box::new(Type::Bool)))),
        _ => panic!("not a declaration"),
    }
}
