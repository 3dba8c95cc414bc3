use teeny::analysis::symbol::SymbolResolver;
use teeny::analysis::type_checker::TypeChecker;
use teeny::error::{TeenyCompilerError, TeenyCompilerErrorKind};
use teeny::lexer::token::Token;
use teeny::lexer::Lexer;
use teeny::parser::ast::{Stmt, Type};
use teeny::parser::Parser;

fn parse_program(input: &str) -> Vec<Stmt> {
    let lex = Lexer::new(input);
    let tokens: Vec<Token> = lex.collect();
    let mut parser = Parser::new(tokens);
    let (ast, errors) = parser.parse();
    assert!(errors.is_empty(), "Parser errors: {:?}", errors);
    ast
}

fn check_types(input: &str) -> Vec<TeenyCompilerError> {
    let ast = parse_program(input);

    let mut sr = SymbolResolver::new();
    sr.check(&ast).expect("Symbol resolution failed");

    let global_scope = sr.global_scope();
    let mut tc = TypeChecker::new(global_scope);
    for stmt in &ast {
        tc.visit_stmt(stmt);
    }

    tc.errors.clone()
}

fn ok(input: &str) {
    let errors = check_types(input);
    assert!(errors.is_empty(), "Expected no errors, got: {:?}", errors);
}

fn err(input: &str) {
    let errors = check_types(input);
    assert!(!errors.is_empty(), "Expected type error but got none");
}

#[test]
fn var_decl_int_annotated() {
    ok("fn main() { let x: int = 5; }");
}

#[test]
fn var_decl_int_inferred() {
    ok("fn main() { let x = 5; }");
}

#[test]
fn var_decl_bool_annotated() {
    ok("fn main() { let x: bool = true; }");
}

#[test]
fn var_decl_bool_inferred() {
    ok("fn main() { let x = false; }");
}

#[test]
fn var_decl_uses_earlier_local() {
    ok("fn main() { let x: int = 5; let y: int = x + 10; }");
}

#[test]
fn var_decl_type_mismatch_int_bool() {
    err("fn main() { let x: int = true; }");
}

#[test]
fn var_decl_type_mismatch_bool_int() {
    err("fn main() { let x: bool = 5; }");
}

#[test]
fn pointer_address_of() {
    ok("fn main() { let x: int = 5; let ptr: *int = &x; }");
}

#[test]
fn pointer_deref() {
    ok(
        "fn main() { let x: int = 5; let ptr: *int = &x; let val: int = *ptr; }",
    );
}

#[test]
fn pointer_arithmetic() {
    ok("fn main() { let x: int = 5; let ptr = &x; let next = ptr + 1; }");
}

#[test]
fn pointer_from_integer_literal() {
    ok("fn main() { let p: *int = 0x9000; }");
}

#[test]
fn pointer_assign_integer_address() {
    ok("fn main() { let x: int = 5; let p: *int = &x; p = 0x8000; }");
}

#[test]
fn pointer_type_mismatch() {
    err("fn main() { let x: int = 5; let ptr: *bool = &x; }");
}

#[test]
fn deref_non_pointer() {
    err("fn main() { let x: int = 5; let y = *x; }");
}

#[test]
fn unary_minus_int() {
    ok("fn main() { let x: int = -5; }");
}

#[test]
fn unary_minus_on_bool_errors() {
    err("fn main() { let x = -true; }");
}

#[test]
fn unary_not_bool() {
    ok("fn main() { let x: bool = !true; }");
}

#[test]
fn unary_not_on_int_errors() {
    err("fn main() { let x = !5; }");
}

#[test]
fn binary_arithmetic() {
    ok(
        "fn main() { let a: int = 3 + 4; let b: int = 3 - 4; let c: int = 3 * 4; let d: int = 8 / 2; let e: int = 7 % 3; }",
    );
}

#[test]
fn binary_bitwise() {
    ok(
        "fn main() { let a: int = 3 & 4; let b: int = 3 | 4; let c: int = 3 ^ 4; let d: int = 1 << 2; }",
    );
}

#[test]
fn binary_comparisons_return_bool() {
    ok(
        "fn main() { let a: bool = 1 == 1; let b: bool = 1 != 2; let c: bool = 1 < 2; let d: bool = 2 > 1; let e: bool = 1 <= 1; let f: bool = 1 >= 1; }",
    );
}

#[test]
fn binary_logical_and_returns_bool() {
    ok("fn main() { let a: bool = true && false; }");
}

#[test]
fn binary_logical_or_returns_bool() {
    ok("fn main() { let a: bool = false || true; }");
}

#[test]
fn binary_logical_type_mismatch() {
    err("fn main() { let x = true && 5; }");
}

#[test]
fn binary_type_mismatch() {
    err("fn main() { let x = 5 + true; }");
}

#[test]
fn bool_compared_to_int() {
    ok("fn main() { let x = 5 == 5; if (x == 1) { } }");
}

#[test]
fn if_bool_literal_condition() {
    ok("fn main() { if (true) { } }");
}

#[test]
fn if_int_literal_condition() {
    ok("fn main() { if (1) { } }");
}

#[test]
fn if_equality_condition() {
    ok("fn main() { let x: int = 5; let y: int = 5; if (x == y) { } }");
}

#[test]
fn if_comparison_condition() {
    ok("fn main() { let x: int = 5; if (x > 0) { } }");
}

#[test]
fn if_else() {
    ok("fn main() { let x: int = 1; if (x == 1) { } else { } }");
}

#[test]
fn while_bool_condition() {
    ok("fn main() { while (true) { } }");
}

#[test]
fn while_int_condition() {
    ok("fn main() { let x: int = 10; while (x) { } }");
}

#[test]
fn while_comparison_condition() {
    ok("fn main() { let x: int = 5; while (x > 0) { } }");
}

#[test]
fn post_increment_type() {
    ok("fn main() { let x: int = 0; x++; }");
}

#[test]
fn pre_increment_type() {
    ok("fn main() { let x: int = 0; ++x; }");
}

#[test]
fn post_decrement_type() {
    ok("fn main() { let x: int = 5; x--; }");
}

#[test]
fn compound_assign_plus() {
    ok("fn main() { let x: int = 1; x += 2; }");
}

#[test]
fn compound_assign_minus() {
    ok("fn main() { let x: int = 5; x -= 2; }");
}

#[test]
fn compound_assign_star() {
    ok("fn main() { let x: int = 3; x *= 4; }");
}

#[test]
fn compound_assign_slash() {
    ok("fn main() { let x: int = 8; x /= 2; }");
}

#[test]
fn fn_void_no_return() {
    ok("fn foo() { } fn main() { foo(); }");
}

#[test]
fn fn_with_return_type() {
    ok("fn answer() -> int { return 42; } fn main() { answer(); }");
}

#[test]
fn fn_with_params() {
    ok(
        "fn add(a: int, b: int) -> int { return a + b; } fn main() { add(1, 2); }",
    );
}

#[test]
fn fn_return_type_mismatch() {
    err("fn foo() -> int { return true; }");
}

#[test]
fn fn_return_value_from_void() {
    err("fn foo() { return 5; }");
}

#[test]
fn fn_missing_return_value() {
    err("fn foo() -> int { return; }");
}

#[test]
fn fn_call_wrong_arg_type() {
    err("fn foo(x: int) { } fn main() { foo(true); }");
}

#[test]
fn fn_call_too_many_args() {
    err("fn foo(x: int) { } fn main() { foo(1, 2); }");
}

#[test]
fn fn_call_too_few_args() {
    err("fn foo(x: int, y: int) { } fn main() { foo(1); }");
}

#[test]
fn variable_shadow_in_inner_scope() {
    ok("fn main() { let x: int = 1; if (1) { let x: bool = true; } }");
}

#[test]
fn variable_used_after_block() {
    ok("fn main() { let x: int = 5; if (1) { } let y: int = x + 1; }");
}


// The errors themselves: a mismatched annotation names both types.
#[test]
fn mismatch_error_names_types() {
    let errors = check_types("fn main() { let x: int = true; }");
    assert!(errors.iter().any(|e| matches!(
        &e.kind,
        TeenyCompilerErrorKind::TypeMismatch(Type::I16, Type::Bool)
    )));
}

// Too many arguments: the counts of parameters and arguments.
#[test]
fn param_count_error() {
    let errors = check_types("fn foo(x: int) { } fn main() { foo(1, 2); }");
    assert!(errors.iter().any(|e| matches!(&e.kind, TeenyCompilerErrorKind::ParamCountMismatch(1, 2))));
}

// Dereferencing a non-pointer: the type cannot be inferred.
#[test]
fn deref_error_kind() {
    let errors = check_types("fn main() { let x: int = 5; let y = *x; }");
    assert!(errors.iter().any(|e| matches!(&e.kind, TeenyCompilerErrorKind::CannotInferType)));
}

// Each checked node's type is recorded: the declaration of `b` gets `Bool`.
#[test]
fn type_map_records_declarations() {
    let ast = parse_program("fn main() { let b = 1 < 2; }");
    let mut sr = SymbolResolver::new();
    sr.check(&ast).unwrap();
    let mut tc = TypeChecker::new(sr.global_scope());
    for stmt in &ast {
        tc.visit_stmt(stmt);
    }
    assert!(tc.errors.is_empty());
    let teeny::parser::ast::StmtKind::Fn { body, .. } = &ast[0].node else { panic!() };
    let teeny::parser::ast::StmtKind::Block(stmts) = &body.node else { panic!() };
    assert_eq!(tc.type_map.get(&stmts[0].id.0), Some(&Type::Bool));
}

// Name resolution: an undefined name, and a function declared inside another.
#[test]
fn resolver_errors() {
    let ast = parse_program("fn main() { y; }");
    let mut sr = SymbolResolver::new();
    let errors = sr.check(&ast).unwrap_err();
    assert_eq!(errors.len(), 1);
    assert!(matches!(&errors[0].kind, TeenyCompilerErrorKind::IdentNotDefined(n) if n == "y"));

    let ast = parse_program("fn main() { fn inner() { } }");
    let mut sr = SymbolResolver::new();
    let errors = sr.check(&ast).unwrap_err();
    assert!(matches!(&errors[0].kind, TeenyCompilerErrorKind::InvalidFnScope));
}

// A local declared in a block is gone after it; the outer one is seen again.
#[test]
fn resolver_block_scope() {
    let ast = parse_program("fn main() { if (1) { let z = 1; } z; }");
    let mut sr = SymbolResolver::new();
    assert!(sr.check(&ast).is_err());
    assert!(sr.is_global_scope());
}

// The error messages.
#[test]
fn error_messages() {
    let e = TeenyCompilerError {
        span: teeny::parser::ast::Span::new(0, 1),
        kind: TeenyCompilerErrorKind::TypeMismatch(Type::I16, Type::Pointer(Box::new(Type::Bool))),
    };
    assert_eq!(e.describe(), "Error: Type mismatch, expected I16 got Pointer(Bool)");
    let e = TeenyCompilerError {
        span: teeny::parser::ast::Span::new(0, 1),
        kind: TeenyCompilerErrorKind::ParamCountMismatch(2, 3),
    };
    assert_eq!(e.describe(), "Error: Incorrect number of parameters. Expected 2, got 3");
}

// Struct expressions cannot be typed: the checker reports that it cannot go on.
#[test]
fn struct_exprs_not_typeable() {
    let ast = parse_program("fn main() { let p = 1; p.x; }");
    let mut sr = SymbolResolver::new();
    sr.check(&ast).expect("Symbol resolution failed");
    let mut tc = TypeChecker::new(sr.global_scope());
    assert!(!tc.visit_stmt(&ast[0]));

    let ast = parse_program("fn main() { let x = 1 + 2; }");
    let mut sr = SymbolResolver::new();
    sr.check(&ast).expect("Symbol resolution failed");
    let mut tc = TypeChecker::new(sr.global_scope());
    assert!(tc.visit_stmt(&ast[0]));
    assert!(tc.errors.is_empty());
}

// Entering and leaving scopes: the resolver is back at the global scope
// exactly when it has left as many scopes as it entered.
#[test]
fn resolver_scope_depth() {
    let mut sr = SymbolResolver::new();
    assert!(sr.is_global_scope());
    assert!(sr.errors().is_empty());
    sr.enter_scope();
    sr.enter_scope();
    assert!(!sr.is_global_scope());
    sr.exit_scope();
    assert!(!sr.is_global_scope());
    sr.exit_scope();
    assert!(sr.is_global_scope());
}
