use teeny::analysis::symbol::SymbolResolver;
use teeny::analysis::type_checker::TypeChecker;
use teeny::codegen::CodeGenerator;
use teeny::lexer::token::Token;
use teeny::lexer::Lexer;
use teeny::parser::Parser;

fn generate_code(input: &str) -> String {
    let lex = Lexer::new(input);
    let tokens: Vec<Token> = lex.collect();
    let mut parser = Parser::new(tokens);
    let (ast, errors) = parser.parse();
    assert!(errors.is_empty(), "Parser errors: {:?}", errors);

    let mut sr = SymbolResolver::new();
    sr.check(&ast).expect("Symbol resolution failed");

    let global_scope = sr.global_scope();
    let mut tc = TypeChecker::new(global_scope);
    for stmt in &ast {
        tc.visit_stmt(stmt);
    }
    assert!(tc.errors.is_empty(), "Type check errors: {:?}", tc.errors);

    let mut codegen = CodeGenerator::new(tc.type_map);
    for stmt in &ast {
        codegen.visit_stmt(stmt);
    }
    codegen.into_output()
}

#[test]
fn test_codegen_integer() {
    let code = generate_code("fn main() { 42; }");
    assert!(code.contains("set rA, 42"));
    assert!(code.contains("psh rA"));
}

#[test]
fn test_codegen_binary_op() {
    let code = generate_code("fn main() { 5 + 10; }");
    assert!(code.contains("set rA, 5"));
    assert!(code.contains("set rA, 10"));
    assert!(code.contains("add rA, rB"));
}

#[test]
fn test_codegen_variable() {
    let code = generate_code("fn main() { let x = 100; x; }");
    assert!(code.contains("set rA, 100"));
    assert!(code.contains("lod rA, [rE - 0]"));
}

#[test]
fn test_codegen_pointers() {
    let code = generate_code(
        "fn main() { let x: int = 5; let ptr = &x; *ptr = 10; }",
    );
    assert!(code.contains("set rA, rE\n    psh rA"));
    assert!(code.contains("str [rB], rA"));
}

#[test]
fn test_codegen_math_ops() {
    let code = generate_code("fn main() { 5 - 2; 5 * 2; 5 / 2; 5 % 2; }");
    assert!(code.contains("sub rA, rB"));
    assert!(code.contains("mpy rA, rB"));
    assert!(code.contains("div rA, rB"));
    assert!(code.contains("mod rA, rB"));
}

#[test]
fn test_codegen_bitwise_ops() {
    let code = generate_code("fn main() { 5 & 2; 5 | 2; 5 ^ 2; 5 << 2; }");
    assert!(code.contains("and rA, rB"));
    assert!(code.contains("or rA, rB"));
    assert!(code.contains("xor rA, rB"));
    assert!(code.contains("neg rB\n    shf rA, rB"));
}

#[test]
fn test_codegen_right_shift() {
    let code = generate_code("fn main() { 5 >> 2; }");
    assert!(code.contains("shf rA, rB"));
    assert!(!code.contains("neg rB"));
}

#[test]
fn test_codegen_bitwise_not() {
    let code = generate_code("fn main() { ~5; }");
    assert!(code.contains("xor rA, 65535"));
}

#[test]
fn test_codegen_comparisons() {
    let code = generate_code(
        "fn main() { 5 == 2; 5 != 2; 5 < 2; 5 > 2; 5 <= 2; 5 >= 2; }",
    );
    assert!(code.contains("je !cmp_true_"));
    assert!(code.contains("jne !cmp_true_"));
    assert!(code.contains("jl !cmp_true_"));
    assert!(code.contains("jg !cmp_true_"));
    assert!(code.contains("jle !cmp_true_"));
    assert!(code.contains("jge !cmp_true_"));
}

#[test]
fn test_codegen_unary_ops() {
    let code = generate_code("fn main() { -5; !true; }");
    assert!(code.contains("neg rA"));
    assert!(code.contains("je !not_true_"));
}

#[test]
fn test_codegen_logical_and() {
    let code = generate_code("fn main() { true && false; }");
    assert!(code.contains("je !and_false_"));
    assert!(code.contains("!and_false_"));
    assert!(code.contains("!and_end_"));
}

#[test]
fn test_codegen_logical_or() {
    let code = generate_code("fn main() { true || false; }");
    assert!(code.contains("jne !or_true_"));
    assert!(code.contains("!or_true_"));
    assert!(code.contains("!or_end_"));
}

#[test]
fn test_codegen_logical_not() {
    let code = generate_code("fn main() { !true; }");
    assert!(code.contains("je !not_true_"));
    assert!(code.contains("!not_end_"));
}

#[test]
fn test_codegen_complex_expr() {
    let code = generate_code("fn main() { (5 + 2) * 3; }");
    assert!(code.contains("add rA, rB"));
    assert!(code.contains("mpy rA, rB"));
}

#[test]
fn test_codegen_if_else() {
    let code = generate_code("fn main() { if (1) { 2; } else { 3; } }");
    assert!(code.contains("cmp rA, rZ"));
    assert!(code.contains("je !if_else_"));
    assert!(code.contains("jmp !if_end_"));
}

#[test]
fn test_codegen_while() {
    let code = generate_code("fn main() { while (1) { 2; } }");
    assert!(code.contains("!while_start_"));
    assert!(code.contains("cmp rA, rZ"));
    assert!(code.contains("je !while_end_"));
    assert!(code.contains("jmp !while_start_"));
}

#[test]
fn test_codegen_fn_call() {
    let code = generate_code(
        "fn add(a: int, b: int) -> int { return a + b; } fn main() { add(1, 2); }",
    );
    assert!(code.contains("cal !add"));
    assert!(code.contains("psh rE\n    set rE, SP"));
    assert!(code.contains("set SP, rE\n    pop rE\n    ret"));
}

#[test]
fn test_codegen_hex_literal() {
    let code = generate_code("fn main() { 0xFF; 0x1A2B; }");
    assert!(code.contains("set rA, 255"));
    assert!(code.contains("set rA, 6699"));
}

#[test]
fn test_codegen_post_increment() {
    let code = generate_code("fn main() { let x = 0; x++; }");
    assert!(code.contains("lod rA, [rE - 0]"));
    assert!(code.contains("add rA, 1"));
    assert!(code.contains("str [rE - 0], rA"));
}

#[test]
fn test_codegen_pre_increment() {
    let code = generate_code("fn main() { let x = 0; ++x; }");
    assert!(code.contains("add rA, 1"));
    assert!(code.contains("str [rE - 0], rA"));
}

#[test]
fn test_codegen_post_decrement() {
    let code = generate_code("fn main() { let x = 5; x--; }");
    assert!(code.contains("sub rA, 1"));
    assert!(code.contains("str [rE - 0], rA"));
}

#[test]
fn test_codegen_extra_args() {
    let code = generate_code(
        "fn add4(a: int, b: int, c: int, d: int) -> int { return d; } fn main() { add4(1, 2, 3, 4); }",
    );
    assert!(code.contains("lod rA, [rE + 3]"));
}

#[test]
fn test_codegen_const_local() {
    let code = generate_code("fn main() { const MAX = 100; MAX; }");
    assert!(code.starts_with(".const MAX 100\n"));
    assert!(code.contains("set rA, MAX"));
    assert!(!code.contains("psh rA\n    lod rA"));
}

#[test]
fn test_codegen_const_global() {
    let code = generate_code("const PORT = 0x8002; fn main() { PORT; }");
    assert!(code.starts_with(".const PORT 32770\n"));
    assert!(code.contains("set rA, PORT"));
}

#[test]
fn test_codegen_const_bool() {
    let code = generate_code("const FLAG = true; fn main() { FLAG; }");
    assert!(code.starts_with(".const FLAG 1\n"));
    assert!(code.contains("set rA, FLAG"));
}

#[test]
fn test_codegen_const_not_on_stack() {
    let code = generate_code("fn main() { const X = 42; let y = 1; y; }");
    assert!(code.contains(".const X 42"));
    assert!(code.contains("lod rA, [rE - 0]"));
}

#[test]
fn test_codegen_compound_assign() {
    let code = generate_code(
        "fn main() { let x = 1; x += 2; x -= 1; x *= 3; x /= 2; x %= 7; }",
    );
    assert!(code.contains("add rA, rB"));
    assert!(code.contains("sub rA, rB"));
    assert!(code.contains("mpy rA, rB"));
    assert!(code.contains("div rA, rB"));
    assert!(code.contains("mod rA, rB"));
}


// The whole output of a small program, exactly.
#[test]
fn codegen_exact_output() {
    let code = generate_code("fn main() { let x = 7; x; }");
    let expected = [
        "!start\n  cal !main\n  jmp !halt\n!halt\n  jmp !halt\n",
        "!main\n",
        "    psh rE\n",
        "    set rE, SP\n",
        "    set rA, 7\n",
        "    psh rA\n",
        "    lod rA, [rE - 0]\n",
        "    psh rA\n",
        "    pop rB\n",
        "    pop rB\n",
        "    set SP, rE\n",
        "    pop rE\n",
        "    ret\n",
    ]
    .concat();
    assert_eq!(code, expected);
}

// Labels are numbered in order and never repeat.
#[test]
fn codegen_labels_distinct() {
    let code = generate_code("fn main() { 1 < 2; 3 < 4; }");
    assert!(code.contains("!cmp_true_0\n"));
    assert!(code.contains("!cmp_end_1\n"));
    assert!(code.contains("!cmp_true_2\n"));
    assert!(code.contains("!cmp_end_3\n"));
}

// Locals take consecutive slots; a second local is at [rE - 1].
#[test]
fn codegen_second_local() {
    let code = generate_code("fn main() { let a = 1; let b = 2; b; }");
    assert!(code.contains("lod rA, [rE - 1]"));
}

// The address of a stack argument is above the frame pointer.
#[test]
fn codegen_address_of_stack_arg() {
    let code = generate_code("fn f(a: int, b: int, c: int, d: int) { let p = &d; } fn main() { }");
    assert!(code.contains("set rA, rE\n    sub rA, -3\n    psh rA"));
}

// Generation stops where it cannot go on: incrementing a name that is not a local.
#[test]
fn codegen_refuses_increment_of_non_local() {
    let mut codegen = CodeGenerator::new(teeny::analysis::type_checker::TypeMap::new());
    let e = teeny::parser::ast::Spanned::new(
        teeny::parser::ast::ExprKind::Increment {
            prefix: true,
            expr: Box::new(teeny::parser::ast::Spanned::new(
                teeny::parser::ast::ExprKind::Ident("nope".to_string()),
                teeny::parser::ast::Span::new(0, 4),
            )),
        },
        teeny::parser::ast::Span::new(0, 6),
    );
    assert!(!codegen.visit_expr(&e));
}

// The generator's own helpers.
#[test]
fn codegen_helpers() {
    let mut codegen = CodeGenerator::new(teeny::analysis::type_checker::TypeMap::new());
    assert_eq!(codegen.next_label("x"), "!x_0");
    assert_eq!(codegen.next_label("x"), "!x_1");
    codegen.insert_var("a".to_string(), 1);
    codegen.insert_var("b".to_string(), 3);
    assert_eq!(codegen.lookup_var("a").unwrap().offset, 0);
    assert_eq!(codegen.lookup_var("b").unwrap().offset, 1);
    assert_eq!(codegen.lookup_var("b").unwrap().size, 3);
    codegen.enter_scope();
    codegen.insert_var("a".to_string(), 1);
    assert_eq!(codegen.lookup_var("a").unwrap().offset, 4);
    codegen.exit_scope();
    assert_eq!(codegen.lookup_var("a").unwrap().offset, 0);
    assert!(codegen.lookup_var("c").is_none());
    codegen.emit("nop");
    codegen.emit_label("!here");
    assert!(codegen.into_output().ends_with("    nop\n!here\n"));
}

// `&&` tests its left operand before the right operand's code, and jumps over
// that code when the left operand is false.
#[test]
fn and_short_circuits() {
    let code = generate_code("fn f() -> bool { return true; } fn main() { false && f(); }");
    let expected = "    set rA, 0\n    psh rA\n    pop rA\n    cmp rA, rZ\n    je !and_false_0\n    cal !f\n    psh rA\n    pop rA\n    cmp rA, rZ\n    je !and_false_0\n    set rA, 1\n    jmp !and_end_1\n!and_false_0\n    set rA, 0\n!and_end_1\n    psh rA\n";
    assert!(code.contains(expected), "{}", code);
}

// `||` jumps over its right operand's code when the left operand is true.
#[test]
fn or_short_circuits() {
    let code = generate_code("fn f() -> bool { return true; } fn main() { true || f(); }");
    let expected = "    set rA, 1\n    psh rA\n    pop rA\n    cmp rA, rZ\n    jne !or_true_0\n    cal !f\n    psh rA\n    pop rA\n    cmp rA, rZ\n    jne !or_true_0\n    set rA, 0\n    jmp !or_end_1\n!or_true_0\n    set rA, 1\n!or_end_1\n    psh rA\n";
    assert!(code.contains(expected), "{}", code);
}

// The register arguments are computed third first, as before, but all of
// them before any is popped, so an argument whose code uses rB cannot
// overwrite the second argument.
#[test]
fn call_register_arguments() {
    let code = generate_code(
        "fn add(a: int, b: int, c: int) -> int { return a; } fn main() { add(1 + 1, 2, 3); }",
    );
    let expected = "    set rA, 3\n    psh rA\n    set rA, 2\n    psh rA\n    set rA, 1\n    psh rA\n    set rA, 1\n    psh rA\n    pop rB\n    pop rA\n    add rA, rB\n    psh rA\n    pop rA\n    pop rB\n    pop rC\n    cal !add\n    psh rA\n";
    assert!(code.contains(expected), "{}", code);
}

// Each expression statement pushes its value once and pops it again, so a
// function of expression statements leaves the stack as it found it.
#[test]
fn expression_statements_are_stack_neutral() {
    let code = generate_code(
        "fn f(a: int, b: int, c: int, d: int) -> int { return a; } fn main() { 1 + 2 * 3; true || false; f(1 + 1, 2, 3, 4); }",
    );
    let main = &code[code.find("\n!main\n").unwrap()..];
    let pushes = main.lines().filter(|l| l.trim_start().starts_with("psh ")).count();
    let pops = main.lines().filter(|l| l.trim_start().starts_with("pop ")).count();
    assert_eq!(pushes, pops, "{}", main);
}

// The first three parameters live below the frame pointer, the later ones
// above it from `[rE + 3]` on.
#[test]
fn parameter_frame_offsets() {
    let code = generate_code(
        "fn f(a: int, b: int, c: int, d: int, e: int) -> int { return a + c + d + e; } fn main() { f(1, 2, 3, 4, 5); }",
    );
    assert!(code.contains("lod rA, [rE - 0]"));
    assert!(code.contains("lod rA, [rE - 2]"));
    assert!(code.contains("lod rA, [rE + 3]"));
    assert!(code.contains("lod rA, [rE + 4]"));
}
