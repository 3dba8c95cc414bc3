use teeny::arith_lexer;
use teeny::lexer::token::{Token, TokenKind};
use teeny::lexer::Lexer;

#[test]
fn lexer_tokenize_basic_math() {
    let input = "10 + 5";
    let mut lex = arith_lexer::Lexer::new(input);

    let t1 = lex.next().unwrap();
    assert_eq!(t1.kind, arith_lexer::TokenKind::Integer(10));
    assert_eq!(t1.line, 1);
    assert_eq!(t1.col, 1);
    assert_eq!(t1.start, 0);
    assert_eq!(t1.end, 2);

    let t2 = lex.next().unwrap();
    assert_eq!(t2.kind, arith_lexer::TokenKind::Plus);

    let t3 = lex.next().unwrap();
    assert_eq!(t3.kind, arith_lexer::TokenKind::Integer(5));

    let t4 = lex.next();
    assert_eq!(t4, None);
}

#[test]
fn lexer_tokenize_newlines() {
    let input = " \n   +";
    let mut lex = arith_lexer::Lexer::new(input);

    let t1 = lex.next().unwrap();
    assert_eq!(t1.kind, arith_lexer::TokenKind::Plus);
    assert_eq!(t1.line, 2);
    assert_eq!(t1.col, 4);
}

#[test]
fn lexer_tokenize_lexemes() {
    let input = "100 + 200";
    let mut lex = arith_lexer::Lexer::new(input);

    let t1 = lex.next().unwrap();
    assert_eq!(t1.lexeme(input), "100");

    lex.next().unwrap();

    let t2 = lex.next().unwrap();
    assert_eq!(t2.lexeme(input), "200");
}

#[test]
fn mod_tokenize_basic_math() {
    let input = "10 + 5";
    let mut lex = Lexer::new(input);

    let t1 = lex.next().unwrap();
    assert_eq!(t1.kind, TokenKind::Integer(10));
    assert_eq!(t1.line, 1);
    assert_eq!(t1.col, 1);
    assert_eq!(t1.start, 0);
    assert_eq!(t1.end, 2);

    let t2 = lex.next().unwrap();
    assert_eq!(t2.kind, TokenKind::Plus);

    let t3 = lex.next().unwrap();
    assert_eq!(t3.kind, TokenKind::Integer(5));

    let t4 = lex.next().unwrap();
    assert_eq!(t4.kind, TokenKind::Eof);

    let t5 = lex.next();
    assert_eq!(t5, None);
}

#[test]
fn mod_tokenize_newlines() {
    let input = " \n   +";
    let mut lex = Lexer::new(input);

    let t1 = lex.next().unwrap();
    assert_eq!(t1.kind, TokenKind::Plus);
    assert_eq!(t1.line, 2);
    assert_eq!(t1.col, 4);
}

#[test]
fn mod_tokenize_lexemes() {
    let input = "100 + 200";
    let mut lex = Lexer::new(input);

    let t1 = lex.next().unwrap();
    assert_eq!(t1.lexeme(input), "100");

    lex.next().unwrap();

    let t2 = lex.next().unwrap();
    assert_eq!(t2.lexeme(input), "200");
}

#[test]
fn tokenize_iterator() {
    let input = "100 + 200";
    let lex = Lexer::new(input);
    let tokens: Vec<Token> = lex.collect();

    let expected = vec![
        Token { kind: TokenKind::Integer(100), line: 1, col: 1, start: 0, end: 3 },
        Token { kind: TokenKind::Plus, line: 1, col: 5, start: 4, end: 5 },
        Token { kind: TokenKind::Integer(200), line: 1, col: 7, start: 6, end: 9 },
        Token { kind: TokenKind::Eof, line: 1, col: 10, start: 9, end: 9 },
    ];

    assert_eq!(tokens.len(), expected.len());

    for i in 0..tokens.len() {
        assert_eq!(tokens[i], expected[i]);
    }
}

#[test]
fn skip_comments() {
    let lex = Lexer::new("2 // 5 comment blah");
    let tokens: Vec<Token> = lex.collect();

    assert_eq!(tokens.len(), 2);
    assert_eq!(tokens[0].kind, TokenKind::Integer(2));
    assert_eq!(tokens[1].kind, TokenKind::Eof);
}

#[test]
fn tokenize_multi_char_operators() {
    let lex = Lexer::new("+= ++ + -- *= >> <= <");
    let tokens: Vec<Token> = lex.collect();

    assert_eq!(tokens[0].start, 0);
    assert_eq!(tokens[0].end, 2);

    assert_eq!(tokens[0].kind, TokenKind::PlusEqual);
    assert_eq!(tokens[1].kind, TokenKind::PlusPlus);
    assert_eq!(tokens[2].kind, TokenKind::Plus);
    assert_eq!(tokens[3].kind, TokenKind::MinusMinus);
    assert_eq!(tokens[4].kind, TokenKind::StarEqual);
    assert_eq!(tokens[5].kind, TokenKind::RightShift);
    assert_eq!(tokens[6].kind, TokenKind::Lte);
    assert_eq!(tokens[7].kind, TokenKind::Lt);
    assert_eq!(tokens[8].kind, TokenKind::Eof);
}

#[test]
fn tokenize_identifiers() {
    let lex = Lexer::new("hello hi5");
    let tokens: Vec<Token> = lex.collect();

    assert_eq!(tokens.len(), 3);
    assert_eq!(tokens[0].kind, TokenKind::Ident("hello".to_string()));
    assert_eq!(tokens[0].start, 0);
    assert_eq!(tokens[0].end, 5);

    assert_eq!(tokens[1].kind, TokenKind::Ident("hi5".to_string()));
    assert_eq!(tokens[1].start, 6);
    assert_eq!(tokens[1].end, 9);
}

#[test]
fn tokenize_keywords() {
    let lex = Lexer::new("if else return for while");
    let tokens: Vec<Token> = lex.collect();

    assert_eq!(tokens[0].kind, TokenKind::If);
    assert_eq!(tokens[1].kind, TokenKind::Else);
    assert_eq!(tokens[2].kind, TokenKind::Return);
    assert_eq!(tokens[3].kind, TokenKind::For);
    assert_eq!(tokens[4].kind, TokenKind::While);
    assert_eq!(tokens[5].kind, TokenKind::Eof);
}

// Hexadecimal literals, `%`, `->` and `::`.
#[test]
fn tokenize_hex_and_arrows() {
    let tokens: Vec<Token> = Lexer::new("0xFF 0x1A2B % -> ::").collect();
    assert_eq!(tokens[0].kind, TokenKind::Integer(255));
    assert_eq!(tokens[1].kind, TokenKind::Integer(6699));
    assert_eq!(tokens[2].kind, TokenKind::Percent);
    assert_eq!(tokens[3].kind, TokenKind::Arrow);
    assert_eq!(tokens[4].kind, TokenKind::ColonColon);
    assert_eq!(tokens[5].kind, TokenKind::Eof);
}

// The stream ends with exactly one `Eof`, after which there is nothing.
#[test]
fn eof_is_last_and_only_once() {
    let mut lex = Lexer::new("");
    let t = lex.next().unwrap();
    assert_eq!(t.kind, TokenKind::Eof);
    assert_eq!(t.start, 0);
    assert_eq!(t.end, 0);
    assert!(lex.next().is_none());
}

// Token spans are in source order and do not overlap.
#[test]
fn token_spans_ordered() {
    let tokens: Vec<Token> = Lexer::new("let x = (a + 10) * b;").collect();
    for i in 1..tokens.len() {
        assert!(tokens[i - 1].start <= tokens[i - 1].end);
        assert!(tokens[i - 1].end <= tokens[i].start);
    }
}

// Keyword type names: `int` and `i16` are the same type.
#[test]
fn type_keywords() {
    let tokens: Vec<Token> = Lexer::new("int i16 bool").collect();
    assert_eq!(tokens[0].kind, TokenKind::I16);
    assert_eq!(tokens[1].kind, TokenKind::I16);
    assert_eq!(tokens[2].kind, TokenKind::Bool);
}

// The arithmetic lexer turns unknown characters into `Illegal` tokens.
#[test]
fn arith_illegal_char() {
    let mut lex = arith_lexer::Lexer::new("1 $");
    assert_eq!(lex.next().unwrap().kind, arith_lexer::TokenKind::Integer(1));
    assert_eq!(lex.next().unwrap().kind, arith_lexer::TokenKind::Illegal('$'));
    assert_eq!(lex.next(), None);
}

// The debug text of a token kind names its variant.
#[test]
fn token_kind_debug_text() {
    assert_eq!(TokenKind::Plus.debug_text(), format!("{:?}", TokenKind::Plus));
    let id = TokenKind::Ident("abc".to_string());
    assert_eq!(id.debug_text(), format!("{:?}", id));
}

// Every token's byte span can be sliced out of the source, also after
// characters that take more than one byte.
#[test]
fn token_lexemes_after_multibyte_text() {
    let src = "// é ü\nlet x = 10;";
    let tokens: Vec<teeny::lexer::token::Token> = teeny::lexer::Lexer::new(src).collect();
    assert_eq!(tokens[0].lexeme(src), "let");
    assert_eq!(tokens[1].lexeme(src), "x");
    assert_eq!(tokens[3].lexeme(src), "10");
}
