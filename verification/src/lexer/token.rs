//! The tokens produced by the lexer.

use vstd::prelude::*;
use vstd::std_specs::cmp::PartialEqSpecImpl;
use crate::text::{dec, push_decimal, string_of};
use vstd::string::StringSliceAdditionalSpecFns;
use vstd::utf8::{encode_utf8_valid_utf8, is_char_boundary, length_of_first_scalar, pop_first_scalar, valid_utf8};

verus! {

/// The kind of a token, with the value of literals and the name of identifiers.
#[derive(Debug)]
pub enum TokenKind {
    LeftParen,
    RightParen,
    LeftBrace,
    RightBrace,
    LeftBracket,
    RightBracket,
    Minus,
    Plus,
    Star,
    Slash,
    Bang,
    Percent,
    BitAnd,
    BitXor,
    BitOr,
    BitNot,
    RightShift,
    LeftShift,
    Equality,
    PlusEqual,
    MinusEqual,
    StarEqual,
    SlashEqual,
    BangEqual,
    PercentEqual,
    And,
    Or,
    PlusPlus,
    MinusMinus,
    Gt,
    Gte,
    Lt,
    Lte,
    Equal,
    Semi,
    Comma,
    Dot,
    Colon,
    ColonColon,
    Arrow,
    Integer(u16),
    Fn,
    Let,
    Const,
    Return,
    If,
    Else,
    While,
    For,
    Repeat,
    Struct,
    True,
    False,
    Ident(String),
    Bool,
    I16,
    Eof,
}

/// A number that identifies the variant of a token kind.
pub open spec fn kind_tag(k: TokenKind) -> nat {
    match k {
        TokenKind::LeftParen => 0nat,
        TokenKind::RightParen => 1nat,
        TokenKind::LeftBrace => 2nat,
        TokenKind::RightBrace => 3nat,
        TokenKind::LeftBracket => 4nat,
        TokenKind::RightBracket => 5nat,
        TokenKind::Minus => 6nat,
        TokenKind::Plus => 7nat,
        TokenKind::Star => 8nat,
        TokenKind::Slash => 9nat,
        TokenKind::Bang => 10nat,
        TokenKind::Percent => 11nat,
        TokenKind::BitAnd => 12nat,
        TokenKind::BitXor => 13nat,
        TokenKind::BitOr => 14nat,
        TokenKind::BitNot => 15nat,
        TokenKind::RightShift => 16nat,
        TokenKind::LeftShift => 17nat,
        TokenKind::Equality => 18nat,
        TokenKind::PlusEqual => 19nat,
        TokenKind::MinusEqual => 20nat,
        TokenKind::StarEqual => 21nat,
        TokenKind::SlashEqual => 22nat,
        TokenKind::BangEqual => 23nat,
        TokenKind::PercentEqual => 24nat,
        TokenKind::And => 25nat,
        TokenKind::Or => 26nat,
        TokenKind::PlusPlus => 27nat,
        TokenKind::MinusMinus => 28nat,
        TokenKind::Gt => 29nat,
        TokenKind::Gte => 30nat,
        TokenKind::Lt => 31nat,
        TokenKind::Lte => 32nat,
        TokenKind::Equal => 33nat,
        TokenKind::Semi => 34nat,
        TokenKind::Comma => 35nat,
        TokenKind::Dot => 36nat,
        TokenKind::Colon => 37nat,
        TokenKind::ColonColon => 38nat,
        TokenKind::Arrow => 39nat,
        TokenKind::Integer(_) => 40nat,
        TokenKind::Fn => 41nat,
        TokenKind::Let => 42nat,
        TokenKind::Const => 43nat,
        TokenKind::Return => 44nat,
        TokenKind::If => 45nat,
        TokenKind::Else => 46nat,
        TokenKind::While => 47nat,
        TokenKind::For => 48nat,
        TokenKind::Repeat => 49nat,
        TokenKind::Struct => 50nat,
        TokenKind::True => 51nat,
        TokenKind::False => 52nat,
        TokenKind::Ident(_) => 53nat,
        TokenKind::Bool => 54nat,
        TokenKind::I16 => 55nat,
        TokenKind::Eof => 56nat,
    }
}

/// Two token kinds are the same when they are the same variant and carry the
/// same value or the same identifier text.
pub open spec fn kind_eq(a: TokenKind, b: TokenKind) -> bool {
    match a {
        TokenKind::Ident(x) => match b {
            TokenKind::Ident(y) => x@ == y@,
            _ => false,
        },
        _ => a == b,
    }
}

/// The name of a variant, as its derived debug form prints it.
pub open spec fn kind_name(k: TokenKind) -> Seq<char> {
    match k {
        TokenKind::LeftParen => "LeftParen"@,
        TokenKind::RightParen => "RightParen"@,
        TokenKind::LeftBrace => "LeftBrace"@,
        TokenKind::RightBrace => "RightBrace"@,
        TokenKind::LeftBracket => "LeftBracket"@,
        TokenKind::RightBracket => "RightBracket"@,
        TokenKind::Minus => "Minus"@,
        TokenKind::Plus => "Plus"@,
        TokenKind::Star => "Star"@,
        TokenKind::Slash => "Slash"@,
        TokenKind::Bang => "Bang"@,
        TokenKind::Percent => "Percent"@,
        TokenKind::BitAnd => "BitAnd"@,
        TokenKind::BitXor => "BitXor"@,
        TokenKind::BitOr => "BitOr"@,
        TokenKind::BitNot => "BitNot"@,
        TokenKind::RightShift => "RightShift"@,
        TokenKind::LeftShift => "LeftShift"@,
        TokenKind::Equality => "Equality"@,
        TokenKind::PlusEqual => "PlusEqual"@,
        TokenKind::MinusEqual => "MinusEqual"@,
        TokenKind::StarEqual => "StarEqual"@,
        TokenKind::SlashEqual => "SlashEqual"@,
        TokenKind::BangEqual => "BangEqual"@,
        TokenKind::PercentEqual => "PercentEqual"@,
        TokenKind::And => "And"@,
        TokenKind::Or => "Or"@,
        TokenKind::PlusPlus => "PlusPlus"@,
        TokenKind::MinusMinus => "MinusMinus"@,
        TokenKind::Gt => "Gt"@,
        TokenKind::Gte => "Gte"@,
        TokenKind::Lt => "Lt"@,
        TokenKind::Lte => "Lte"@,
        TokenKind::Equal => "Equal"@,
        TokenKind::Semi => "Semi"@,
        TokenKind::Comma => "Comma"@,
        TokenKind::Dot => "Dot"@,
        TokenKind::Colon => "Colon"@,
        TokenKind::ColonColon => "ColonColon"@,
        TokenKind::Arrow => "Arrow"@,
        TokenKind::Integer(_) => "Integer"@,
        TokenKind::Fn => "Fn"@,
        TokenKind::Let => "Let"@,
        TokenKind::Const => "Const"@,
        TokenKind::Return => "Return"@,
        TokenKind::If => "If"@,
        TokenKind::Else => "Else"@,
        TokenKind::While => "While"@,
        TokenKind::For => "For"@,
        TokenKind::Repeat => "Repeat"@,
        TokenKind::Struct => "Struct"@,
        TokenKind::True => "True"@,
        TokenKind::False => "False"@,
        TokenKind::Ident(_) => "Ident"@,
        TokenKind::Bool => "Bool"@,
        TokenKind::I16 => "I16"@,
        TokenKind::Eof => "Eof"@,
    }
}

/// The debug form of a token kind, e.g. `Plus`, `Integer(5)` or `Ident("x")`.
pub open spec fn kind_debug(k: TokenKind) -> Seq<char> {
    match k {
        TokenKind::Integer(v) => "Integer("@ + dec(v as nat) + ")"@,
        TokenKind::Ident(name) => "Ident(\""@ + name@ + "\")"@,
        _ => kind_name(k),
    }
}

impl TokenKind {
    /// The variant number of this kind.
    pub fn tag(&self) -> (t: u8)
        ensures
            t as nat == kind_tag(*self),
    {
        match self {
            TokenKind::LeftParen => 0,
            TokenKind::RightParen => 1,
            TokenKind::LeftBrace => 2,
            TokenKind::RightBrace => 3,
            TokenKind::LeftBracket => 4,
            TokenKind::RightBracket => 5,
            TokenKind::Minus => 6,
            TokenKind::Plus => 7,
            TokenKind::Star => 8,
            TokenKind::Slash => 9,
            TokenKind::Bang => 10,
            TokenKind::Percent => 11,
            TokenKind::BitAnd => 12,
            TokenKind::BitXor => 13,
            TokenKind::BitOr => 14,
            TokenKind::BitNot => 15,
            TokenKind::RightShift => 16,
            TokenKind::LeftShift => 17,
            TokenKind::Equality => 18,
            TokenKind::PlusEqual => 19,
            TokenKind::MinusEqual => 20,
            TokenKind::StarEqual => 21,
            TokenKind::SlashEqual => 22,
            TokenKind::BangEqual => 23,
            TokenKind::PercentEqual => 24,
            TokenKind::And => 25,
            TokenKind::Or => 26,
            TokenKind::PlusPlus => 27,
            TokenKind::MinusMinus => 28,
            TokenKind::Gt => 29,
            TokenKind::Gte => 30,
            TokenKind::Lt => 31,
            TokenKind::Lte => 32,
            TokenKind::Equal => 33,
            TokenKind::Semi => 34,
            TokenKind::Comma => 35,
            TokenKind::Dot => 36,
            TokenKind::Colon => 37,
            TokenKind::ColonColon => 38,
            TokenKind::Arrow => 39,
            TokenKind::Integer(_) => 40,
            TokenKind::Fn => 41,
            TokenKind::Let => 42,
            TokenKind::Const => 43,
            TokenKind::Return => 44,
            TokenKind::If => 45,
            TokenKind::Else => 46,
            TokenKind::While => 47,
            TokenKind::For => 48,
            TokenKind::Repeat => 49,
            TokenKind::Struct => 50,
            TokenKind::True => 51,
            TokenKind::False => 52,
            TokenKind::Ident(_) => 53,
            TokenKind::Bool => 54,
            TokenKind::I16 => 55,
            TokenKind::Eof => 56,
        }
    }

    /// The name of this kind's variant.
    pub fn name(&self) -> (s: &'static str)
        ensures
            s@ == kind_name(*self),
    {
        match self {
            TokenKind::LeftParen => "LeftParen",
            TokenKind::RightParen => "RightParen",
            TokenKind::LeftBrace => "LeftBrace",
            TokenKind::RightBrace => "RightBrace",
            TokenKind::LeftBracket => "LeftBracket",
            TokenKind::RightBracket => "RightBracket",
            TokenKind::Minus => "Minus",
            TokenKind::Plus => "Plus",
            TokenKind::Star => "Star",
            TokenKind::Slash => "Slash",
            TokenKind::Bang => "Bang",
            TokenKind::Percent => "Percent",
            TokenKind::BitAnd => "BitAnd",
            TokenKind::BitXor => "BitXor",
            TokenKind::BitOr => "BitOr",
            TokenKind::BitNot => "BitNot",
            TokenKind::RightShift => "RightShift",
            TokenKind::LeftShift => "LeftShift",
            TokenKind::Equality => "Equality",
            TokenKind::PlusEqual => "PlusEqual",
            TokenKind::MinusEqual => "MinusEqual",
            TokenKind::StarEqual => "StarEqual",
            TokenKind::SlashEqual => "SlashEqual",
            TokenKind::BangEqual => "BangEqual",
            TokenKind::PercentEqual => "PercentEqual",
            TokenKind::And => "And",
            TokenKind::Or => "Or",
            TokenKind::PlusPlus => "PlusPlus",
            TokenKind::MinusMinus => "MinusMinus",
            TokenKind::Gt => "Gt",
            TokenKind::Gte => "Gte",
            TokenKind::Lt => "Lt",
            TokenKind::Lte => "Lte",
            TokenKind::Equal => "Equal",
            TokenKind::Semi => "Semi",
            TokenKind::Comma => "Comma",
            TokenKind::Dot => "Dot",
            TokenKind::Colon => "Colon",
            TokenKind::ColonColon => "ColonColon",
            TokenKind::Arrow => "Arrow",
            TokenKind::Integer(_) => "Integer",
            TokenKind::Fn => "Fn",
            TokenKind::Let => "Let",
            TokenKind::Const => "Const",
            TokenKind::Return => "Return",
            TokenKind::If => "If",
            TokenKind::Else => "Else",
            TokenKind::While => "While",
            TokenKind::For => "For",
            TokenKind::Repeat => "Repeat",
            TokenKind::Struct => "Struct",
            TokenKind::True => "True",
            TokenKind::False => "False",
            TokenKind::Ident(_) => "Ident",
            TokenKind::Bool => "Bool",
            TokenKind::I16 => "I16",
            TokenKind::Eof => "Eof",
        }
    }

    /// The debug form of this kind (see [`kind_debug`]).
    pub fn debug_text(&self) -> (s: String)
        ensures
            s@ == kind_debug(*self),
    {
        match self {
            TokenKind::Integer(v) => {
                let mut s = string_of("Integer(");
                push_decimal(&mut s, *v as u64);
                s.append(")");
                s
            },
            TokenKind::Ident(name) => {
                let mut s = string_of("Ident(\"");
                s.append(name.as_str());
                s.append("\")");
                s
            },
            _ => string_of(self.name()),
        }
    }
}

/// Variants without data are equal exactly when their numbers are.
pub proof fn lemma_kind_tag_determines(a: TokenKind, b: TokenKind)
    requires
        kind_tag(a) == kind_tag(b),
        !(a is Integer),
        !(a is Ident),
    ensures
        a == b,
{
}

impl PartialEq for TokenKind {
    fn eq(&self, other: &Self) -> (r: bool) {
        match self {
            TokenKind::Ident(x) => match other {
                TokenKind::Ident(y) => *x == *y,
                _ => false,
            },
            TokenKind::Integer(x) => match other {
                TokenKind::Integer(y) => *x == *y,
                _ => false,
            },
            _ => {
                let same = self.tag() == other.tag();
                proof {
                    if same {
                        lemma_kind_tag_determines(*self, *other);
                    }
                }
                same
            },
        }
    }
}

impl PartialEqSpecImpl for TokenKind {
    open spec fn obeys_eq_spec() -> bool {
        true
    }

    open spec fn eq_spec(&self, other: &Self) -> bool {
        kind_eq(*self, *other)
    }
}

impl Clone for TokenKind {
    fn clone(&self) -> (r: Self)
        ensures
            r == *self,
    {
        match self {
            TokenKind::Ident(name) => TokenKind::Ident(name.clone()),
            TokenKind::LeftParen => TokenKind::LeftParen,
            TokenKind::RightParen => TokenKind::RightParen,
            TokenKind::LeftBrace => TokenKind::LeftBrace,
            TokenKind::RightBrace => TokenKind::RightBrace,
            TokenKind::LeftBracket => TokenKind::LeftBracket,
            TokenKind::RightBracket => TokenKind::RightBracket,
            TokenKind::Minus => TokenKind::Minus,
            TokenKind::Plus => TokenKind::Plus,
            TokenKind::Star => TokenKind::Star,
            TokenKind::Slash => TokenKind::Slash,
            TokenKind::Bang => TokenKind::Bang,
            TokenKind::Percent => TokenKind::Percent,
            TokenKind::BitAnd => TokenKind::BitAnd,
            TokenKind::BitXor => TokenKind::BitXor,
            TokenKind::BitOr => TokenKind::BitOr,
            TokenKind::BitNot => TokenKind::BitNot,
            TokenKind::RightShift => TokenKind::RightShift,
            TokenKind::LeftShift => TokenKind::LeftShift,
            TokenKind::Equality => TokenKind::Equality,
            TokenKind::PlusEqual => TokenKind::PlusEqual,
            TokenKind::MinusEqual => TokenKind::MinusEqual,
            TokenKind::StarEqual => TokenKind::StarEqual,
            TokenKind::SlashEqual => TokenKind::SlashEqual,
            TokenKind::BangEqual => TokenKind::BangEqual,
            TokenKind::PercentEqual => TokenKind::PercentEqual,
            TokenKind::And => TokenKind::And,
            TokenKind::Or => TokenKind::Or,
            TokenKind::PlusPlus => TokenKind::PlusPlus,
            TokenKind::MinusMinus => TokenKind::MinusMinus,
            TokenKind::Gt => TokenKind::Gt,
            TokenKind::Gte => TokenKind::Gte,
            TokenKind::Lt => TokenKind::Lt,
            TokenKind::Lte => TokenKind::Lte,
            TokenKind::Equal => TokenKind::Equal,
            TokenKind::Semi => TokenKind::Semi,
            TokenKind::Comma => TokenKind::Comma,
            TokenKind::Dot => TokenKind::Dot,
            TokenKind::Colon => TokenKind::Colon,
            TokenKind::ColonColon => TokenKind::ColonColon,
            TokenKind::Arrow => TokenKind::Arrow,
            TokenKind::Integer(v) => TokenKind::Integer(*v),
            TokenKind::Fn => TokenKind::Fn,
            TokenKind::Let => TokenKind::Let,
            TokenKind::Const => TokenKind::Const,
            TokenKind::Return => TokenKind::Return,
            TokenKind::If => TokenKind::If,
            TokenKind::Else => TokenKind::Else,
            TokenKind::While => TokenKind::While,
            TokenKind::For => TokenKind::For,
            TokenKind::Repeat => TokenKind::Repeat,
            TokenKind::Struct => TokenKind::Struct,
            TokenKind::True => TokenKind::True,
            TokenKind::False => TokenKind::False,
            TokenKind::Bool => TokenKind::Bool,
            TokenKind::I16 => TokenKind::I16,
            TokenKind::Eof => TokenKind::Eof,
        }
    }
}

/// A token with its position in the source: `line` and `col` count from 1,
/// `start` and `end` are byte offsets (`end` is exclusive).
#[derive(Debug)]
pub struct Token {
    pub kind: TokenKind,
    pub line: usize,
    pub col: usize,
    pub start: usize,
    pub end: usize,
}

/// Two tokens are the same when their kinds are and their positions agree.
pub open spec fn token_eq(a: Token, b: Token) -> bool {
    &&& kind_eq(a.kind, b.kind)
    &&& a.line == b.line
    &&& a.col == b.col
    &&& a.start == b.start
    &&& a.end == b.end
}

/// The debug form of a token, e.g. `Token { kind: Plus, line: 1, col: 3, start: 2, end: 3 }`.
pub open spec fn token_debug(t: Token) -> Seq<char> {
    "Token { kind: "@ + kind_debug(t.kind) + ", line: "@ + dec(t.line as nat) + ", col: "@
        + dec(t.col as nat) + ", start: "@ + dec(t.start as nat) + ", end: "@ + dec(
        t.end as nat,
    ) + " }"@
}

/// A character boundary at or after another one is a character boundary of
/// the bytes from that other one on.
proof fn lemma_boundary_in_suffix(b: Seq<u8>, s: int, e: int)
    requires
        valid_utf8(b),
        is_char_boundary(b, s),
        is_char_boundary(b, e),
        0 <= s <= e,
    ensures
        valid_utf8(b.subrange(s, b.len() as int)),
        is_char_boundary(b.subrange(s, b.len() as int), e - s),
    decreases b.len(),
{
    if s == 0 {
        assert(b.subrange(0, b.len() as int) =~= b);
    } else {
        let n = length_of_first_scalar(b);
        let t = pop_first_scalar(b);
        assert(n <= b.len());
        assert(valid_utf8(t));
        assert(is_char_boundary(t, s - n));
        assert(is_char_boundary(t, e - n));
        lemma_boundary_in_suffix(t, s - n, e - n);
        assert(t.subrange(s - n, t.len() as int) =~= b.subrange(s, b.len() as int));
    }
}

/// `&source[start..end]`: the part of `source` between two byte offsets,
/// split off at both ends.
pub(crate) fn str_slice<'a>(source: &'a str, start: usize, end: usize) -> (r: &'a str)
    requires
        start <= end <= source.spec_bytes().len(),
        is_char_boundary(source.spec_bytes(), start as int),
        is_char_boundary(source.spec_bytes(), end as int),
    ensures
        r.spec_bytes() == source.spec_bytes().subrange(start as int, end as int),
{
    proof {
        encode_utf8_valid_utf8(source@);
        lemma_boundary_in_suffix(source.spec_bytes(), start as int, end as int);
    }
    let (_, rest) = source.split_at(start);
    let (mid, _) = rest.split_at(end - start);
    proof {
        assert(mid.spec_bytes() =~= source.spec_bytes().subrange(start as int, end as int));
    }
    mid
}

impl Token {
    /// Extract the raw text for the token from the input string
    pub fn lexeme<'a>(&self, source: &'a str) -> (r: &'a str)
        requires
            self.start <= self.end <= source.spec_bytes().len(),
            is_char_boundary(source.spec_bytes(), self.start as int),
            is_char_boundary(source.spec_bytes(), self.end as int),
        ensures
            r.spec_bytes() == source.spec_bytes().subrange(self.start as int, self.end as int),
    {
        str_slice(source, self.start, self.end)
    }

    /// The debug form of this token (see [`token_debug`]).
    pub fn debug_text(&self) -> (s: String)
        ensures
            s@ == token_debug(*self),
    {
        let mut s = string_of("Token { kind: ");
        let k = self.kind.debug_text();
        s.append(k.as_str());
        s.append(", line: ");
        push_decimal(&mut s, self.line as u64);
        s.append(", col: ");
        push_decimal(&mut s, self.col as u64);
        s.append(", start: ");
        push_decimal(&mut s, self.start as u64);
        s.append(", end: ");
        push_decimal(&mut s, self.end as u64);
        s.append(" }");
        proof {
            assert(s@ =~= token_debug(*self));
        }
        s
    }
}

impl PartialEq for Token {
    fn eq(&self, other: &Self) -> (r: bool) {
        self.kind == other.kind && self.line == other.line && self.col == other.col && self.start
            == other.start && self.end == other.end
    }
}

impl PartialEqSpecImpl for Token {
    open spec fn obeys_eq_spec() -> bool {
        true
    }

    open spec fn eq_spec(&self, other: &Self) -> bool {
        token_eq(*self, *other)
    }
}

impl Clone for Token {
    fn clone(&self) -> (r: Self)
        ensures
            r == *self,
    {
        Token {
            kind: self.kind.clone(),
            line: self.line,
            col: self.col,
            start: self.start,
            end: self.end,
        }
    }
}

} // verus!
