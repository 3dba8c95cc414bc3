//! Diagnostics of the compiler and their texts.

use vstd::prelude::*;
use crate::lexer::token::{kind_debug, token_debug, Token, TokenKind};
use crate::parser::ast::{Span, Type};
use crate::text::{dec, push_decimal, string_of};

verus! {

/// A syntax error with its place in the source.
#[derive(Debug)]
pub struct ParseError {
    pub message: String,
    pub span: Span,
}

impl Clone for ParseError {
    fn clone(&self) -> (r: Self)
        ensures
            r == *self,
    {
        ParseError { message: self.message.clone(), span: self.span }
    }
}

impl ParseError {
    /// The text of the error as it is shown: `error: <message>`.
    pub fn describe(&self) -> (s: String)
        ensures
            s@ == "error: "@ + self.message@,
    {
        let mut s = string_of("error: ");
        s.append(self.message.as_str());
        s
    }
}

pub type ParseResult<T> = Result<T, ParseError>;

#[derive(Debug)]
pub enum TeenyCompilerErrorKind {
    ExpectedIdentifier(Token),
    ExpectedInteger(Token),
    ExpectedType(Token),
    ExpectedToken(Token, Token),
    UnexpectedToken(Token),
    SyntaxError,
    IdentNotDefined(String),
    InvalidFnScope,
    InvalidStructScope,
    TypeMismatch(Type, Type),
    CannotInferType,
    ParamCountMismatch(usize, usize),
}

impl Clone for TeenyCompilerErrorKind {
    fn clone(&self) -> (r: Self)
        ensures
            r == *self,
    {
        match self {
            TeenyCompilerErrorKind::ExpectedIdentifier(t) => TeenyCompilerErrorKind::ExpectedIdentifier(t.clone()),
            TeenyCompilerErrorKind::ExpectedInteger(t) => TeenyCompilerErrorKind::ExpectedInteger(t.clone()),
            TeenyCompilerErrorKind::ExpectedType(t) => TeenyCompilerErrorKind::ExpectedType(t.clone()),
            TeenyCompilerErrorKind::ExpectedToken(a, b) => TeenyCompilerErrorKind::ExpectedToken(a.clone(), b.clone()),
            TeenyCompilerErrorKind::UnexpectedToken(t) => TeenyCompilerErrorKind::UnexpectedToken(t.clone()),
            TeenyCompilerErrorKind::SyntaxError => TeenyCompilerErrorKind::SyntaxError,
            TeenyCompilerErrorKind::IdentNotDefined(n) => TeenyCompilerErrorKind::IdentNotDefined(n.clone()),
            TeenyCompilerErrorKind::InvalidFnScope => TeenyCompilerErrorKind::InvalidFnScope,
            TeenyCompilerErrorKind::InvalidStructScope => TeenyCompilerErrorKind::InvalidStructScope,
            TeenyCompilerErrorKind::TypeMismatch(a, b) => TeenyCompilerErrorKind::TypeMismatch(a.clone(), b.clone()),
            TeenyCompilerErrorKind::CannotInferType => TeenyCompilerErrorKind::CannotInferType,
            TeenyCompilerErrorKind::ParamCountMismatch(a, b) => TeenyCompilerErrorKind::ParamCountMismatch(*a, *b),
        }
    }
}

/// The debug form of a type, e.g. `I16`, `Pointer(Bool)` or `Array { ty: I16, size: 3 }`.
pub open spec fn type_debug(t: Type) -> Seq<char>
    decreases t,
{
    match t {
        Type::I16 => "I16"@,
        Type::Bool => "Bool"@,
        Type::Pointer(inner) => "Pointer("@ + type_debug(*inner) + ")"@,
        Type::Array { ty, size } => "Array { ty: "@ + type_debug(*ty) + ", size: "@ + dec(
            size as nat,
        ) + " }"@,
        Type::Struct(name) => "Struct(\""@ + name@ + "\")"@,
        Type::SelfType => "SelfType"@,
        Type::Void => "Void"@,
        Type::Error => "Error"@,
    }
}

/// Appends the debug form of a type (see [`type_debug`]).
pub fn push_type_debug(out: &mut String, t: &Type)
    ensures
        final(out)@ == old(out)@ + type_debug(*t),
    decreases t,
{
    let ghost start = out@;
    match t {
        Type::I16 => out.append("I16"),
        Type::Bool => out.append("Bool"),
        Type::Pointer(inner) => {
            out.append("Pointer(");
            push_type_debug(out, inner);
            out.append(")");
            assert(out@ =~= start + type_debug(*t));
        },
        Type::Array { ty, size } => {
            out.append("Array { ty: ");
            push_type_debug(out, ty);
            out.append(", size: ");
            push_decimal(out, *size as u64);
            out.append(" }");
            assert(out@ =~= start + type_debug(*t));
        },
        Type::Struct(name) => {
            out.append("Struct(\"");
            out.append(name.as_str());
            out.append("\")");
            assert(out@ =~= start + type_debug(*t));
        },
        Type::SelfType => out.append("SelfType"),
        Type::Void => out.append("Void"),
        Type::Error => out.append("Error"),
    }
}

/// The text of an error kind as it is shown.
pub open spec fn kind_message(k: TeenyCompilerErrorKind) -> Seq<char> {
    match k {
        TeenyCompilerErrorKind::ExpectedIdentifier(t) => "Expected identifier, got "@ + token_debug(t),
        TeenyCompilerErrorKind::ExpectedInteger(t) => "Expected integer, got "@ + token_debug(t),
        TeenyCompilerErrorKind::ExpectedType(t) => "Expected type, got "@ + token_debug(t),
        TeenyCompilerErrorKind::ExpectedToken(a, b) => "Expected token "@ + token_debug(a)
            + ", got "@ + token_debug(b),
        TeenyCompilerErrorKind::UnexpectedToken(t) => "Unexpected token "@ + token_debug(t),
        TeenyCompilerErrorKind::SyntaxError => "Syntax error"@,
        TeenyCompilerErrorKind::IdentNotDefined(name) => name@ + " is not defined"@,
        TeenyCompilerErrorKind::InvalidFnScope => "Functions can only be declared in the global scope"@,
        TeenyCompilerErrorKind::InvalidStructScope => "Structs can only be declared in the global scope"@,
        TeenyCompilerErrorKind::TypeMismatch(a, b) => "Type mismatch, expected "@ + type_debug(a)
            + " got "@ + type_debug(b),
        TeenyCompilerErrorKind::CannotInferType => "Unable to infer type"@,
        TeenyCompilerErrorKind::ParamCountMismatch(a, b) => "Incorrect number of parameters. Expected "@
            + dec(a as nat) + ", got "@ + dec(b as nat),
    }
}

impl TeenyCompilerErrorKind {
    /// The text of this kind as it is shown (see [`kind_message`]).
    pub fn describe(&self) -> (s: String)
        ensures
            s@ == kind_message(*self),
    {
        match self {
            TeenyCompilerErrorKind::ExpectedIdentifier(token) => {
                let mut s = string_of("Expected identifier, got ");
                s.append(token.debug_text().as_str());
                s
            },
            TeenyCompilerErrorKind::ExpectedInteger(token) => {
                let mut s = string_of("Expected integer, got ");
                s.append(token.debug_text().as_str());
                s
            },
            TeenyCompilerErrorKind::ExpectedType(token) => {
                let mut s = string_of("Expected type, got ");
                s.append(token.debug_text().as_str());
                s
            },
            TeenyCompilerErrorKind::ExpectedToken(expected, got) => {
                let mut s = string_of("Expected token ");
                s.append(expected.debug_text().as_str());
                s.append(", got ");
                s.append(got.debug_text().as_str());
                s
            },
            TeenyCompilerErrorKind::UnexpectedToken(token) => {
                let mut s = string_of("Unexpected token ");
                s.append(token.debug_text().as_str());
                s
            },
            TeenyCompilerErrorKind::SyntaxError => string_of("Syntax error"),
            TeenyCompilerErrorKind::IdentNotDefined(name) => {
                let mut s = string_of(name.as_str());
                s.append(" is not defined");
                s
            },
            TeenyCompilerErrorKind::InvalidFnScope => string_of(
                "Functions can only be declared in the global scope",
            ),
            TeenyCompilerErrorKind::InvalidStructScope => string_of(
                "Structs can only be declared in the global scope",
            ),
            TeenyCompilerErrorKind::TypeMismatch(a, b) => {
                let mut s = string_of("Type mismatch, expected ");
                push_type_debug(&mut s, a);
                s.append(" got ");
                push_type_debug(&mut s, b);
                s
            },
            TeenyCompilerErrorKind::CannotInferType => string_of("Unable to infer type"),
            TeenyCompilerErrorKind::ParamCountMismatch(a, b) => {
                let mut s = string_of("Incorrect number of parameters. Expected ");
                push_decimal(&mut s, *a as u64);
                s.append(", got ");
                push_decimal(&mut s, *b as u64);
                s
            },
        }
    }
}

/// A semantic error with its place in the source.
#[derive(Debug)]
pub struct TeenyCompilerError {
    pub span: Span,
    pub kind: TeenyCompilerErrorKind,
}

impl Clone for TeenyCompilerError {
    fn clone(&self) -> (r: Self)
        ensures
            r == *self,
    {
        TeenyCompilerError { span: self.span, kind: self.kind.clone() }
    }
}

impl TeenyCompilerError {
    /// The text of the error as it is shown: `Error: <kind's text>`.
    pub fn describe(&self) -> (s: String)
        ensures
            s@ == "Error: "@ + kind_message(self.kind),
    {
        let mut s = string_of("Error: ");
        s.append(self.kind.describe().as_str());
        s
    }
}

pub type TeenyResult<T> = Result<T, TeenyCompilerError>;

/// A copy of a list of errors.
pub fn clone_errors(errors: &Vec<TeenyCompilerError>) -> (r: Vec<TeenyCompilerError>)
    ensures
        r@ == errors@,
{
    let mut r: Vec<TeenyCompilerError> = Vec::new();
    let mut i: usize = 0;
    while i < errors.len()
        invariant
            0 <= i <= errors@.len(),
            r@ == errors@.subrange(0, i as int),
        decreases errors@.len() - i,
    {
        r.push(errors[i].clone());
        proof {
            assert(errors@.subrange(0, i + 1) =~= errors@.subrange(0, i as int).push(errors@[i as int]));
        }
        i += 1;
    }
    proof {
        assert(errors@.subrange(0, errors@.len() as int) =~= errors@);
    }
    r
}

} // verus!
