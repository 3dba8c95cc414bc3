//! A small lexer for arithmetic expressions: integers, `+ - * /` and parentheses.
//! Characters it does not know become `Illegal` tokens, and the stream simply
//! ends at the end of the input.

use vstd::prelude::*;
use crate::lexer::chars::{byte_offset, chars_of, col_at, is_digit, is_ws, is_whitespace, len_utf8, lemma_position_bounds, line_at};
use vstd::string::StringSliceAdditionalSpecFns;
use vstd::utf8::is_char_boundary;
use crate::lexer::scan::{digits_value, integer, lemma_run_end, run_end, run_end_at, value_fits};

verus! {

#[derive(Debug, Clone, Copy, PartialEq, Eq, Structural)]
pub enum TokenKind {
    LeftParen,
    RightParen,
    Minus,
    Plus,
    Star,
    Slash,
    Integer(u16),
    Illegal(char),
    EOF,
}

#[derive(Debug, Clone, PartialEq, Eq, Structural)]
pub struct Token {
    pub kind: TokenKind,
    pub line: usize,
    pub col: usize,
    pub start: usize,
    pub end: usize,
}

impl Token {
    /// Extracts the raw text for the token from the input string
    pub fn lexeme<'a>(&self, source: &'a str) -> (r: &'a str)
        requires
            self.start <= self.end <= source.spec_bytes().len(),
            is_char_boundary(source.spec_bytes(), self.start as int),
            is_char_boundary(source.spec_bytes(), self.end as int),
        ensures
            r.spec_bytes() == source.spec_bytes().subrange(self.start as int, self.end as int),
    {
        crate::lexer::token::str_slice(source, self.start, self.end)
    }
}

/// The first position at or after `i` that is not whitespace.
pub open spec fn ws_end(s: Seq<char>, i: int) -> int
    decreases s.len() - i,
{
    if 0 <= i < s.len() && is_ws(s[i]) {
        ws_end(s, i + 1)
    } else {
        i
    }
}

pub proof fn lemma_ws_end(s: Seq<char>, i: int)
    requires
        0 <= i <= s.len(),
    ensures
        i <= ws_end(s, i) <= s.len(),
    decreases s.len() - i,
{
    if i < s.len() && is_ws(s[i]) {
        lemma_ws_end(s, i + 1);
    }
}

/// The token at position `i` (after whitespace) and where it ends; `None` when
/// an integer literal there does not fit in 16 bits.
pub open spec fn arith_scan(s: Seq<char>, i: int) -> Option<(TokenKind, int)> {
    if i >= s.len() {
        Some((TokenKind::EOF, i))
    } else {
        let c = s[i];
        if c == '+' {
            Some((TokenKind::Plus, i + 1))
        } else if c == '-' {
            Some((TokenKind::Minus, i + 1))
        } else if c == '*' {
            Some((TokenKind::Star, i + 1))
        } else if c == '/' {
            Some((TokenKind::Slash, i + 1))
        } else if c == '(' {
            Some((TokenKind::LeftParen, i + 1))
        } else if c == ')' {
            Some((TokenKind::RightParen, i + 1))
        } else if is_digit(c) {
            let e = run_end(s, i, 0);
            let v = digits_value(s, i, e, 10);
            if v > 0xffff {
                None
            } else {
                Some((TokenKind::Integer(v as u16), e))
            }
        } else {
            Some((TokenKind::Illegal(c), i + 1))
        }
    }
}

/// The token read from position `i` of `s`, with its position.
pub open spec fn arith_token_from(s: Seq<char>, i: int) -> Option<Token> {
    let j = ws_end(s, i);
    match arith_scan(s, j) {
        Some((k, e)) => Some(
            Token {
                kind: k,
                line: line_at(s, j) as usize,
                col: col_at(s, j) as usize,
                start: byte_offset(s, j) as usize,
                end: byte_offset(s, e) as usize,
            },
        ),
        None => None,
    }
}

/// The position after the token read from `i`.
pub open spec fn arith_token_end(s: Seq<char>, i: int) -> int {
    match arith_scan(s, ws_end(s, i)) {
        Some((_, e)) => e,
        None => i,
    }
}

pub struct Lexer<'a> {
    source: &'a str,
    chars: Vec<char>,
    // used for error messages
    line: usize,
    col: usize,
    pos: usize,
    idx: usize,
}

impl<'a> Lexer<'a> {
    /// The characters of the source.
    pub closed spec fn text(&self) -> Seq<char> {
        self.chars@
    }

    /// The number of characters read so far.
    pub closed spec fn index(&self) -> int {
        self.idx as int
    }

    pub closed spec fn wf(&self) -> bool {
        &&& self.chars@ == self.source@
        &&& self.idx <= self.chars@.len()
        &&& 4 * self.chars@.len() + 8 <= usize::MAX
        &&& self.line == line_at(self.chars@, self.idx as int)
        &&& self.col == col_at(self.chars@, self.idx as int)
        &&& self.pos == byte_offset(self.chars@, self.idx as int)
    }

    pub fn new(source: &'a str) -> (lex: Self)
        requires
            4 * source@.len() + 8 <= usize::MAX,
        ensures
            lex.wf(),
            lex.text() == source@,
            lex.index() == 0,
    {
        let chars = chars_of(source);
        Self { source, chars, line: 1, col: 1, pos: 0, idx: 0 }
    }

    /// Consumes one character of input and updates the tracked positions
    fn advance(&mut self) -> (r: Option<char>)
        requires
            old(self).wf(),
        ensures
            final(self).wf(),
            final(self).text() == old(self).text(),
            old(self).idx < old(self).chars@.len() ==> r == Some(old(self).chars@[old(self).idx as int])
                && final(self).idx == old(self).idx + 1,
            old(self).idx >= old(self).chars@.len() ==> r is None && final(self).idx == old(self).idx,
    {
        if self.idx < self.chars.len() {
            let c = self.chars[self.idx];
            proof {
                lemma_position_bounds(self.chars@, self.idx as int);
            }
            self.idx += 1;
            self.pos += len_utf8(c);
            if c == '\n' {
                self.line += 1;
                self.col = 1;
            } else {
                self.col += 1;
            }
            Some(c)
        } else {
            None
        }
    }

    /// Eats all whitespace
    fn eat_whitespace(&mut self)
        requires
            old(self).wf(),
        ensures
            final(self).wf(),
            final(self).text() == old(self).text(),
            final(self).index() == ws_end(old(self).text(), old(self).index()),
    {
        while self.idx < self.chars.len() && is_whitespace(self.chars[self.idx])
            invariant
                self.wf(),
                self.text() == old(self).text(),
                ws_end(self.text(), self.index()) == ws_end(old(self).text(), old(self).index()),
            decreases self.chars@.len() - self.idx,
        {
            self.advance();
        }
    }

    /// Reads a full non-negative integer from the stream
    fn read_integer(&mut self) -> (v: u16)
        requires
            old(self).wf(),
            old(self).idx < old(self).chars@.len(),
            digits_value(
                old(self).chars@,
                old(self).idx as int,
                run_end(old(self).chars@, old(self).idx as int, 0),
                10,
            ) <= 0xffff,
        ensures
            final(self).wf(),
            final(self).text() == old(self).text(),
            final(self).index() == run_end(old(self).text(), old(self).index(), 0),
            v as nat == digits_value(
                old(self).chars@,
                old(self).idx as int,
                run_end(old(self).chars@, old(self).idx as int, 0),
                10,
            ),
    {
        let start = self.idx;
        let e = run_end_at(&self.chars, start, 0);
        proof {
            lemma_run_end(self.chars@, start as int, 0);
        }
        let v = integer(&self.chars, start, e, 10);
        while self.idx < e
            invariant
                self.wf(),
                self.text() == old(self).text(),
                self.idx <= e <= self.chars@.len(),
            decreases e - self.idx,
        {
            self.advance();
        }
        v
    }

    /// Tokenizes the next complete token
    fn next_token(&mut self) -> (t: Token)
        requires
            old(self).wf(),
            arith_token_from(old(self).text(), old(self).index()) is Some,
        ensures
            final(self).wf(),
            final(self).text() == old(self).text(),
            Some(t) == arith_token_from(old(self).text(), old(self).index()),
            final(self).index() == arith_token_end(old(self).text(), old(self).index()),
    {
        self.eat_whitespace();
        proof {
            lemma_ws_end(self.chars@, old(self).idx as int);
        }
        let start_pos = self.pos;
        let start_line = self.line;
        let start_col = self.col;
        let kind = if self.idx < self.chars.len() {
            let ch = self.chars[self.idx];
            if ch == '+' {
                self.advance();
                TokenKind::Plus
            } else if ch == '-' {
                self.advance();
                TokenKind::Minus
            } else if ch == '*' {
                self.advance();
                TokenKind::Star
            } else if ch == '/' {
                self.advance();
                TokenKind::Slash
            } else if ch == '(' {
                self.advance();
                TokenKind::LeftParen
            } else if ch == ')' {
                self.advance();
                TokenKind::RightParen
            } else if '0' <= ch && ch <= '9' {
                proof {
                    lemma_run_end(self.chars@, self.idx as int, 0);
                }
                TokenKind::Integer(self.read_integer())
            } else {
                self.advance();
                TokenKind::Illegal(ch)
            }
        } else {
            TokenKind::EOF
        };
        Token { kind, line: start_line, col: start_col, start: start_pos, end: self.pos }
    }

    /// The next token, or nothing at the end of the input.
    pub fn next(&mut self) -> (r: Option<Token>)
        requires
            old(self).wf(),
            arith_token_from(old(self).text(), old(self).index()) is Some,
        ensures
            final(self).wf(),
            final(self).text() == old(self).text(),
            final(self).index() == arith_token_end(old(self).text(), old(self).index()),
            match arith_token_from(old(self).text(), old(self).index()) {
                Some(t) => if t.kind is EOF {
                    r is None
                } else {
                    r == Some(t)
                },
                None => false,
            },
    {
        let t = self.next_token();
        match t.kind {
            TokenKind::EOF => None,
            _ => Some(t),
        }
    }
}

} // verus!
