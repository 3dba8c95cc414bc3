//! The parser of the Teeny language: recursive descent for statements and
//! precedence climbing for expressions.

pub mod ast;
pub mod debug;
pub mod grammar;
pub mod precedence;

use vstd::prelude::*;
use crate::error::{ParseError, ParseResult};
use crate::lexer::token::{kind_debug, kind_eq, token_debug, Token, TokenKind};
use crate::parser::ast::{clone_expr, expr_wf, is_assignable, is_binary_op, is_unary_op, kind_wf, stmt_kind_wf, stmt_wf, Expr, ExprKind, NodeId, Span, Spanned, Stmt, StmtKind, Type};
use crate::parser::precedence::{level, precedence_of, Precedence};
use crate::parser::grammar::{
    advance, at, consume, consume_ident, consume_integer, ev, evs, EKind, EView, PErr, fresh, fvs, lift, lift_expr, lift_exprs, lift_fields,
    lemma_ek_array, lemma_ek_call, lemma_ek_struct_init, lemma_sv_block, lemma_sv_struct, lift_stmt, p_block, p_expr,
    p_expr_list, p_expr_rest, p_expr_stmt, p_fn, p_fn_rest, p_struct_rest, p_if, p_members, p_params, p_program, p_return, p_stmt, p_stmts,
    p_struct, p_var_decl, p_while, perr, perrs, pvs, sv, svs, sync, SView, p_fields, p_infix, p_list_close, p_list_items, p_prefix, p_type, PState,
};
use crate::text::string_of;
use crate::parser::debug::expr_debug;

verus! {

/// Whether an end marker stands at or after position `i`.
pub open spec fn eof_from(toks: Seq<Token>, i: int) -> bool {
    exists|e: int| i <= e < toks.len() && (#[trigger] toks[e]).kind is Eof
}

/// The span of a token.
pub open spec fn token_span(t: Token) -> Span {
    Span { start: t.start, end: t.end }
}

/// The tokens that start a statement, where error recovery resumes.
pub open spec fn starts_statement(k: TokenKind) -> bool {
    k is Fn || k is Struct || k is Let || k is Const || k is If || k is While || k is Return
}

/// The position where error recovery stops, searching from `i`: the end marker,
/// a position right after a `;`, or a token that starts a statement.
pub open spec fn sync_from(toks: Seq<Token>, i: int) -> int
    decreases toks.len() - i,
{
    if i <= 0 || i >= toks.len() || toks[i].kind is Eof || toks[i - 1].kind is Semi
        || starts_statement(toks[i].kind) {
        i
    } else {
        sync_from(toks, i + 1)
    }
}

/// Recovery never moves back.
pub proof fn lemma_sync_from(toks: Seq<Token>, i: int)
    ensures
        sync_from(toks, i) >= i,
    decreases toks.len() - i,
{
    if !(i <= 0 || i >= toks.len() || toks[i].kind is Eof || toks[i - 1].kind is Semi
        || starts_statement(toks[i].kind)) {
        lemma_sync_from(toks, i + 1);
    }
}

/// The operator that a compound assignment applies (`+=` applies `+`).
pub open spec fn compound_op(k: TokenKind) -> Option<TokenKind> {
    match k {
        TokenKind::PlusEqual => Some(TokenKind::Plus),
        TokenKind::MinusEqual => Some(TokenKind::Minus),
        TokenKind::StarEqual => Some(TokenKind::Star),
        TokenKind::SlashEqual => Some(TokenKind::Slash),
        TokenKind::PercentEqual => Some(TokenKind::Percent),
        _ => None,
    }
}

/// The message of an error about a missing token.
pub open spec fn expected_message(expected: TokenKind, found: Token) -> Seq<char> {
    "Expected token "@ + kind_debug(expected) + " but found "@ + kind_debug(found.kind)
}

#[derive(Debug)]
pub struct Parser {
    source: Vec<Token>,
    cur: usize,
    next_id: NodeId,
}

impl Parser {
    /// The tokens being parsed.
    pub closed spec fn tokens(&self) -> Seq<Token> {
        self.source@
    }

    /// The position of the next token to read.
    pub closed spec fn pos(&self) -> int {
        self.cur as int
    }

    /// The position and the next node identity.
    pub closed spec fn pstate(&self) -> PState {
        PState { pos: self.cur as int, id: self.next_id }
    }

    /// The next token to read.
    pub open spec fn tok(&self) -> Token {
        self.tokens()[self.pos()]
    }

    /// The parser stands at a token, and an end marker lies ahead of it.
    pub open spec fn wf(&self) -> bool {
        0 <= self.pos() < self.tokens().len() && eof_from(self.tokens(), self.pos())
    }

    /// What every parsing step keeps: the tokens, a valid position, and never going back.
    pub open spec fn keeps(&self, old: &Self) -> bool {
        &&& self.wf()
        &&& self.tokens() == old.tokens()
        &&& self.pos() >= old.pos()
    }

    /// The number of tokens from the position on, which bounds the work left.
    pub closed spec fn remaining(&self) -> nat {
        (self.source@.len() - self.cur) as nat
    }

    pub fn new(source: Vec<Token>) -> (p: Self)
        ensures
            p.tokens() == source@,
            p.pos() == 0,
    {
        Self { source, cur: 0, next_id: NodeId(1) }
    }

    /// Parses statements up to the end marker. A statement that fails to
    /// parse yields an error, and parsing resumes after it (see [`sync_from`]).
    pub fn parse(&mut self) -> (r: (Vec<Stmt>, Vec<ParseError>))
        requires
            old(self).wf(),
        ensures
            final(self).keeps(old(self)),
            p_program(old(self).tokens(), old(self).pstate(), Seq::empty(), Seq::empty()) == (
                svs(r.0@),
                perrs(r.1@),
                final(self).pstate(),
            ),
            final(self).tok().kind is Eof,
            forall|i: int| 0 <= i < r.0@.len() ==> stmt_wf(#[trigger] r.0@[i]),
    {
        let mut stmts: Vec<Stmt> = Vec::new();
        let mut errors: Vec<ParseError> = Vec::new();
        proof {
            assert(svs(stmts@) =~= Seq::<SView>::empty());
            assert(perrs(errors@) =~= Seq::<PErr>::empty());
        }

        while !self.is_at_end()
            invariant
                self.keeps(old(self)),
                forall|i: int| 0 <= i < stmts@.len() ==> stmt_wf(#[trigger] stmts@[i]),
                p_program(old(self).tokens(), old(self).pstate(), Seq::empty(), Seq::empty()) == p_program(
                    self.tokens(),
                    self.pstate(),
                    svs(stmts@),
                    perrs(errors@),
                ),
            decreases self.remaining(),
        {
            let ghost ss = svs(stmts@);
            let ghost es = perrs(errors@);
            match self.parse_stmt() {
                Ok(s) => {
                    stmts.push(s);
                    proof {
                        assert(svs(stmts@) =~= ss.push(sv(s)));
                    }
                },
                Err(e) => {
                    errors.push(e);
                    proof {
                        assert(perrs(errors@) =~= es.push(perr(e)));
                    }
                    let ghost mid = self.pos();
                    self.synchronize();
                    proof {
                        lemma_sync_from(self.tokens(), mid + 1);
                    }
                },
            }
        }

        (stmts, errors)
    }

    fn fresh_id(&mut self) -> (id: NodeId)
        ensures
            final(self).source == old(self).source,
            final(self).cur == old(self).cur,
            id == old(self).pstate().id,
            final(self).pstate() == fresh(old(self).pstate()),
    {
        let id = self.next_id;
        self.next_id = id.next();
        id
    }

    fn peek(&self) -> (t: &Token)
        requires
            self.wf(),
        ensures
            *t == self.tok(),
    {
        &self.source[self.cur]
    }

    fn prev(&self) -> (t: &Token)
        requires
            self.wf(),
            self.pos() > 0,
        ensures
            *t == self.tokens()[self.pos() - 1],
    {
        &self.source[self.cur - 1]
    }

    /// Reads the next token; the end marker is never passed.
    fn advance(&mut self) -> (t: Token)
        requires
            old(self).wf(),
        ensures
            final(self).keeps(old(self)),
            t == old(self).tok(),
            final(self).pstate() == advance(old(self).tokens(), old(self).pstate()),
            final(self).pos() == if t.kind is Eof {
                old(self).pos()
            } else {
                old(self).pos() + 1
            },
    {
        let token = self.source[self.cur].clone();
        let n = self.source.len();
        assert(self.cur < n);
        if !matches!(token.kind, TokenKind::Eof) {
            self.cur += 1;
        }
        token
    }

    fn matches(&mut self, ty: TokenKind) -> (r: bool)
        requires
            old(self).wf(),
        ensures
            final(self).keeps(old(self)),
            r == (!(old(self).tok().kind is Eof) && kind_eq(old(self).tok().kind, ty)),
            r == at(old(self).tokens(), old(self).pstate(), ty),
            final(self).pstate() == if r {
                advance(old(self).tokens(), old(self).pstate())
            } else {
                old(self).pstate()
            },
            final(self).pos() == old(self).pos() + if r {
                1int
            } else {
                0int
            },
    {
        if self.check(&ty) {
            self.advance();
            return true;
        }
        false
    }

    fn check(&self, ty: &TokenKind) -> (r: bool)
        requires
            self.wf(),
        ensures
            r == (!(self.tok().kind is Eof) && kind_eq(self.tok().kind, *ty)),
            r == at(self.tokens(), self.pstate(), *ty),
    {
        if self.is_at_end() {
            return false;
        }
        self.peek().kind == *ty
    }

    fn is_at_end(&self) -> (r: bool)
        requires
            self.wf(),
        ensures
            r == self.tok().kind is Eof,
    {
        matches!(self.peek().kind, TokenKind::Eof)
    }

    fn consume(&mut self, expected: TokenKind) -> (r: ParseResult<Token>)
        requires
            old(self).wf(),
        ensures
            final(self).keeps(old(self)),
            (lift(r), final(self).pstate()) == consume(old(self).tokens(), old(self).pstate(), expected),
            match r {
                Ok(t) => t == old(self).tok() && !(t.kind is Eof) && kind_eq(t.kind, expected)
                    && final(self).pos() == old(self).pos() + 1,
                Err(e) => !(!(old(self).tok().kind is Eof) && kind_eq(old(self).tok().kind, expected))
                    && e.message@ == expected_message(expected, old(self).tok()) && e.span
                    == token_span(old(self).tok()) && final(self).pos() == old(self).pos(),
            },
    {
        if self.check(&expected) {
            Ok(self.advance())
        } else {
            let found = self.peek();
            let mut message = string_of("Expected token ");
            message.append(expected.debug_text().as_str());
            message.append(" but found ");
            message.append(found.kind.debug_text().as_str());
            Err(ParseError { message, span: Span::new(found.start, found.end) })
        }
    }

    fn consume_ident(&mut self) -> (r: ParseResult<String>)
        requires
            old(self).wf(),
        ensures
            final(self).keeps(old(self)),
            (lift(r), final(self).pstate()) == consume_ident(old(self).tokens(), old(self).pstate()),
            match r {
                Ok(name) => old(self).tok().kind == TokenKind::Ident(name) && final(self).pos()
                    == old(self).pos() + 1,
                Err(e) => !(old(self).tok().kind is Ident) && e.message@ == "Expected identifier, got "@
                    + token_debug(old(self).tok()) && e.span == token_span(old(self).tok())
                    && final(self).pos() == old(self).pos(),
            },
    {
        let token = self.peek();
        match &token.kind {
            TokenKind::Ident(name) => {
                let name = name.clone();
                self.advance();
                Ok(name)
            },
            _ => {
                let mut message = string_of("Expected identifier, got ");
                message.append(token.debug_text().as_str());
                Err(ParseError { message, span: Span::new(token.start, token.end) })
            },
        }
    }

    fn consume_integer(&mut self) -> (r: ParseResult<u16>)
        requires
            old(self).wf(),
        ensures
            final(self).keeps(old(self)),
            (lift(r), final(self).pstate()) == consume_integer(old(self).tokens(), old(self).pstate()),
            match r {
                Ok(v) => old(self).tok().kind == TokenKind::Integer(v) && final(self).pos()
                    == old(self).pos() + 1,
                Err(e) => !(old(self).tok().kind is Integer) && e.message@ == "Expected integer, got "@
                    + token_debug(old(self).tok()) && e.span == token_span(old(self).tok())
                    && final(self).pos() == old(self).pos(),
            },
    {
        let token = self.peek();
        match token.kind {
            TokenKind::Integer(val) => {
                self.advance();
                Ok(val)
            },
            _ => {
                let mut message = string_of("Expected integer, got ");
                message.append(token.debug_text().as_str());
                Err(ParseError { message, span: Span::new(token.start, token.end) })
            },
        }
    }

    /// Skips tokens after an error up to a place where a statement may start
    /// (see [`sync_from`]).
    fn synchronize(&mut self)
        requires
            old(self).wf(),
        ensures
            final(self).keeps(old(self)),
            final(self).pstate() == sync(old(self).tokens(), old(self).pstate()),
            old(self).tok().kind is Eof ==> final(self).pos() == old(self).pos(),
            !(old(self).tok().kind is Eof) ==> final(self).pos() == sync_from(
                old(self).tokens(),
                old(self).pos() + 1,
            ),
    {
        let first = self.advance();
        while !self.is_at_end()
            invariant
                self.keeps(old(self)),
                !(first.kind is Eof) ==> sync_from(self.tokens(), self.pos()) == sync_from(
                    old(self).tokens(),
                    old(self).pos() + 1,
                ) && self.pos() > 0,
                first.kind is Eof ==> self.pos() == old(self).pos(),
                first == old(self).tok(),
                self.pstate().id == old(self).pstate().id,
            decreases self.remaining(),
        {
            if matches!(self.prev().kind, TokenKind::Semi) {
                return;
            }
            match self.peek().kind {
                TokenKind::Fn | TokenKind::Struct | TokenKind::Let | TokenKind::Const
                | TokenKind::If | TokenKind::While | TokenKind::Return => return,
                _ => {},
            }
            self.advance();
        }
    }
}

impl Parser {
    fn parse_expr_list(&mut self, term: TokenKind) -> (r: ParseResult<Vec<Expr>>)
        requires
            old(self).wf(),
        ensures
            final(self).keeps(old(self)),
            (lift_exprs(r), final(self).pstate()) == p_expr_list(old(self).tokens(), old(self).pstate(), term),
            r matches Ok(args) ==> final(self).pos() > old(self).pos() && forall|i: int|
                0 <= i < args@.len() ==> expr_wf(#[trigger] args@[i]),
        decreases old(self).remaining(), 3nat,
    {
        let mut args: Vec<Expr> = Vec::new();
        proof {
            assert(evs(args@) =~= Seq::<EView>::empty());
        }

        if self.peek().kind == term && !self.is_at_end() {
            self.advance();
            return Ok(args);
        }

        loop
            invariant_except_break
                self.keeps(old(self)),
                forall|i: int| 0 <= i < args@.len() ==> expr_wf(#[trigger] args@[i]),
                args@.len() > 0 ==> self.pos() > old(self).pos(),
                p_expr_list(old(self).tokens(), old(self).pstate(), term) == p_list_items(
                    self.tokens(),
                    self.pstate(),
                    term,
                    evs(args@),
                ),
            ensures
                self.keeps(old(self)),
                forall|i: int| 0 <= i < args@.len() ==> expr_wf(#[trigger] args@[i]),
                self.pos() > old(self).pos(),
                p_expr_list(old(self).tokens(), old(self).pstate(), term) == p_list_close(
                    self.tokens(),
                    self.pstate(),
                    term,
                    evs(args@),
                ),
            decreases self.remaining(),
        {
            let ghost before = evs(args@);
            let e = self.parse_expr(Precedence::Lowest)?;
            args.push(e);
            proof {
                assert(evs(args@) =~= before.push(ev(e)));
            }
            if matches!(self.peek().kind, TokenKind::Comma) {
                self.advance();
            } else {
                break;
            }
        }

        self.consume(term)?;

        Ok(args)
    }

    // -- recursive descent parser for statements --

    /// Parses one statement; the token it starts with decides its kind.
    pub fn parse_stmt(&mut self) -> (r: ParseResult<Stmt>)
        requires
            old(self).wf(),
        ensures
            final(self).keeps(old(self)),
            (lift_stmt(r), final(self).pstate()) == p_stmt(old(self).tokens(), old(self).pstate()),
            r matches Ok(s) ==> final(self).pos() > old(self).pos() && stmt_wf(s) && match old(self).tok().kind {
                TokenKind::Let | TokenKind::Const => s.node is VarDecl,
                TokenKind::If => s.node is If,
                TokenKind::While => s.node is While,
                TokenKind::LeftBrace => s.node is Block,
                TokenKind::Return => s.node is Return,
                TokenKind::Fn => s.node is Fn,
                TokenKind::Struct => s.node is Struct,
                _ => s.node is Expr,
            },
        decreases old(self).remaining(), 5nat,
    {
        let token = self.peek();

        match token.kind {
            TokenKind::Let | TokenKind::Const => self.parse_var_decl(),
            TokenKind::If => self.parse_if(),
            TokenKind::While => self.parse_while(),
            TokenKind::LeftBrace => self.parse_block(),
            TokenKind::Return => self.parse_return(),
            TokenKind::Fn => self.parse_fn_decl(),
            TokenKind::Struct => self.parse_struct_decl(),
            _ => self.parse_expr_stmt(),
        }
    }

    fn parse_expr_stmt(&mut self) -> (r: ParseResult<Stmt>)
        requires
            old(self).wf(),
        ensures
            final(self).keeps(old(self)),
            (lift_stmt(r), final(self).pstate()) == p_expr_stmt(old(self).tokens(), old(self).pstate()),
            r matches Ok(s) ==> final(self).pos() > old(self).pos() && stmt_wf(s) && s.node is Expr
                && (!(old(self).tok().kind is LeftParen) ==> s.span.start == old(self).tok().start)
                && s.span.end == final(self).tokens()[final(self).pos() - 1].end && final(self).tokens()[final(self).pos() - 1].kind is Semi,
        decreases old(self).remaining(), 4nat,
    {
        let expr = self.parse_expr(Precedence::Lowest)?;
        let semi = self.consume(TokenKind::Semi)?;
        let span = Span::new(expr.span.start, semi.end);
        let id = self.fresh_id();

        Ok(Stmt::with_id(StmtKind::Expr(expr), span, id))
    }

    /// ```ebnf
    /// type = "int" | "i16"
    ///      | "bool"
    ///      | IDENTIFIER
    ///      | "*" type
    ///      | "[" type ";" INTEGER "]" ;
    /// ```
    fn parse_type(&mut self) -> (r: ParseResult<Type>)
        requires
            old(self).wf(),
            old(self).pos() > 0 || !(old(self).tok().kind is Eof),
        ensures
            final(self).keeps(old(self)),
            (lift(r), final(self).pstate()) == p_type(old(self).tokens(), old(self).pstate()),
            r is Ok ==> final(self).pos() > old(self).pos(),
            match old(self).tok().kind {
                TokenKind::Star => r matches Ok(t) ==> t is Pointer,
                TokenKind::LeftBracket => r matches Ok(t) ==> t is Array,
                TokenKind::I16 => r == Ok::<Type, ParseError>(Type::I16),
                TokenKind::Bool => r == Ok::<Type, ParseError>(Type::Bool),
                TokenKind::Ident(name) => r == Ok::<Type, ParseError>(Type::Struct(name)),
                _ => r matches Err(e) && e.message@ == "Expected type, got "@ + kind_debug(
                    old(self).tok().kind,
                ),
            },
        decreases old(self).remaining(),
    {
        if self.matches(TokenKind::Star) {
            let inner = self.parse_type()?;
            return Ok(Type::Pointer(Box::new(inner)));
        }

        if self.matches(TokenKind::LeftBracket) {
            let elem_type = self.parse_type()?;
            self.consume(TokenKind::Semi)?;

            let size = self.consume_integer()?;

            self.consume(TokenKind::RightBracket)?;

            return Ok(Type::Array { ty: Box::new(elem_type), size });
        }

        let t = self.advance();
        match &t.kind {
            TokenKind::I16 => Ok(Type::I16),
            TokenKind::Bool => Ok(Type::Bool),
            TokenKind::Ident(name) => Ok(Type::Struct(name.clone())),
            _ => {
                let mut message = string_of("Expected type, got ");
                message.append(t.kind.debug_text().as_str());
                let prev = self.prev();
                Err(ParseError { message, span: Span::new(prev.start, prev.end) })
            },
        }
    }

    fn parse_block(&mut self) -> (r: ParseResult<Stmt>)
        requires
            old(self).wf(),
        ensures
            final(self).keeps(old(self)),
            (lift_stmt(r), final(self).pstate()) == p_block(old(self).tokens(), old(self).pstate()),
            r matches Ok(s) ==> final(self).pos() > old(self).pos() && stmt_wf(s) && s.node is Block,
        decreases old(self).remaining(), 4nat,
    {
        let start = self.consume(TokenKind::LeftBrace)?;
        let ghost s1 = self.pstate();

        let mut stmts: Vec<Stmt> = Vec::new();
        proof {
            assert(svs(stmts@) =~= Seq::<SView>::empty());
        }
        while !self.check(&TokenKind::RightBrace)
            invariant
                self.keeps(old(self)),
                self.pos() > old(self).pos(),
                forall|i: int| 0 <= i < stmts@.len() ==> stmt_wf(#[trigger] stmts@[i]),
                consume(self.tokens(), old(self).pstate(), TokenKind::LeftBrace) == (Ok::<Token, PErr>(start), s1),
                p_stmts(self.tokens(), s1, Seq::empty()) == p_stmts(self.tokens(), self.pstate(), svs(stmts@)),
            decreases self.remaining(),
        {
            let ghost before = svs(stmts@);
            let s = self.parse_stmt()?;
            stmts.push(s);
            proof {
                assert(svs(stmts@) =~= before.push(sv(s)));
            }
        }

        let end = self.consume(TokenKind::RightBrace)?;

        let span = Span::new(start.start, end.end);
        let id = self.fresh_id();
        proof {
            assert forall|i: int| 0 <= i < stmts.len() implies stmt_kind_wf(#[trigger] stmts[i].node) by {
                assert(stmt_wf(stmts@[i]));
            }
        }
        let res = Stmt::with_id(StmtKind::Block(stmts), span, id);
        proof {
            lemma_sv_block(res);
        }
        Ok(res)
    }

    fn parse_if(&mut self) -> (r: ParseResult<Stmt>)
        requires
            old(self).wf(),
        ensures
            final(self).keeps(old(self)),
            (lift_stmt(r), final(self).pstate()) == p_if(old(self).tokens(), old(self).pstate()),
            r matches Ok(s) ==> final(self).pos() > old(self).pos() && stmt_wf(s) && s.node is If,
        decreases old(self).remaining(), 4nat,
    {
        let start = self.consume(TokenKind::If)?;

        self.consume(TokenKind::LeftParen)?;
        let cond = self.parse_expr(Precedence::Lowest)?;
        self.consume(TokenKind::RightParen)?;

        let then_branch = Box::new(self.parse_stmt()?);

        let else_branch = if self.matches(TokenKind::Else) {
            Some(Box::new(self.parse_stmt()?))
        } else {
            None
        };

        let end_pos = if let Some(ref else_branch) = else_branch {
            else_branch.span.end
        } else {
            then_branch.span.end
        };

        let span = Span::new(start.start, end_pos);
        let id = self.fresh_id();

        Ok(Stmt::with_id(StmtKind::If { cond, then_branch, else_branch }, span, id))
    }

    fn parse_while(&mut self) -> (r: ParseResult<Stmt>)
        requires
            old(self).wf(),
        ensures
            final(self).keeps(old(self)),
            (lift_stmt(r), final(self).pstate()) == p_while(old(self).tokens(), old(self).pstate()),
            r matches Ok(s) ==> final(self).pos() > old(self).pos() && stmt_wf(s) && s.node is While,
        decreases old(self).remaining(), 4nat,
    {
        let start = self.consume(TokenKind::While)?;

        self.consume(TokenKind::LeftParen)?;
        let cond = self.parse_expr(Precedence::Lowest)?;
        self.consume(TokenKind::RightParen)?;

        let body = Box::new(self.parse_stmt()?);

        let span = Span::new(start.start, body.span.end);
        let id = self.fresh_id();

        Ok(Stmt::with_id(StmtKind::While { cond, body }, span, id))
    }

    /// `return = "return" [ expression ] ";" ;`
    fn parse_return(&mut self) -> (r: ParseResult<Stmt>)
        requires
            old(self).wf(),
        ensures
            final(self).keeps(old(self)),
            (lift_stmt(r), final(self).pstate()) == p_return(old(self).tokens(), old(self).pstate()),
            r matches Ok(s) ==> final(self).pos() > old(self).pos() && stmt_wf(s) && s.node is Return,
        decreases old(self).remaining(), 4nat,
    {
        let start = self.consume(TokenKind::Return)?;

        let val = if self.check(&TokenKind::Semi) {
            None
        } else {
            Some(self.parse_expr(Precedence::Lowest)?)
        };

        let end = self.consume(TokenKind::Semi)?;
        let span = Span::new(start.start, end.end);
        let id = self.fresh_id();

        Ok(Stmt::with_id(StmtKind::Return(val), span, id))
    }

    /// `var_decl = ("let" | "const") IDENTIFIER [ ":" type ] "=" expression ";" ;`
    fn parse_var_decl(&mut self) -> (r: ParseResult<Stmt>)
        requires
            old(self).wf(),
            old(self).tok().kind is Let || old(self).tok().kind is Const,
        ensures
            final(self).keeps(old(self)),
            (lift_stmt(r), final(self).pstate()) == p_var_decl(old(self).tokens(), old(self).pstate()),
            r matches Ok(s) ==> final(self).pos() > old(self).pos() && stmt_wf(s) && (s.node matches StmtKind::VarDecl { mutable, .. } && mutable == (old(self).tok().kind is Let)),
        decreases old(self).remaining(), 4nat,
    {
        let start = self.peek().start;

        let first = self.advance();
        let is_mutable = matches!(first.kind, TokenKind::Let);

        let name = self.consume_ident()?;

        let ty = if matches!(self.peek().kind, TokenKind::Colon) {
            self.advance();
            Some(self.parse_type()?)
        } else {
            None
        };

        self.consume(TokenKind::Equal)?;

        let val = self.parse_expr(Precedence::Lowest)?;
        let semi = self.consume(TokenKind::Semi)?;

        let span = Span::new(start, semi.end);
        let id = self.fresh_id();

        Ok(Stmt::with_id(StmtKind::VarDecl { name, ty, value: val, mutable: is_mutable }, span, id))
    }

    /// `fn_decl = "fn" IDENTIFIER "(" [ param_list ] ")" [ "->" type ] block ;`
    /// The first parameter may be `self`, of type `SelfType`.
    fn parse_fn_decl(&mut self) -> (r: ParseResult<Stmt>)
        requires
            old(self).wf(),
        ensures
            final(self).keeps(old(self)),
            (lift_stmt(r), final(self).pstate()) == p_fn(old(self).tokens(), old(self).pstate()),
            r matches Ok(s) ==> final(self).pos() > old(self).pos() && stmt_wf(s) && s.node is Fn,
        decreases old(self).remaining(), 4nat,
    {
        let start = self.consume(TokenKind::Fn)?;
        let name = self.consume_ident()?;

        self.consume(TokenKind::LeftParen)?;

        let mut params: Vec<(String, Type)> = Vec::new();
        proof {
            assert(pvs(params@) =~= Seq::<(Seq<char>, Type)>::empty());
        }

        let mut is_first = true;
        if !self.check(&TokenKind::RightParen) {
            loop
                invariant_except_break
                    self.keeps(old(self)),
                    self.pos() > old(self).pos(),
                    p_fn(self.tokens(), old(self).pstate()) == p_fn_rest(
                        self.tokens(),
                        old(self).pstate(),
                        start,
                        name,
                        p_params(self.tokens(), self.pstate(), pvs(params@), is_first),
                    ),
                ensures
                    self.keeps(old(self)),
                    self.pos() > old(self).pos(),
                    p_fn(self.tokens(), old(self).pstate()) == p_fn_rest(
                        self.tokens(),
                        old(self).pstate(),
                        start,
                        name,
                        (Ok(pvs(params@)), self.pstate()),
                    ),
                decreases self.remaining(),
            {
                let ghost before = pvs(params@);
                let is_self = match &self.peek().kind {
                    TokenKind::Ident(n) => {
                        let self_name = string_of("self");
                        proof {
                            reveal_strlit("self");
                        }
                        *n == self_name
                    },
                    _ => false,
                };
                if is_first && is_self {
                    params.push((string_of("self"), Type::SelfType));
                    proof {
                        reveal_strlit("self");
                        assert(pvs(params@) =~= before.push(("self"@, Type::SelfType)));
                    }
                    is_first = false;
                    self.advance();
                } else {
                    let name = self.consume_ident()?;
                    self.consume(TokenKind::Colon)?;
                    let ty = self.parse_type()?;

                    params.push((name, ty));
                    proof {
                        assert(pvs(params@) =~= before.push((name@, ty)));
                    }
                }

                if !self.check(&TokenKind::Comma) {
                    break;
                }
                self.advance();
            }
        }
        self.consume(TokenKind::RightParen)?;

        let return_type = if self.matches(TokenKind::Arrow) {
            Some(self.parse_type()?)
        } else {
            None
        };

        let body = Box::new(self.parse_block()?);
        let span = Span::new(start.start, body.span.end);
        let id = self.fresh_id();

        Ok(Stmt::with_id(StmtKind::Fn { name, params, return_type, body }, span, id))
    }

    /// ```ebnf
    /// struct_decl = "struct" IDENTIFIER "{" { struct_member } "}" ;
    ///
    /// struct_member = field_decl
    ///               | function_decl ;
    ///
    /// field_decl = IDENTIFIER ":" type [ "," ] ;
    /// ```
    fn parse_struct_decl(&mut self) -> (r: ParseResult<Stmt>)
        requires
            old(self).wf(),
        ensures
            final(self).keeps(old(self)),
            (lift_stmt(r), final(self).pstate()) == p_struct(old(self).tokens(), old(self).pstate()),
            r matches Ok(s) ==> final(self).pos() > old(self).pos() && stmt_wf(s) && s.node is Struct,
        decreases old(self).remaining(), 4nat,
    {
        let start = self.consume(TokenKind::Struct)?;
        let name = self.consume_ident()?;
        self.consume(TokenKind::LeftBrace)?;

        let mut members: Vec<Stmt> = Vec::new();
        proof {
            assert(svs(members@) =~= Seq::<SView>::empty());
        }

        while !self.check(&TokenKind::RightBrace)
            invariant
                self.keeps(old(self)),
                self.pos() > old(self).pos(),
                forall|i: int| 0 <= i < members@.len() ==> stmt_wf(#[trigger] members@[i]),
                p_struct(self.tokens(), old(self).pstate()) == p_struct_rest(
                    self.tokens(),
                    start,
                    name,
                    p_members(self.tokens(), self.pstate(), svs(members@)),
                ),
            decreases self.remaining(),
        {
            let ghost before = svs(members@);
            if self.check(&TokenKind::Fn) {
                let f = self.parse_fn_decl()?;
                members.push(f);
                proof {
                    assert(svs(members@) =~= before.push(sv(f)));
                }
            } else {
                let start = self.peek().start;

                let field_name = self.consume_ident()?;
                self.consume(TokenKind::Colon)?;
                let field_type = self.parse_type()?;

                let end = self.prev().end;
                let span = Span::new(start, end);

                // a comma after a field is optional
                self.matches(TokenKind::Comma);

                let id = self.fresh_id();
                let m = Stmt::with_id(StmtKind::StructField { name: field_name, ty: field_type }, span, id);
                members.push(m);
                proof {
                    assert(svs(members@) =~= before.push(sv(m)));
                }
            }
        }

        let end = self.consume(TokenKind::RightBrace)?;

        let span = Span::new(start.start, end.end);
        let id = self.fresh_id();
        proof {
            assert forall|i: int| 0 <= i < members.len() implies stmt_kind_wf(#[trigger] members[i].node) by {
                assert(stmt_wf(members@[i]));
            }
        }

        let res = Stmt::with_id(StmtKind::Struct { name, members }, span, id);
        proof {
            lemma_sv_struct(res);
        }
        Ok(res)
    }

    /// The fields of a struct literal: `name: value` or `name` alone, which
    /// stands for `name: name`; separated by commas.
    fn parse_struct_init_fields(&mut self) -> (r: ParseResult<Vec<(String, Expr)>>)
        requires
            old(self).wf(),
        ensures
            final(self).keeps(old(self)),
            (lift_fields(r), final(self).pstate()) == p_fields(old(self).tokens(), old(self).pstate(), Seq::empty()),
            r matches Ok(fields) ==> forall|i: int|
                0 <= i < fields@.len() ==> expr_wf(#[trigger] fields@[i].1),
        decreases old(self).remaining(), 1nat,
    {
        let mut fields: Vec<(String, Expr)> = Vec::new();
        proof {
            assert(fvs(fields@) =~= Seq::<(String, EView)>::empty());
        }
        while !self.check(&TokenKind::RightBrace)
            invariant_except_break
                self.keeps(old(self)),
                forall|i: int| 0 <= i < fields@.len() ==> expr_wf(#[trigger] fields@[i].1),
                p_fields(old(self).tokens(), old(self).pstate(), Seq::empty()) == p_fields(
                    self.tokens(),
                    self.pstate(),
                    fvs(fields@),
                ),
            ensures
                self.keeps(old(self)),
                forall|i: int| 0 <= i < fields@.len() ==> expr_wf(#[trigger] fields@[i].1),
                p_fields(old(self).tokens(), old(self).pstate(), Seq::empty()) == (
                    Ok::<Seq<(String, EView)>, PErr>(fvs(fields@)),
                    self.pstate(),
                ),
            decreases self.remaining(),
        {
            let ghost before = fvs(fields@);
            let name = self.consume_ident()?;
            let val = if self.matches(TokenKind::Colon) {
                self.parse_expr(Precedence::Lowest)?
            } else {
                let prev = self.prev();
                let span = Span::new(prev.start, prev.end);
                let id = self.fresh_id();
                Expr::with_id(ExprKind::Ident(name.clone()), span, id)
            };

            fields.push((name, val));
            proof {
                assert(fvs(fields@) =~= before.push((name, ev(val))));
            }

            if !self.matches(TokenKind::Comma) {
                break;
            }
        }

        Ok(fields)
    }

    // -- precedence climbing for expressions --

    /// Parses an expression whose operators all bind tighter than `bp`.
    /// On success the next token is not an operator that binds tighter than `bp`.
    pub fn parse_expr(&mut self, bp: Precedence) -> (r: ParseResult<Expr>)
        requires
            old(self).wf(),
        ensures
            final(self).keeps(old(self)),
            (lift_expr(r), final(self).pstate()) == p_expr(old(self).tokens(), old(self).pstate(), bp),
            r matches Ok(e) ==> {
                &&& final(self).pos() > old(self).pos()
                &&& expr_wf(e)
                &&& !(old(self).tok().kind is LeftParen) ==> e.span.start == old(self).tok().start
                &&& level(precedence_of(final(self).tok().kind)) <= level(bp)
            },
        decreases old(self).remaining(), 2nat,
    {
        let mut left = self.parse_prefix()?;

        while bp.level() < Precedence::of(&self.peek().kind).level()
            invariant
                self.keeps(old(self)),
                self.pos() > old(self).pos(),
                expr_wf(left),
                !(old(self).tok().kind is LeftParen) ==> left.span.start == old(self).tok().start,
                p_expr(old(self).tokens(), old(self).pstate(), bp) == p_expr_rest(
                    self.tokens(),
                    self.pstate(),
                    bp,
                    ev(left),
                ),
            decreases self.remaining(),
        {
            left = self.parse_infix(left)?;
        }

        Ok(left)
    }

    /// Parses the expression that starts at the next token: a literal, a name,
    /// a prefix operator applied to an operand, a parenthesized expression, or
    /// an array literal.
    fn parse_prefix(&mut self) -> (r: ParseResult<Expr>)
        requires
            old(self).wf(),
        ensures
            final(self).keeps(old(self)),
            (lift_expr(r), final(self).pstate()) == p_prefix(old(self).tokens(), old(self).pstate()),
            r matches Ok(e) ==> final(self).pos() > old(self).pos() && expr_wf(e)
                && (!(old(self).tok().kind is LeftParen) ==> e.span.start == old(self).tok().start),
            match old(self).tok().kind {
                TokenKind::True => r matches Ok(e) && e.node == ExprKind::Bool(true) && e.span
                    == token_span(old(self).tok()),
                TokenKind::False => r matches Ok(e) && e.node == ExprKind::Bool(false) && e.span
                    == token_span(old(self).tok()),
                TokenKind::Integer(v) => r matches Ok(e) && e.node == ExprKind::Integer(v)
                    && e.span == token_span(old(self).tok()),
                TokenKind::Ident(name) => r matches Ok(e) && e.node == ExprKind::Ident(name)
                    && e.span == token_span(old(self).tok()),
                TokenKind::PlusPlus => r matches Ok(e) ==> (e.node matches ExprKind::Increment { prefix, .. } && prefix),
                TokenKind::MinusMinus => r matches Ok(e) ==> (e.node matches ExprKind::Decrement { prefix, .. } && prefix),
                TokenKind::LeftBracket => r matches Ok(e) ==> e.node is Array,
                TokenKind::Minus | TokenKind::Bang | TokenKind::Star | TokenKind::BitAnd
                | TokenKind::BitNot => r matches Ok(e) ==> (e.node matches ExprKind::Unary { op, .. } && op == old(self).tok().kind),
                TokenKind::LeftParen => true,
                _ => r matches Err(e) && e.message@ == "Unexpected token: "@ + token_debug(
                    old(self).tok(),
                ) && e.span == token_span(old(self).tok()),
            },
        decreases old(self).remaining(), 1nat,
    {
        let token = self.advance();
        let span = Span::new(token.start, token.end);

        match &token.kind {
            TokenKind::True => {
                let id = self.fresh_id();
                Ok(Expr::with_id(ExprKind::Bool(true), span, id))
            },
            TokenKind::False => {
                let id = self.fresh_id();
                Ok(Expr::with_id(ExprKind::Bool(false), span, id))
            },
            TokenKind::Integer(val) => {
                let id = self.fresh_id();
                Ok(Expr::with_id(ExprKind::Integer(*val), span, id))
            },
            TokenKind::Ident(name) => {
                let id = self.fresh_id();
                Ok(Expr::with_id(ExprKind::Ident(name.clone()), span, id))
            },
            TokenKind::PlusPlus => {
                let rhs = self.parse_expr(Precedence::Prefix)?;
                let span = Span::merge(span, rhs.span);
                let id = self.fresh_id();
                Ok(Expr::with_id(ExprKind::Increment { prefix: true, expr: Box::new(rhs) }, span, id))
            },
            TokenKind::MinusMinus => {
                let rhs = self.parse_expr(Precedence::Prefix)?;
                let span = Span::merge(span, rhs.span);
                let id = self.fresh_id();
                Ok(Expr::with_id(ExprKind::Decrement { prefix: true, expr: Box::new(rhs) }, span, id))
            },
            TokenKind::LeftBracket => {
                let elems = self.parse_expr_list(TokenKind::RightBracket)?;
                let id = self.fresh_id();
                proof {
                    assert forall|i: int| 0 <= i < elems.len() implies kind_wf(#[trigger] elems[i].node) by {
                        assert(expr_wf(elems@[i]));
                    }
                }
                proof {
                    lemma_ek_array(elems);
                }
                Ok(Expr::with_id(ExprKind::Array(elems), span, id))
            },
            TokenKind::Minus | TokenKind::Bang | TokenKind::Star | TokenKind::BitAnd
            | TokenKind::BitNot => {
                let tk = token.kind.clone();
                let right = self.parse_expr(Precedence::Prefix)?;
                let span = Span::merge(span, right.span);
                let id = self.fresh_id();
                Ok(Expr::with_id(ExprKind::Unary { op: tk, rhs: Box::new(right) }, span, id))
            },
            TokenKind::LeftParen => {
                let expr = self.parse_expr(Precedence::Lowest)?;

                if matches!(self.peek().kind, TokenKind::RightParen) {
                    self.advance();
                } else {
                    return Err(ParseError { message: string_of("Expected ')'"), span });
                }

                Ok(expr)
            },
            _ => {
                let mut message = string_of("Unexpected token: ");
                message.append(token.debug_text().as_str());
                Err(ParseError { message, span })
            },
        }
    }

    /// Continues the expression `lhs` with the operator at the next token: an
    /// assignment (`x op= v` stands for `x = x op v`), a postfix increment or
    /// decrement, a call, a subscript, a member or static access, a struct
    /// literal, or a binary operator whose right operand binds tighter.
    fn parse_infix(&mut self, lhs: Expr) -> (r: ParseResult<Expr>)
        requires
            old(self).wf(),
            level(precedence_of(old(self).tok().kind)) > 0,
            expr_wf(lhs),
        ensures
            final(self).keeps(old(self)),
            (lift_expr(r), final(self).pstate()) == p_infix(old(self).tokens(), old(self).pstate(), ev(lhs)),
            r matches Ok(e) ==> final(self).pos() > old(self).pos() && expr_wf(e) && e.span.start
                == lhs.span.start,
            match old(self).tok().kind {
                TokenKind::Equal => r matches Ok(e) ==> (e.node matches ExprKind::Assignment { target, .. } && *target == lhs),
                TokenKind::PlusEqual | TokenKind::MinusEqual | TokenKind::StarEqual
                | TokenKind::SlashEqual | TokenKind::PercentEqual => r matches Ok(e) ==> (e.node matches ExprKind::Assignment { target, value } && *target == lhs && (value.node matches ExprKind::Binary { op, .. } && Some(op) == compound_op(old(self).tok().kind))),
                TokenKind::PlusPlus => r matches Ok(e) && e.node == ExprKind::Increment { prefix: false, expr: Box::new(lhs) }
                    && e.span == Span { start: lhs.span.start, end: old(self).tok().end },
                TokenKind::MinusMinus => r matches Ok(e) && e.node == ExprKind::Decrement { prefix: false, expr: Box::new(lhs) }
                    && e.span == Span { start: lhs.span.start, end: old(self).tok().end },
                TokenKind::LeftParen => r matches Ok(e) ==> (e.node matches ExprKind::Call { callee, .. } && *callee == lhs),
                TokenKind::LeftBracket => r matches Ok(e) ==> (e.node matches ExprKind::Subscript { array, .. } && *array == lhs),
                TokenKind::Dot => r matches Ok(e) ==> (e.node matches ExprKind::MemberAccess { object, .. } && *object == lhs),
                TokenKind::ColonColon => r matches Ok(e) ==> (e.node matches ExprKind::StaticAccess { target, .. } && *target == lhs),
                TokenKind::LeftBrace => (r matches Ok(e) ==> (e.node matches ExprKind::StructInit { name, .. } && *name == lhs)) && (!(lhs.node is Ident || lhs.node is MemberAccess) ==> (r matches Err(e) && e.span == lhs.span)),
                _ => r matches Ok(e) ==> (e.node matches ExprKind::Binary { lhs: l, op, .. } && *l == lhs && op == old(self).tok().kind),
            },
        decreases old(self).remaining(), 1nat,
    {
        let op_token = self.advance();

        match op_token.kind {
            TokenKind::Equal | TokenKind::PlusEqual | TokenKind::MinusEqual
            | TokenKind::StarEqual | TokenKind::SlashEqual | TokenKind::PercentEqual => {
                let value = self.parse_expr(Precedence::Lowest)?;
                let ghost s2 = self.pstate();
                if !(matches!(lhs.node, ExprKind::Ident(_)) || matches!(lhs.node, ExprKind::Unary { op: TokenKind::Star, .. })) {
                    let mut message = string_of("Assigning to a non-variable: ");
                    let lhs_text = expr_debug(&lhs);
                    message.append(lhs_text.as_str());
                    return Err(ParseError { message, span: Span::new(op_token.start, op_token.end) });
                }

                let span = Span::merge(lhs.span, value.span);
                let ghost v0 = ev(value);
                let base_op = match op_token.kind {
                    TokenKind::PlusEqual => Some(TokenKind::Plus),
                    TokenKind::MinusEqual => Some(TokenKind::Minus),
                    TokenKind::StarEqual => Some(TokenKind::Star),
                    TokenKind::SlashEqual => Some(TokenKind::Slash),
                    TokenKind::PercentEqual => Some(TokenKind::Percent),
                    _ => None,
                };
                let value = match base_op {
                    Some(op) => {
                        let current = clone_expr(&lhs);
                        let id = self.fresh_id();
                        Expr::with_id(
                            ExprKind::Binary { lhs: Box::new(current), op, rhs: Box::new(value) },
                            span,
                            id,
                        )
                    },
                    None => value,
                };
                assert(is_assignable(lhs.node));
                assert(expr_wf(value));
                let id = self.fresh_id();
                let res = Expr::with_id(ExprKind::Assignment { target: Box::new(lhs), value: Box::new(value) }, span, id);
                assert(base_op is Some ==> ev(value) == (EView {
                    node: EKind::Binary { lhs: Box::new(ev(lhs)), op: base_op.unwrap(), rhs: Box::new(v0) },
                    span,
                    id: s2.id,
                }));
                Ok(res)
            },

            TokenKind::PlusPlus => {
                let span = Span::new(lhs.span.start, op_token.end);
                let id = self.fresh_id();
                Ok(Expr::with_id(ExprKind::Increment { prefix: false, expr: Box::new(lhs) }, span, id))
            },

            TokenKind::MinusMinus => {
                let span = Span::new(lhs.span.start, op_token.end);
                let id = self.fresh_id();
                Ok(Expr::with_id(ExprKind::Decrement { prefix: false, expr: Box::new(lhs) }, span, id))
            },

            TokenKind::LeftParen => {
                let args = self.parse_expr_list(TokenKind::RightParen)?;
                let span = Span::new(lhs.span.start, self.prev().end);
                let id = self.fresh_id();
                proof {
                    assert forall|i: int| 0 <= i < args.len() implies kind_wf(#[trigger] args[i].node) by {
                        assert(expr_wf(args@[i]));
                    }
                }
                proof {
                    lemma_ek_call(Box::new(lhs), args);
                }
                Ok(Expr::with_id(ExprKind::Call { callee: Box::new(lhs), args }, span, id))
            },

            TokenKind::LeftBracket => {
                let index = self.parse_expr(Precedence::Lowest)?;
                self.consume(TokenKind::RightBracket)?;
                let span = Span::merge(lhs.span, index.span);
                let id = self.fresh_id();
                Ok(Expr::with_id(ExprKind::Subscript { array: Box::new(lhs), index: Box::new(index) }, span, id))
            },

            TokenKind::Dot => {
                let name = self.consume_ident()?;
                let span = Span::new(lhs.span.start, self.prev().end);
                let id = self.fresh_id();
                Ok(Expr::with_id(ExprKind::MemberAccess { object: Box::new(lhs), name }, span, id))
            },

            TokenKind::ColonColon => {
                let member = self.consume_ident()?;
                let span = Span::new(lhs.span.start, self.prev().end);
                let id = self.fresh_id();
                Ok(Expr::with_id(ExprKind::StaticAccess { target: Box::new(lhs), member }, span, id))
            },

            TokenKind::LeftBrace => {
                match lhs.node {
                    ExprKind::Ident(_) | ExprKind::MemberAccess { .. } => {},
                    _ => {
                        return Err(ParseError {
                            message: string_of("Struct init must follow a type name"),
                            span: lhs.span,
                        });
                    },
                }

                let fields = self.parse_struct_init_fields()?;
                let end_token = self.consume(TokenKind::RightBrace)?;
                let span = Span::new(lhs.span.start, end_token.end);
                let id = self.fresh_id();
                proof {
                    assert forall|i: int| 0 <= i < fields.len() implies kind_wf(#[trigger] fields[i].1.node) by {
                        assert(expr_wf(fields@[i].1));
                    }
                }
                proof {
                    lemma_ek_struct_init(Box::new(lhs), fields);
                }
                Ok(Expr::with_id(ExprKind::StructInit { name: Box::new(lhs), fields }, span, id))
            },

            _ => {
                assert(is_binary_op(op_token.kind));
                let op_bp = Precedence::of(&op_token.kind);
                let rhs = self.parse_expr(op_bp)?;
                let span = Span::merge(lhs.span, rhs.span);
                let id = self.fresh_id();
                Ok(Expr::with_id(ExprKind::Binary { lhs: Box::new(lhs), op: op_token.kind, rhs: Box::new(rhs) }, span, id))
            },
        }
    }
}

} // verus!
