//! The lexer of the Teeny language.

pub mod chars;
pub mod keywords;
pub mod scan;
pub mod token;

use vstd::prelude::*;
use vstd::string::StrSliceExecFns;
use crate::lexer::chars::{byte_offset, chars_of, col_at, len_utf8, lemma_byte_offset_boundary, lemma_byte_offset_monotonic, lemma_position_bounds, line_at};
use vstd::utf8::{encode_utf8, is_char_boundary};
use crate::lexer::scan::{kind_matches, lemma_scan_token, lemma_skip_trivia, lexable_from, next_token_end, scan_at, scan_token, skip_trivia, skip_trivia_at};
use crate::lexer::token::{Token, TokenKind};
use crate::text::string_of;

verus! {

/// Whether `t` is the token that the lexer reads from position `i` of `s`:
/// trivia is skipped, then the token's kind, line, column and byte span are
/// those of the text that [`scan_token`] finds there.
pub open spec fn token_from(s: Seq<char>, i: int, t: Token) -> bool {
    let j = skip_trivia(s, i);
    match scan_token(s, j) {
        Some((sk, e)) => {
            &&& kind_matches(t.kind, sk, s.subrange(j, e))
            &&& t.line == line_at(s, j)
            &&& t.col == col_at(s, j)
            &&& t.start == byte_offset(s, j)
            &&& t.end == byte_offset(s, e)
        },
        None => false,
    }
}

/// Whether a token's byte span lies within the UTF-8 encoding of the text and
/// starts and ends at character boundaries, so that it can be sliced out.
pub open spec fn in_source(s: Seq<char>, t: Token) -> bool {
    &&& t.start <= t.end <= encode_utf8(s).len()
    &&& is_char_boundary(encode_utf8(s), t.start as int)
    &&& is_char_boundary(encode_utf8(s), t.end as int)
}

/// A token read from a position of the text lies within the text.
pub proof fn lemma_token_in_source(s: Seq<char>, i: int, t: Token)
    requires
        0 <= i <= s.len(),
        token_from(s, i, t),
    ensures
        in_source(s, t),
{
    let j = skip_trivia(s, i);
    lemma_skip_trivia(s, i);
    lemma_scan_token(s, j);
    let (_, e) = scan_token(s, j)->0;
    lemma_byte_offset_monotonic(s, j, e);
    lemma_byte_offset_boundary(s, j);
    lemma_byte_offset_boundary(s, e);
}

/// The number of tokens, end marker included, that the lexer yields from position `i`.
pub open spec fn token_count(s: Seq<char>, i: int) -> nat
    decreases s.len() - i,
{
    if i < 0 || i > s.len() {
        0
    } else {
        let j = skip_trivia(s, i);
        match scan_token(s, j) {
            None => 0,
            Some((k, e)) => {
                if k == Some(TokenKind::Eof) {
                    1
                } else {
                    proof {
                        lemma_skip_trivia(s, i);
                        lemma_scan_token(s, j);
                    }
                    1 + token_count(s, e)
                }
            },
        }
    }
}

/// The position from which the `k`-th token after position `i` is read.
pub open spec fn nth_position(s: Seq<char>, i: int, k: nat) -> int
    decreases k,
{
    if k == 0 {
        i
    } else {
        next_token_end(s, nth_position(s, i, (k - 1) as nat))
    }
}

/// Tokens come in source order and do not overlap: each token's span is
/// well formed, and the next token starts at or after its end.
pub proof fn lemma_tokens_in_order(s: Seq<char>, i: int, k: nat, a: Token, b: Token)
    requires
        0 <= nth_position(s, i, k) <= s.len(),
        token_from(s, nth_position(s, i, k), a),
        token_from(s, nth_position(s, i, k + 1), b),
    ensures
        a.start <= a.end <= b.start,
{
    let p = nth_position(s, i, k);
    let j = skip_trivia(s, p);
    lemma_skip_trivia(s, p);
    lemma_scan_token(s, j);
    let e = next_token_end(s, p);
    lemma_byte_offset_monotonic(s, j, e);
    assert(nth_position(s, i, k + 1) == e);
    lemma_skip_trivia(s, e);
    lemma_byte_offset_monotonic(s, e, skip_trivia(s, e));
}

/// Reads the tokens of a source text one at a time, ending with one `Eof` token.
pub struct Lexer<'a> {
    source: &'a str,
    chars: Vec<char>,
    // used for error messages
    line: usize,
    col: usize,
    start: usize,
    pos: usize,
    idx: usize,
    eof: bool,
}

impl<'a> Lexer<'a> {
    /// The characters of the source.
    pub closed spec fn text(&self) -> Seq<char> {
        self.chars@
    }

    /// The number of characters read so far.
    pub closed spec fn index(&self) -> int {
        self.idx as int
    }

    /// Whether the end marker has been returned.
    pub closed spec fn finished(&self) -> bool {
        self.eof
    }

    /// The positions the lexer keeps agree with the number of characters read.
    pub closed spec fn wf(&self) -> bool {
        &&& self.chars@ == self.source@
        &&& self.idx <= self.chars@.len()
        &&& 4 * self.chars@.len() + 8 <= usize::MAX
        &&& self.line == line_at(self.chars@, self.idx as int)
        &&& self.col == col_at(self.chars@, self.idx as int)
        &&& self.pos == byte_offset(self.chars@, self.idx as int)
    }

    /// Whether the next call of `next` finds a token (it always does once finished).
    pub open spec fn can_read(&self) -> bool {
        self.finished() || scan_token(self.text(), skip_trivia(self.text(), self.index())) is Some
    }

    pub fn new(source: &'a str) -> (lex: Self)
        requires
            4 * source@.len() + 8 <= usize::MAX,
        ensures
            lex.wf(),
            lex.text() == source@,
            lex.index() == 0,
            !lex.finished(),
    {
        let chars = chars_of(source);
        Self { source, chars, line: 1, col: 1, start: 0, pos: 0, idx: 0, eof: false }
    }

    /// Consumes one character of input and updates the tracked positions
    fn advance(&mut self) -> (r: Option<char>)
        requires
            old(self).wf(),
        ensures
            final(self).wf(),
            final(self).text() == old(self).text(),
            final(self).eof == old(self).eof,
            final(self).source == old(self).source,
            old(self).idx < old(self).chars@.len() ==> r == Some(old(self).chars@[old(self).idx as int])
                && final(self).idx == old(self).idx + 1,
            old(self).idx >= old(self).chars@.len() ==> r is None && final(self).idx == old(self).idx,
    {
        if self.idx < self.chars.len() {
            let c = self.chars[self.idx];
            proof {
                lemma_position_bounds(self.chars@, self.idx as int);
            }
            self.idx += 1;
            self.pos += len_utf8(c);
            if c == '\n' {
                self.line += 1;
                self.col = 1;
            } else {
                self.col += 1;
            }
            Some(c)
        } else {
            None
        }
    }

    /// Advances until `target` characters have been read.
    fn advance_to(&mut self, target: usize)
        requires
            old(self).wf(),
            old(self).idx <= target <= old(self).chars@.len(),
        ensures
            final(self).wf(),
            final(self).text() == old(self).text(),
            final(self).eof == old(self).eof,
            final(self).source == old(self).source,
            final(self).idx == target,
    {
        while self.idx < target
            invariant
                self.wf(),
                self.text() == old(self).text(),
                self.eof == old(self).eof,
                self.source == old(self).source,
                self.idx <= target <= self.chars@.len(),
            decreases target - self.idx,
        {
            self.advance();
        }
    }

    /// Tokenizes the next complete token
    fn read_token(&mut self) -> (t: Token)
        requires
            old(self).wf(),
            scan_token(old(self).text(), skip_trivia(old(self).text(), old(self).index())) is Some,
        ensures
            final(self).wf(),
            final(self).text() == old(self).text(),
            final(self).eof == old(self).eof,
            token_from(old(self).text(), old(self).index(), t),
            final(self).index() == next_token_end(old(self).text(), old(self).index()),
    {
        let j = skip_trivia_at(&self.chars, self.idx);
        proof {
            lemma_skip_trivia(self.chars@, self.idx as int);
            lemma_scan_token(self.chars@, j as int);
        }
        self.advance_to(j);
        self.start = self.pos;
        let start_pos = self.pos;
        let start_line = self.line;
        let start_col = self.col;
        let scanned = scan_at(&self.chars, j);
        let (sk, e) = match scanned {
            Some(x) => x,
            None => {
                proof {
                    assert(false);
                }
                (None, j)
            },
        };
        self.advance_to(e);
        let kind = match sk {
            Some(k) => k,
            None => {
                let word = self.source.substring_char(j, e);
                TokenKind::Ident(string_of(word))
            },
        };
        let t = Token { kind, line: start_line, col: start_col, start: start_pos, end: self.pos };
        proof {
            let ss = old(self).text();
            assert(skip_trivia(ss, old(self).index()) == j as int);
            assert(scan_token(ss, j as int) == Some((sk, e as int)));
            assert(kind_matches(t.kind, sk, ss.subrange(j as int, e as int)));
            assert(t.line == line_at(ss, j as int));
            assert(t.start == byte_offset(ss, j as int));
            assert(t.end == byte_offset(ss, e as int));
        }
        t
    }

    /// The next token; after the `Eof` token it yields nothing more.
    pub fn next(&mut self) -> (r: Option<Token>)
        requires
            old(self).wf(),
            old(self).can_read(),
        ensures
            final(self).wf(),
            final(self).text() == old(self).text(),
            old(self).finished() ==> r is None && final(self).index() == old(self).index()
                && final(self).finished(),
            !old(self).finished() ==> (r matches Some(t) && token_from(
                old(self).text(),
                old(self).index(),
                t,
            ) && final(self).index() == next_token_end(old(self).text(), old(self).index())
                && (final(self).finished() <==> t.kind is Eof)),
            r matches Some(t) ==> in_source(old(self).text(), t),
    {
        if self.eof {
            return None;
        }
        let token = self.read_token();
        proof {
            lemma_token_in_source(old(self).text(), old(self).index(), token);
        }
        // adds an EOF token instead of ending the iterator
        if let TokenKind::Eof = token.kind {
            self.eof = true;
        }
        Some(token)
    }

    /// All the remaining tokens, in order, up to and including the end marker.
    pub fn collect(self) -> (tokens: Vec<Token>)
        requires
            self.wf(),
            self.finished() || lexable_from(self.text(), self.index()),
        ensures
            self.finished() ==> tokens@.len() == 0,
            !self.finished() ==> {
                &&& tokens@.len() == token_count(self.text(), self.index())
                &&& forall|k: int|
                    0 <= k < tokens@.len() ==> token_from(
                        self.text(),
                        nth_position(self.text(), self.index(), k as nat),
                        #[trigger] tokens@[k],
                    )
                &&& tokens@.last().kind is Eof
            },
            forall|k: int| 0 <= k < tokens@.len() ==> in_source(self.text(), #[trigger] tokens@[k]),
    {
        let mut lex = self;
        let mut tokens: Vec<Token> = Vec::new();
        let ghost s = self.text();
        let ghost i0 = self.index();
        if lex.eof {
            return tokens;
        }
        proof {
            lemma_count_positive(s, i0);
        }
        loop
            invariant
                lex.wf(),
                lex.text() == s,
                s == self.text(),
                i0 == self.index(),
                !self.finished(),
                lexable_from(s, i0),
                lex.finished() ==> tokens@.len() == token_count(s, i0) && tokens@.last().kind is Eof,
                !lex.finished() ==> {
                    &&& lexable_from(s, lex.index())
                    &&& lex.index() == nth_position(s, i0, tokens@.len())
                    &&& token_count(s, i0) == tokens@.len() + token_count(s, lex.index())
                },
                forall|k: int|
                    0 <= k < tokens@.len() ==> token_from(
                        s,
                        nth_position(s, i0, k as nat),
                        #[trigger] tokens@[k],
                    ),
                forall|k: int| 0 <= k < tokens@.len() ==> in_source(s, #[trigger] tokens@[k]),
            decreases s.len() - lex.index() + (if lex.finished() { 0int } else { 1int }),
        {
            if lex.eof {
                return tokens;
            }
            let ghost before = lex.index();
            proof {
                lemma_skip_trivia(s, before);
                lemma_scan_token(s, skip_trivia(s, before));
            }
            let t = lex.next();
            match t {
                Some(t) => {
                    proof {
                        if !(t.kind is Eof) {
                            lemma_count_positive(s, lex.index());
                        }
                    }
                    tokens.push(t);
                },
                None => {},
            }
        }
    }
}

/// A lexable source yields at least one token.
proof fn lemma_count_positive(s: Seq<char>, i: int)
    requires
        lexable_from(s, i),
    ensures
        token_count(s, i) >= 1,
{
}

/// Whether `source` splits into tokens, i.e. holds no character that starts no
/// token and no integer literal beyond 16 bits.
pub fn is_lexable(source: &str) -> (b: bool)
    requires
        4 * source@.len() + 8 <= usize::MAX,
    ensures
        b == lexable_from(source@, 0),
{
    let chars = chars_of(source);
    let mut i: usize = 0;
    loop
        invariant
            chars@ == source@,
            i <= chars@.len(),
            lexable_from(chars@, i as int) == lexable_from(chars@, 0),
        decreases chars@.len() - i,
    {
        let j = skip_trivia_at(&chars, i);
        proof {
            lemma_skip_trivia(chars@, i as int);
            lemma_scan_token(chars@, j as int);
        }
        match scan_at(&chars, j) {
            None => return false,
            Some((k, e)) => {
                if let Some(TokenKind::Eof) = k {
                    return true;
                }
                i = e;
            },
        }
    }
}

} // verus!
