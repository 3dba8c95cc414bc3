//! The lexical grammar: where tokens start, where they end, and what they are.

use vstd::prelude::*;
use crate::lexer::chars::{digit_value, is_alpha, is_digit, is_hex_digit, is_whitespace, is_ws};
use crate::lexer::keywords::{keyword, keyword_of};
use crate::lexer::token::TokenKind;
use crate::text::{dec, digit_char};

verus! {

/// Whether the character at `n` exists and is `c`.
pub open spec fn at(s: Seq<char>, n: int, c: char) -> bool {
    0 <= n < s.len() && s[n] == c
}

/// The end of a `//` comment whose text starts at `i`: the next newline or the end.
pub open spec fn comment_end(s: Seq<char>, i: int) -> int
    decreases s.len() - i,
{
    if i >= s.len() || i < 0 || s[i] == '\n' {
        i
    } else {
        comment_end(s, i + 1)
    }
}

pub proof fn lemma_comment_end(s: Seq<char>, i: int)
    requires
        0 <= i,
    ensures
        i <= comment_end(s, i),
        i <= s.len() ==> comment_end(s, i) <= s.len(),
    decreases s.len() - i,
{
    if i < s.len() && s[i] != '\n' {
        lemma_comment_end(s, i + 1);
    }
}

/// The first position at or after `i` that is neither whitespace nor inside a comment.
pub open spec fn skip_trivia(s: Seq<char>, i: int) -> int
    decreases s.len() - i,
{
    if i < 0 || i >= s.len() {
        i
    } else if is_ws(s[i]) {
        skip_trivia(s, i + 1)
    } else if at(s, i, '/') && at(s, i + 1, '/') {
        proof {
            lemma_comment_end(s, i + 2);
        }
        skip_trivia(s, comment_end(s, i + 2))
    } else {
        i
    }
}

pub proof fn lemma_skip_trivia(s: Seq<char>, i: int)
    requires
        0 <= i <= s.len(),
    ensures
        i <= skip_trivia(s, i) <= s.len(),
    decreases s.len() - i,
{
    if i < s.len() {
        if is_ws(s[i]) {
            lemma_skip_trivia(s, i + 1);
        } else if at(s, i, '/') && at(s, i + 1, '/') {
            lemma_comment_end(s, i + 2);
            lemma_skip_trivia(s, comment_end(s, i + 2));
        }
    }
}

/// The end of the run of characters satisfying the class `cls` starting at `i`
/// (`cls` is 0 for decimal digits, 1 for hexadecimal digits, 2 for identifier characters).
pub open spec fn run_end(s: Seq<char>, i: int, cls: int) -> int
    decreases s.len() - i,
{
    if i < 0 || i >= s.len() {
        i
    } else if in_class(s[i], cls) {
        run_end(s, i + 1, cls)
    } else {
        i
    }
}

/// Membership in the character classes used by [`run_end`].
pub open spec fn in_class(c: char, cls: int) -> bool {
    if cls == 0 {
        is_digit(c)
    } else if cls == 1 {
        is_hex_digit(c)
    } else {
        is_alpha(c) || is_digit(c) || c == '_' || c == '$'
    }
}

pub proof fn lemma_run_end(s: Seq<char>, i: int, cls: int)
    requires
        0 <= i <= s.len(),
    ensures
        i <= run_end(s, i, cls) <= s.len(),
        forall|k: int| i <= k < run_end(s, i, cls) ==> in_class(#[trigger] s[k], cls),
        run_end(s, i, cls) < s.len() ==> !in_class(s[run_end(s, i, cls)], cls),
    decreases s.len() - i,
{
    if i < s.len() && in_class(s[i], cls) {
        lemma_run_end(s, i + 1, cls);
    }
}

/// The value of the digits `s[i..j]` read in base `base`.
pub open spec fn digits_value(s: Seq<char>, i: int, j: int, base: nat) -> nat
    decreases j - i,
{
    if j <= i {
        0
    } else {
        digits_value(s, i, j - 1, base) * base + digit_value(s[j - 1])
    }
}

pub proof fn lemma_digits_value_monotonic(s: Seq<char>, i: int, k: int, j: int, base: nat)
    requires
        i <= k <= j,
        base >= 1,
    ensures
        digits_value(s, i, k, base) <= digits_value(s, i, j, base),
    decreases j - k,
{
    if k < j {
        lemma_digits_value_monotonic(s, i, k, j - 1, base);
        assert(digits_value(s, i, j - 1, base) <= digits_value(s, i, j - 1, base) * base)
            by (nonlinear_arith)
            requires
                base >= 1,
        ;
    }
}

/// The token that starts at `i` (a position after trivia), and where it ends.
/// `None` means the text there is not a token (an illegal character, or an
/// integer literal that does not fit in 16 bits). In `Some((k, e))`, `k` is
/// `None` for an identifier, whose text is `s[i..e]`.
pub open spec fn scan_token(s: Seq<char>, i: int) -> Option<(Option<TokenKind>, int)> {
    if i >= s.len() {
        Some((Some(TokenKind::Eof), i))
    } else {
        let c = s[i];
        let n = i + 1;
        if c == '(' {
            Some((Some(TokenKind::LeftParen), n))
        } else if c == ')' {
            Some((Some(TokenKind::RightParen), n))
        } else if c == '{' {
            Some((Some(TokenKind::LeftBrace), n))
        } else if c == '}' {
            Some((Some(TokenKind::RightBrace), n))
        } else if c == '[' {
            Some((Some(TokenKind::LeftBracket), n))
        } else if c == ']' {
            Some((Some(TokenKind::RightBracket), n))
        } else if c == ';' {
            Some((Some(TokenKind::Semi), n))
        } else if c == ',' {
            Some((Some(TokenKind::Comma), n))
        } else if c == '.' {
            Some((Some(TokenKind::Dot), n))
        } else if c == '~' {
            Some((Some(TokenKind::BitNot), n))
        } else if c == '^' {
            Some((Some(TokenKind::BitXor), n))
        } else if c == ':' {
            if at(s, n, ':') {
                Some((Some(TokenKind::ColonColon), n + 1))
            } else {
                Some((Some(TokenKind::Colon), n))
            }
        } else if c == '&' {
            if at(s, n, '&') {
                Some((Some(TokenKind::And), n + 1))
            } else {
                Some((Some(TokenKind::BitAnd), n))
            }
        } else if c == '|' {
            if at(s, n, '|') {
                Some((Some(TokenKind::Or), n + 1))
            } else {
                Some((Some(TokenKind::BitOr), n))
            }
        } else if c == '!' {
            if at(s, n, '=') {
                Some((Some(TokenKind::BangEqual), n + 1))
            } else {
                Some((Some(TokenKind::Bang), n))
            }
        } else if c == '=' {
            if at(s, n, '=') {
                Some((Some(TokenKind::Equality), n + 1))
            } else {
                Some((Some(TokenKind::Equal), n))
            }
        } else if c == '+' {
            if at(s, n, '=') {
                Some((Some(TokenKind::PlusEqual), n + 1))
            } else if at(s, n, '+') {
                Some((Some(TokenKind::PlusPlus), n + 1))
            } else {
                Some((Some(TokenKind::Plus), n))
            }
        } else if c == '-' {
            if at(s, n, '=') {
                Some((Some(TokenKind::MinusEqual), n + 1))
            } else if at(s, n, '-') {
                Some((Some(TokenKind::MinusMinus), n + 1))
            } else if at(s, n, '>') {
                Some((Some(TokenKind::Arrow), n + 1))
            } else {
                Some((Some(TokenKind::Minus), n))
            }
        } else if c == '*' {
            if at(s, n, '=') {
                Some((Some(TokenKind::StarEqual), n + 1))
            } else {
                Some((Some(TokenKind::Star), n))
            }
        } else if c == '/' {
            if at(s, n, '=') {
                Some((Some(TokenKind::SlashEqual), n + 1))
            } else {
                Some((Some(TokenKind::Slash), n))
            }
        } else if c == '%' {
            if at(s, n, '=') {
                Some((Some(TokenKind::PercentEqual), n + 1))
            } else {
                Some((Some(TokenKind::Percent), n))
            }
        } else if c == '<' {
            if at(s, n, '=') {
                Some((Some(TokenKind::Lte), n + 1))
            } else if at(s, n, '<') {
                Some((Some(TokenKind::LeftShift), n + 1))
            } else {
                Some((Some(TokenKind::Lt), n))
            }
        } else if c == '>' {
            if at(s, n, '=') {
                Some((Some(TokenKind::Gte), n + 1))
            } else if at(s, n, '>') {
                Some((Some(TokenKind::RightShift), n + 1))
            } else {
                Some((Some(TokenKind::Gt), n))
            }
        } else if is_digit(c) {
            if c == '0' && (at(s, n, 'x') || at(s, n, 'X')) {
                let e = run_end(s, n + 1, 1);
                let v = digits_value(s, n + 1, e, 16);
                if e == n + 1 || v > 0xffff {
                    None
                } else {
                    Some((Some(TokenKind::Integer(v as u16)), e))
                }
            } else {
                let e = run_end(s, i, 0);
                let v = digits_value(s, i, e, 10);
                if v > 0xffff {
                    None
                } else {
                    Some((Some(TokenKind::Integer(v as u16)), e))
                }
            }
        } else if is_alpha(c) || c == '_' {
            let e = run_end(s, n, 2);
            match keyword_of(s.subrange(i, e)) {
                Some(k) => Some((Some(k), e)),
                None => Some((None, e)),
            }
        } else {
            None
        }
    }
}

/// Every token but the end marker takes at least one character, and none runs
/// past the end of the source.
pub proof fn lemma_scan_token(s: Seq<char>, i: int)
    requires
        0 <= i <= s.len(),
    ensures
        scan_token(s, i) matches Some((k, e)) ==> {
            &&& i <= e <= s.len()
            &&& (k == Some(TokenKind::Eof) <==> i == s.len())
            &&& (i < s.len() ==> i < e)
        },
{
    if i < s.len() {
        lemma_run_end(s, i + 1, 0);
        lemma_run_end(s, i + 1, 1);
        lemma_run_end(s, i + 1, 2);
        if i + 2 <= s.len() {
            lemma_run_end(s, i + 2, 1);
        }
        lemma_run_end(s, i, 0);
    }
}

/// Whether the source from position `i` on splits into tokens up to the end marker.
pub open spec fn lexable_from(s: Seq<char>, i: int) -> bool
    decreases s.len() - i,
{
    if i < 0 || i > s.len() {
        false
    } else {
        let j = skip_trivia(s, i);
        match scan_token(s, j) {
            None => false,
            Some((k, e)) => {
                if k == Some(TokenKind::Eof) {
                    true
                } else {
                    proof {
                        lemma_skip_trivia(s, i);
                        lemma_scan_token(s, j);
                    }
                    lexable_from(s, e)
                }
            },
        }
    }
}

/// The position after the token that follows trivia at `i`.
pub open spec fn next_token_end(s: Seq<char>, i: int) -> int {
    match scan_token(s, skip_trivia(s, i)) {
        Some((_, e)) => e,
        None => i,
    }
}

/// Whether `k` is the kind scanned as `sk` from the text `text`.
pub open spec fn kind_matches(k: TokenKind, sk: Option<TokenKind>, text: Seq<char>) -> bool {
    match sk {
        Some(x) => k == x,
        None => k is Ident && k->Ident_0@ == text,
    }
}

/// `is_whitespace` is checked character by character; trivia between tokens
/// is skipped here, returning its end.
pub fn skip_trivia_at(chars: &Vec<char>, i: usize) -> (j: usize)
    requires
        i <= chars@.len(),
    ensures
        j as int == skip_trivia(chars@, i as int),
{
    let mut j = i;
    loop
        invariant
            i <= j <= chars@.len(),
            skip_trivia(chars@, j as int) == skip_trivia(chars@, i as int),
        decreases chars@.len() - j,
    {
        if j < chars.len() && is_whitespace(chars[j]) {
            j += 1;
        } else if j < chars.len() && j + 1 < chars.len() && chars[j] == '/' && chars[j + 1] == '/' {
            let mut k = j + 2;
            while k < chars.len() && chars[k] != '\n'
                invariant
                    j + 2 <= k <= chars@.len(),
                    comment_end(chars@, k as int) == comment_end(chars@, j + 2),
                decreases chars@.len() - k,
            {
                k += 1;
            }
            j = k;
        } else {
            return j;
        }
    }
}

/// Membership in a character class (see [`in_class`]).
fn in_class_exec(c: char, cls: u8) -> (b: bool)
    requires
        cls <= 2,
    ensures
        b == in_class(c, cls as int),
{
    if cls == 0 {
        '0' <= c && c <= '9'
    } else if cls == 1 {
        ('0' <= c && c <= '9') || ('a' <= c && c <= 'f') || ('A' <= c && c <= 'F')
    } else {
        ('a' <= c && c <= 'z') || ('A' <= c && c <= 'Z') || ('0' <= c && c <= '9') || c == '_'
            || c == '$'
    }
}

/// The end of the run of class `cls` starting at `i` (see [`run_end`]).
pub(crate) fn run_end_at(chars: &Vec<char>, i: usize, cls: u8) -> (e: usize)
    requires
        i <= chars@.len(),
        cls <= 2,
    ensures
        e as int == run_end(chars@, i as int, cls as int),
{
    let mut e = i;
    while e < chars.len() && in_class_exec(chars[e], cls)
        invariant
            i <= e <= chars@.len(),
            cls <= 2,
            run_end(chars@, e as int, cls as int) == run_end(chars@, i as int, cls as int),
        decreases chars@.len() - e,
    {
        e += 1;
    }
    e
}

/// The value of the digits `chars[i..e]` in `base`, which the caller knows to fit.
pub(crate) fn integer(chars: &Vec<char>, i: usize, e: usize, base: u32) -> (v: u16)
    requires
        i <= e <= chars@.len(),
        base == 10 || base == 16,
        digits_value(chars@, i as int, e as int, base as nat) <= 0xffff,
        forall|k: int| i <= k < e ==> is_hex_digit(#[trigger] chars@[k]),
    ensures
        v as nat == digits_value(chars@, i as int, e as int, base as nat),
{
    let mut v: u32 = 0;
    let mut k = i;
    while k < e
        invariant
            i <= k <= e <= chars@.len(),
            base == 10 || base == 16,
            digits_value(chars@, i as int, e as int, base as nat) <= 0xffff,
            forall|m: int| i <= m < e ==> is_hex_digit(#[trigger] chars@[m]),
            v as nat == digits_value(chars@, i as int, k as int, base as nat),
        decreases e - k,
    {
        let c = chars[k];
        let d: u32 = if '0' <= c && c <= '9' {
            c as u32 - '0' as u32
        } else if 'a' <= c && c <= 'f' {
            c as u32 - 'a' as u32 + 10
        } else {
            c as u32 - 'A' as u32 + 10
        };
        proof {
            lemma_digits_value_monotonic(chars@, i as int, k + 1, e as int, base as nat);
        }
        v = v * base + d;
        k += 1;
    }
    v as u16
}

/// The token that starts at `i`, as [`scan_token`] describes it.
pub fn scan_at(chars: &Vec<char>, i: usize) -> (r: Option<(Option<TokenKind>, usize)>)
    requires
        i <= chars@.len(),
    ensures
        match r {
            None => scan_token(chars@, i as int) is None,
            Some((k, e)) => scan_token(chars@, i as int) == Some((k, e as int)),
        },
{
    let len = chars.len();
    if i >= len {
        return Some((Some(TokenKind::Eof), i));
    }
    let c = chars[i];
    let n = i + 1;
    let next_is = |ch: char| -> (b: bool)
        ensures
            b == at(chars@, n as int, ch),
        { n < len && chars[n] == ch };
    if c == '(' {
        Some((Some(TokenKind::LeftParen), n))
    } else if c == ')' {
        Some((Some(TokenKind::RightParen), n))
    } else if c == '{' {
        Some((Some(TokenKind::LeftBrace), n))
    } else if c == '}' {
        Some((Some(TokenKind::RightBrace), n))
    } else if c == '[' {
        Some((Some(TokenKind::LeftBracket), n))
    } else if c == ']' {
        Some((Some(TokenKind::RightBracket), n))
    } else if c == ';' {
        Some((Some(TokenKind::Semi), n))
    } else if c == ',' {
        Some((Some(TokenKind::Comma), n))
    } else if c == '.' {
        Some((Some(TokenKind::Dot), n))
    } else if c == '~' {
        Some((Some(TokenKind::BitNot), n))
    } else if c == '^' {
        Some((Some(TokenKind::BitXor), n))
    } else if c == ':' {
        if next_is(':') {
            Some((Some(TokenKind::ColonColon), n + 1))
        } else {
            Some((Some(TokenKind::Colon), n))
        }
    } else if c == '&' {
        if next_is('&') {
            Some((Some(TokenKind::And), n + 1))
        } else {
            Some((Some(TokenKind::BitAnd), n))
        }
    } else if c == '|' {
        if next_is('|') {
            Some((Some(TokenKind::Or), n + 1))
        } else {
            Some((Some(TokenKind::BitOr), n))
        }
    } else if c == '!' {
        if next_is('=') {
            Some((Some(TokenKind::BangEqual), n + 1))
        } else {
            Some((Some(TokenKind::Bang), n))
        }
    } else if c == '=' {
        if next_is('=') {
            Some((Some(TokenKind::Equality), n + 1))
        } else {
            Some((Some(TokenKind::Equal), n))
        }
    } else if c == '+' {
        if next_is('=') {
            Some((Some(TokenKind::PlusEqual), n + 1))
        } else if next_is('+') {
            Some((Some(TokenKind::PlusPlus), n + 1))
        } else {
            Some((Some(TokenKind::Plus), n))
        }
    } else if c == '-' {
        if next_is('=') {
            Some((Some(TokenKind::MinusEqual), n + 1))
        } else if next_is('-') {
            Some((Some(TokenKind::MinusMinus), n + 1))
        } else if next_is('>') {
            Some((Some(TokenKind::Arrow), n + 1))
        } else {
            Some((Some(TokenKind::Minus), n))
        }
    } else if c == '*' {
        if next_is('=') {
            Some((Some(TokenKind::StarEqual), n + 1))
        } else {
            Some((Some(TokenKind::Star), n))
        }
    } else if c == '/' {
        if next_is('=') {
            Some((Some(TokenKind::SlashEqual), n + 1))
        } else {
            Some((Some(TokenKind::Slash), n))
        }
    } else if c == '%' {
        if next_is('=') {
            Some((Some(TokenKind::PercentEqual), n + 1))
        } else {
            Some((Some(TokenKind::Percent), n))
        }
    } else if c == '<' {
        if next_is('=') {
            Some((Some(TokenKind::Lte), n + 1))
        } else if next_is('<') {
            Some((Some(TokenKind::LeftShift), n + 1))
        } else {
            Some((Some(TokenKind::Lt), n))
        }
    } else if c == '>' {
        if next_is('=') {
            Some((Some(TokenKind::Gte), n + 1))
        } else if next_is('>') {
            Some((Some(TokenKind::RightShift), n + 1))
        } else {
            Some((Some(TokenKind::Gt), n))
        }
    } else if '0' <= c && c <= '9' {
        if c == '0' && (next_is('x') || next_is('X')) {
            let e = run_end_at(chars, n + 1, 1);
            proof {
                lemma_run_end(chars@, n + 1, 1);
            }
            if e == n + 1 {
                return None;
            }
            let fits = value_fits(chars, n + 1, e, 16);
            if !fits {
                return None;
            }
            let v = integer(chars, n + 1, e, 16);
            Some((Some(TokenKind::Integer(v)), e))
        } else {
            let e = run_end_at(chars, i, 0);
            proof {
                lemma_run_end(chars@, i as int, 0);
            }
            let fits = value_fits(chars, i, e, 10);
            if !fits {
                return None;
            }
            let v = integer(chars, i, e, 10);
            Some((Some(TokenKind::Integer(v)), e))
        }
    } else if ('a' <= c && c <= 'z') || ('A' <= c && c <= 'Z') || c == '_' {
        let e = run_end_at(chars, n, 2);
        proof {
            lemma_run_end(chars@, n as int, 2);
        }
        match keyword(chars, i, e) {
            Some(k) => Some((Some(k), e)),
            None => Some((None, e)),
        }
    } else {
        None
    }
}

/// Whether the digits `chars[i..e]` in `base` denote a value that fits in 16 bits.
pub(crate) fn value_fits(chars: &Vec<char>, i: usize, e: usize, base: u32) -> (b: bool)
    requires
        i <= e <= chars@.len(),
        base == 10 || base == 16,
        forall|k: int| i <= k < e ==> is_hex_digit(#[trigger] chars@[k]),
    ensures
        b == (digits_value(chars@, i as int, e as int, base as nat) <= 0xffff),
{
    let mut v: u32 = 0;
    let mut k = i;
    while k < e
        invariant
            i <= k <= e <= chars@.len(),
            base == 10 || base == 16,
            forall|m: int| i <= m < e ==> is_hex_digit(#[trigger] chars@[m]),
            v as nat == digits_value(chars@, i as int, k as int, base as nat),
            v <= 0xffff,
        decreases e - k,
    {
        let c = chars[k];
        let d: u32 = if '0' <= c && c <= '9' {
            c as u32 - '0' as u32
        } else if 'a' <= c && c <= 'f' {
            c as u32 - 'a' as u32 + 10
        } else {
            c as u32 - 'A' as u32 + 10
        };
        let next = v * base + d;
        if next > 0xffff {
            proof {
                lemma_digits_value_monotonic(chars@, i as int, k + 1, e as int, base as nat);
            }
            return false;
        }
        v = next;
        k += 1;
    }
    true
}

/// The operators spelled with two characters.
pub open spec fn two_char_operator(a: char, b: char) -> Option<TokenKind> {
    if a == '=' && b == '=' {
        Some(TokenKind::Equality)
    } else if a == '!' && b == '=' {
        Some(TokenKind::BangEqual)
    } else if a == '<' && b == '=' {
        Some(TokenKind::Lte)
    } else if a == '>' && b == '=' {
        Some(TokenKind::Gte)
    } else if a == '<' && b == '<' {
        Some(TokenKind::LeftShift)
    } else if a == '>' && b == '>' {
        Some(TokenKind::RightShift)
    } else if a == '&' && b == '&' {
        Some(TokenKind::And)
    } else if a == '|' && b == '|' {
        Some(TokenKind::Or)
    } else if a == '+' && b == '=' {
        Some(TokenKind::PlusEqual)
    } else if a == '-' && b == '=' {
        Some(TokenKind::MinusEqual)
    } else if a == '*' && b == '=' {
        Some(TokenKind::StarEqual)
    } else if a == '/' && b == '=' {
        Some(TokenKind::SlashEqual)
    } else if a == '%' && b == '=' {
        Some(TokenKind::PercentEqual)
    } else if a == '+' && b == '+' {
        Some(TokenKind::PlusPlus)
    } else if a == '-' && b == '-' {
        Some(TokenKind::MinusMinus)
    } else if a == '-' && b == '>' {
        Some(TokenKind::Arrow)
    } else if a == ':' && b == ':' {
        Some(TokenKind::ColonColon)
    } else {
        None
    }
}

/// The operators and punctuation spelled with one character.
pub open spec fn one_char_operator(c: char) -> Option<TokenKind> {
    if c == '(' {
        Some(TokenKind::LeftParen)
    } else if c == ')' {
        Some(TokenKind::RightParen)
    } else if c == '{' {
        Some(TokenKind::LeftBrace)
    } else if c == '}' {
        Some(TokenKind::RightBrace)
    } else if c == '[' {
        Some(TokenKind::LeftBracket)
    } else if c == ']' {
        Some(TokenKind::RightBracket)
    } else if c == ';' {
        Some(TokenKind::Semi)
    } else if c == ',' {
        Some(TokenKind::Comma)
    } else if c == '.' {
        Some(TokenKind::Dot)
    } else if c == ':' {
        Some(TokenKind::Colon)
    } else if c == '~' {
        Some(TokenKind::BitNot)
    } else if c == '^' {
        Some(TokenKind::BitXor)
    } else if c == '&' {
        Some(TokenKind::BitAnd)
    } else if c == '|' {
        Some(TokenKind::BitOr)
    } else if c == '!' {
        Some(TokenKind::Bang)
    } else if c == '=' {
        Some(TokenKind::Equal)
    } else if c == '+' {
        Some(TokenKind::Plus)
    } else if c == '-' {
        Some(TokenKind::Minus)
    } else if c == '*' {
        Some(TokenKind::Star)
    } else if c == '/' {
        Some(TokenKind::Slash)
    } else if c == '%' {
        Some(TokenKind::Percent)
    } else if c == '<' {
        Some(TokenKind::Lt)
    } else if c == '>' {
        Some(TokenKind::Gt)
    } else {
        None
    }
}

/// Operators are read by longest match: where the next two characters spell
/// an operator, that operator is the token and takes both; otherwise, where
/// the next character spells one, it is the token and takes that character.
/// So `>=` is `Gte`, `>>` is `RightShift`, and a `>` before anything else is
/// `Gt`.
pub proof fn lemma_operators_longest_match(s: Seq<char>, i: int)
    requires
        0 <= i < s.len(),
    ensures
        i + 1 < s.len() && two_char_operator(s[i], s[i + 1]) is Some ==> scan_token(s, i) == Some(
            (Some(two_char_operator(s[i], s[i + 1])->0), i + 2),
        ),
        !(i + 1 < s.len() && two_char_operator(s[i], s[i + 1]) is Some) && one_char_operator(s[i]) is Some
            ==> scan_token(s, i) == Some((Some(one_char_operator(s[i])->0), i + 1)),
{
}

proof fn lemma_dec_value(s: Seq<char>, i: int, n: nat)
    requires
        0 <= i,
        i + dec(n).len() <= s.len(),
        s.subrange(i, i + dec(n).len()) == dec(n),
    ensures
        digits_value(s, i, i + dec(n).len(), 10) == n,
        forall|k: int| i <= k < i + dec(n).len() ==> is_digit(#[trigger] s[k]),
    decreases n,
{
    let l = dec(n).len() as int;
    if n < 10 {
        assert(s[i] == s.subrange(i, i + l)[0]);
        assert(s[i] == digit_char(n));
        assert(digits_value(s, i, i, 10) == 0);
    } else {
        let m = n / 10;
        let lm = dec(m).len() as int;
        assert(dec(n) == dec(m) + seq![digit_char(n % 10)]);
        assert(l == lm + 1);
        assert(s.subrange(i, i + lm) =~= dec(m)) by {
            assert forall|k: int| 0 <= k < lm implies s.subrange(i, i + lm)[k] == dec(m)[k] by {
                assert(s.subrange(i, i + l)[k] == dec(n)[k]);
            }
        }
        lemma_dec_value(s, i, m);
        assert(s[i + lm] == s.subrange(i, i + l)[lm]);
        assert(s[i + lm] == digit_char(n % 10));
        assert(digits_value(s, i, i + l, 10) == digits_value(s, i, i + lm, 10) * 10 + digit_value(s[i + lm]));
        assert(m * 10 + n % 10 == n);
    }
}

proof fn lemma_run_end_digits(s: Seq<char>, j: int, e: int)
    requires
        0 <= j <= e <= s.len(),
        forall|k: int| j <= k < e ==> is_digit(#[trigger] s[k]),
        e == s.len() || !is_digit(s[e]),
    ensures
        run_end(s, j, 0) == e,
    decreases e - j,
{
    if j < e {
        lemma_run_end_digits(s, j + 1, e);
    }
}

/// Integer literals are read back as the numbers they write: the decimal
/// digits of any 16-bit number, followed by anything that does not continue
/// them, are one `Integer` token of that value, taking exactly the digits.
pub proof fn lemma_decimal_literal(s: Seq<char>, i: int, n: nat)
    requires
        0 <= i,
        n <= 0xffff,
        i + dec(n).len() <= s.len(),
        s.subrange(i, i + dec(n).len()) == dec(n),
        i + dec(n).len() == s.len() || (!is_digit(s[i + dec(n).len()]) && s[i + dec(n).len()] != 'x'
            && s[i + dec(n).len()] != 'X'),
    ensures
        scan_token(s, i) == Some((Some(TokenKind::Integer(n as u16)), i + dec(n).len())),
{
    let l = dec(n).len() as int;
    crate::text::lemma_dec_nonempty(n);
    lemma_dec_value(s, i, n);
    lemma_run_end_digits(s, i, i + l);
    assert(is_digit(s[i]));
    if l > 1 {
        assert(is_digit(s[i + 1]));
    }
}

} // verus!
