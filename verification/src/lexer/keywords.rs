//! The reserved words of the language.

use vstd::prelude::*;
use crate::lexer::token::TokenKind;

verus! {

/// The keyword token a word stands for, if it is reserved. `int` and `i16`
/// both name the 16-bit integer type.
pub open spec fn keyword_of(w: Seq<char>) -> Option<TokenKind> {
    if w == seq!['f', 'n'] {
        Some(TokenKind::Fn)
    } else if w == seq!['l', 'e', 't'] {
        Some(TokenKind::Let)
    } else if w == seq!['c', 'o', 'n', 's', 't'] {
        Some(TokenKind::Const)
    } else if w == seq!['r', 'e', 't', 'u', 'r', 'n'] {
        Some(TokenKind::Return)
    } else if w == seq!['i', 'f'] {
        Some(TokenKind::If)
    } else if w == seq!['e', 'l', 's', 'e'] {
        Some(TokenKind::Else)
    } else if w == seq!['w', 'h', 'i', 'l', 'e'] {
        Some(TokenKind::While)
    } else if w == seq!['f', 'o', 'r'] {
        Some(TokenKind::For)
    } else if w == seq!['r', 'e', 'p', 'e', 'a', 't'] {
        Some(TokenKind::Repeat)
    } else if w == seq!['s', 't', 'r', 'u', 'c', 't'] {
        Some(TokenKind::Struct)
    } else if w == seq!['t', 'r', 'u', 'e'] {
        Some(TokenKind::True)
    } else if w == seq!['f', 'a', 'l', 's', 'e'] {
        Some(TokenKind::False)
    } else if w == seq!['i', 'n', 't'] {
        Some(TokenKind::I16)
    } else if w == seq!['i', '1', '6'] {
        Some(TokenKind::I16)
    } else if w == seq!['b', 'o', 'o', 'l'] {
        Some(TokenKind::Bool)
    } else {
        None
    }
}

/// Whether `chars[start..end]` spells `word`.
fn spells(chars: &Vec<char>, start: usize, end: usize, word: &[char]) -> (b: bool)
    requires
        start <= end <= chars@.len(),
    ensures
        b == (chars@.subrange(start as int, end as int) == word@),
{
    if end - start != word.len() {
        return false;
    }
    let mut k: usize = 0;
    while k < word.len()
        invariant
            start <= end <= chars@.len(),
            end - start == word@.len(),
            0 <= k <= word@.len(),
            forall|m: int| 0 <= m < k ==> chars@[start + m] == word@[m],
        decreases word@.len() - k,
    {
        if chars[start + k] != word[k] {
            assert(chars@.subrange(start as int, end as int)[k as int] != word@[k as int]);
            return false;
        }
        k += 1;
    }
    assert(chars@.subrange(start as int, end as int) =~= word@);
    true
}

/// The keyword that `chars[start..end]` spells, if any (see [`keyword_of`]).
pub fn keyword(chars: &Vec<char>, start: usize, end: usize) -> (r: Option<TokenKind>)
    requires
        start <= end <= chars@.len(),
    ensures
        r == keyword_of(chars@.subrange(start as int, end as int)),
{
    let w = Ghost(chars@.subrange(start as int, end as int));
    if spells(chars, start, end, &['f', 'n']) {
        Some(TokenKind::Fn)
    } else if spells(chars, start, end, &['l', 'e', 't']) {
        Some(TokenKind::Let)
    } else if spells(chars, start, end, &['c', 'o', 'n', 's', 't']) {
        Some(TokenKind::Const)
    } else if spells(chars, start, end, &['r', 'e', 't', 'u', 'r', 'n']) {
        Some(TokenKind::Return)
    } else if spells(chars, start, end, &['i', 'f']) {
        Some(TokenKind::If)
    } else if spells(chars, start, end, &['e', 'l', 's', 'e']) {
        Some(TokenKind::Else)
    } else if spells(chars, start, end, &['w', 'h', 'i', 'l', 'e']) {
        Some(TokenKind::While)
    } else if spells(chars, start, end, &['f', 'o', 'r']) {
        Some(TokenKind::For)
    } else if spells(chars, start, end, &['r', 'e', 'p', 'e', 'a', 't']) {
        Some(TokenKind::Repeat)
    } else if spells(chars, start, end, &['s', 't', 'r', 'u', 'c', 't']) {
        Some(TokenKind::Struct)
    } else if spells(chars, start, end, &['t', 'r', 'u', 'e']) {
        Some(TokenKind::True)
    } else if spells(chars, start, end, &['f', 'a', 'l', 's', 'e']) {
        Some(TokenKind::False)
    } else if spells(chars, start, end, &['i', 'n', 't']) {
        Some(TokenKind::I16)
    } else if spells(chars, start, end, &['i', '1', '6']) {
        Some(TokenKind::I16)
    } else if spells(chars, start, end, &['b', 'o', 'o', 'l']) {
        Some(TokenKind::Bool)
    } else {
        None
    }
}

} // verus!
