//! Binding power of operators.

use vstd::prelude::*;
use crate::lexer::token::TokenKind;

verus! {

#[derive(Debug, Clone, Copy, PartialEq, PartialOrd, Eq, Structural)]
pub enum Precedence {
    /// default precedence level for everything except binary/unary ops
    Lowest,
    /// = += -=
    Assignment,
    /// ||
    LogicalOr,
    /// &&
    LogicalAnd,
    /// |
    BitOr,
    /// ^
    BitXor,
    /// &
    BitAnd,
    /// == !=
    Equality,
    /// < <= > >=
    Cmp,
    /// << >>
    BitShift,
    /// + -
    Sum,
    /// * / %
    Product,
    /// -N
    Prefix,
    /// my_fn(x) [] . :: { ++ --
    Call,
}

/// The rank of a precedence level; a higher rank binds tighter.
pub open spec fn level(p: Precedence) -> nat {
    match p {
        Precedence::Lowest => 0,
        Precedence::Assignment => 1,
        Precedence::LogicalOr => 2,
        Precedence::LogicalAnd => 3,
        Precedence::BitOr => 4,
        Precedence::BitXor => 5,
        Precedence::BitAnd => 6,
        Precedence::Equality => 7,
        Precedence::Cmp => 8,
        Precedence::BitShift => 9,
        Precedence::Sum => 10,
        Precedence::Product => 11,
        Precedence::Prefix => 12,
        Precedence::Call => 13,
    }
}

/// The precedence with which a token continues an expression to its left.
pub open spec fn precedence_of(kind: TokenKind) -> Precedence {
    match kind {
        TokenKind::Equal | TokenKind::PlusEqual | TokenKind::MinusEqual | TokenKind::SlashEqual
        | TokenKind::StarEqual | TokenKind::PercentEqual => Precedence::Assignment,
        TokenKind::Or => Precedence::LogicalOr,
        TokenKind::And => Precedence::LogicalAnd,
        TokenKind::BitOr => Precedence::BitOr,
        TokenKind::BitXor => Precedence::BitXor,
        TokenKind::BitAnd => Precedence::BitAnd,
        TokenKind::Equality | TokenKind::BangEqual => Precedence::Equality,
        TokenKind::Gt | TokenKind::Gte | TokenKind::Lt | TokenKind::Lte => Precedence::Cmp,
        TokenKind::LeftShift | TokenKind::RightShift => Precedence::BitShift,
        TokenKind::Plus | TokenKind::Minus => Precedence::Sum,
        TokenKind::Star | TokenKind::Slash | TokenKind::Percent => Precedence::Product,
        TokenKind::LeftParen | TokenKind::PlusPlus | TokenKind::MinusMinus
        | TokenKind::LeftBracket | TokenKind::Dot | TokenKind::ColonColon
        | TokenKind::LeftBrace => Precedence::Call,
        _ => Precedence::Lowest,
    }
}

impl Precedence {
    /// The rank of this level (see [`level`]).
    pub fn level(&self) -> (n: u8)
        ensures
            n as nat == level(*self),
    {
        match self {
            Precedence::Lowest => 0,
            Precedence::Assignment => 1,
            Precedence::LogicalOr => 2,
            Precedence::LogicalAnd => 3,
            Precedence::BitOr => 4,
            Precedence::BitXor => 5,
            Precedence::BitAnd => 6,
            Precedence::Equality => 7,
            Precedence::Cmp => 8,
            Precedence::BitShift => 9,
            Precedence::Sum => 10,
            Precedence::Product => 11,
            Precedence::Prefix => 12,
            Precedence::Call => 13,
        }
    }

    /// The precedence of a token that follows an expression (see [`precedence_of`]);
    /// tokens that cannot continue an expression have the lowest.
    pub fn of(kind: &TokenKind) -> (p: Self)
        ensures
            p == precedence_of(*kind),
    {
        match kind {
            TokenKind::Equal | TokenKind::PlusEqual | TokenKind::MinusEqual
            | TokenKind::SlashEqual | TokenKind::StarEqual | TokenKind::PercentEqual => Self::Assignment,
            TokenKind::Or => Self::LogicalOr,
            TokenKind::And => Self::LogicalAnd,
            TokenKind::BitOr => Self::BitOr,
            TokenKind::BitXor => Self::BitXor,
            TokenKind::BitAnd => Self::BitAnd,
            TokenKind::Equality | TokenKind::BangEqual => Self::Equality,
            TokenKind::Gt | TokenKind::Gte | TokenKind::Lt | TokenKind::Lte => Self::Cmp,
            TokenKind::LeftShift | TokenKind::RightShift => Self::BitShift,
            TokenKind::Plus | TokenKind::Minus => Self::Sum,
            TokenKind::Star | TokenKind::Slash | TokenKind::Percent => Self::Product,
            TokenKind::LeftParen | TokenKind::PlusPlus | TokenKind::MinusMinus
            | TokenKind::LeftBracket | TokenKind::Dot | TokenKind::ColonColon
            | TokenKind::LeftBrace => Precedence::Call,
            _ => Self::Lowest,
        }
    }
}

/// The precedence table of the language, from loosest to tightest:
/// assignment, `||`, `&&`, `|`, `^`, `&`, equality, comparison, shifts,
/// `+ -`, `* / %`, prefix operators, and postfix operators and calls.
pub proof fn lemma_precedence_table()
    ensures
        level(precedence_of(TokenKind::Equal)) < level(precedence_of(TokenKind::Or)),
        level(precedence_of(TokenKind::Or)) < level(precedence_of(TokenKind::And)),
        level(precedence_of(TokenKind::And)) < level(precedence_of(TokenKind::BitOr)),
        level(precedence_of(TokenKind::BitOr)) < level(precedence_of(TokenKind::BitXor)),
        level(precedence_of(TokenKind::BitXor)) < level(precedence_of(TokenKind::BitAnd)),
        level(precedence_of(TokenKind::BitAnd)) < level(precedence_of(TokenKind::Equality)),
        level(precedence_of(TokenKind::Equality)) < level(precedence_of(TokenKind::Lt)),
        level(precedence_of(TokenKind::Lt)) < level(precedence_of(TokenKind::LeftShift)),
        level(precedence_of(TokenKind::LeftShift)) < level(precedence_of(TokenKind::Plus)),
        level(precedence_of(TokenKind::Plus)) < level(precedence_of(TokenKind::Star)),
        level(precedence_of(TokenKind::Star)) < level(Precedence::Prefix),
        level(Precedence::Prefix) < level(precedence_of(TokenKind::PlusPlus)),
        forall|k: TokenKind| #[trigger] level(precedence_of(k)) > 0 ==> !(k is Eof),
{
}

/// The level of a binary operator in the language's precedence table, where
/// 3 binds tightest (`* / %`) and 13 loosest (the assignments); `None` for a
/// token that is no binary operator.
pub open spec fn documented_level(k: TokenKind) -> Option<nat> {
    match k {
        TokenKind::Star | TokenKind::Slash | TokenKind::Percent => Some(3),
        TokenKind::Plus | TokenKind::Minus => Some(4),
        TokenKind::LeftShift | TokenKind::RightShift => Some(5),
        TokenKind::Lt | TokenKind::Lte | TokenKind::Gt | TokenKind::Gte => Some(6),
        TokenKind::Equality | TokenKind::BangEqual => Some(7),
        TokenKind::BitAnd => Some(8),
        TokenKind::BitXor => Some(9),
        TokenKind::BitOr => Some(10),
        TokenKind::And => Some(11),
        TokenKind::Or => Some(12),
        TokenKind::Equal | TokenKind::PlusEqual | TokenKind::MinusEqual | TokenKind::StarEqual
        | TokenKind::SlashEqual | TokenKind::PercentEqual => Some(13),
        _ => None,
    }
}

/// Binary operators bind as the language's precedence table says: of two
/// binary operators, the parser lets one bind tighter exactly when the table
/// puts it on a tighter level, and equally tight exactly when they share a
/// level. So `/` and `%` bind like `*`, tighter than `+` and `-`.
pub proof fn lemma_binary_precedence(a: TokenKind, b: TokenKind)
    requires
        documented_level(a) is Some,
        documented_level(b) is Some,
    ensures
        level(precedence_of(a)) > level(precedence_of(b)) <==> documented_level(a)->0 < documented_level(b)->0,
        level(precedence_of(a)) == level(precedence_of(b)) <==> documented_level(a)->0 == documented_level(b)->0,
        level(precedence_of(a)) + documented_level(a)->0 == 14,
{
}

} // verus!
