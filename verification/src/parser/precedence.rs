//! Operators and how tightly they bind.

use vstd::prelude::*;
use crate::ast::expr::BinaryOp;
use crate::ast::pattern::TermOp;
use crate::token::{TokenKind, TokenKindView};

verus! {

/// How tightly an operator binds; the higher, the tighter.
#[derive(Clone, Copy, Debug, PartialEq, Eq, Structural)]
pub enum OperatorPrecedence {
    Call,
    Cast,
    Product,
    Sum,
    BitShift,
    Comparison,
    And,
    Or,
    Conditional,
    Lowest,
}

impl OperatorPrecedence {
    /// The level as a number: 9 for a call down to 0 for the lowest.
    pub open spec fn level(self) -> int {
        match self {
            OperatorPrecedence::Call => 9,
            OperatorPrecedence::Cast => 8,
            OperatorPrecedence::Product => 7,
            OperatorPrecedence::Sum => 6,
            OperatorPrecedence::BitShift => 5,
            OperatorPrecedence::Comparison => 4,
            OperatorPrecedence::And => 3,
            OperatorPrecedence::Or => 2,
            OperatorPrecedence::Conditional => 1,
            OperatorPrecedence::Lowest => 0,
        }
    }

    pub fn rank(self) -> (r: u8)
        ensures
            r == self.level(),
    {
        match self {
            OperatorPrecedence::Call => 9,
            OperatorPrecedence::Cast => 8,
            OperatorPrecedence::Product => 7,
            OperatorPrecedence::Sum => 6,
            OperatorPrecedence::BitShift => 5,
            OperatorPrecedence::Comparison => 4,
            OperatorPrecedence::And => 3,
            OperatorPrecedence::Or => 2,
            OperatorPrecedence::Conditional => 1,
            OperatorPrecedence::Lowest => 0,
        }
    }

    /// The precedence of the operator that a token writes between or after
    /// operands, if it writes one.
    pub open spec fn of(kind: TokenKindView) -> Option<OperatorPrecedence> {
        match kind {
            TokenKindView::LParen => Some(OperatorPrecedence::Call),
            TokenKindView::Plus => Some(OperatorPrecedence::Sum),
            TokenKindView::Minus => Some(OperatorPrecedence::Sum),
            TokenKindView::Star => Some(OperatorPrecedence::Product),
            TokenKindView::Slash => Some(OperatorPrecedence::Product),
            TokenKindView::Mod => Some(OperatorPrecedence::Product),
            TokenKindView::Eq => Some(OperatorPrecedence::Comparison),
            TokenKindView::Ne => Some(OperatorPrecedence::Comparison),
            TokenKindView::Gt => Some(OperatorPrecedence::Comparison),
            TokenKindView::Ge => Some(OperatorPrecedence::Comparison),
            TokenKindView::Lt => Some(OperatorPrecedence::Comparison),
            TokenKindView::Le => Some(OperatorPrecedence::Comparison),
            TokenKindView::LShift => Some(OperatorPrecedence::BitShift),
            TokenKindView::RShift => Some(OperatorPrecedence::BitShift),
            TokenKindView::LogOr => Some(OperatorPrecedence::Or),
            TokenKindView::XOr => Some(OperatorPrecedence::Or),
            TokenKindView::LogAnd => Some(OperatorPrecedence::And),
            TokenKindView::Condition => Some(OperatorPrecedence::Conditional),
            TokenKindView::Of => Some(OperatorPrecedence::Cast),
            _ => None,
        }
    }

    pub fn try_from(kind: &TokenKind) -> (r: Option<OperatorPrecedence>)
        ensures
            r == OperatorPrecedence::of(kind.view()),
    {
        match kind {
            TokenKind::LParen => Some(OperatorPrecedence::Call),
            TokenKind::Plus | TokenKind::Minus => Some(OperatorPrecedence::Sum),
            TokenKind::Star | TokenKind::Slash | TokenKind::Mod => Some(
                OperatorPrecedence::Product,
            ),
            TokenKind::Eq | TokenKind::Ne | TokenKind::Gt | TokenKind::Ge | TokenKind::Lt
            | TokenKind::Le => Some(OperatorPrecedence::Comparison),
            TokenKind::LShift | TokenKind::RShift => Some(OperatorPrecedence::BitShift),
            TokenKind::LogOr | TokenKind::XOr => Some(OperatorPrecedence::Or),
            TokenKind::LogAnd => Some(OperatorPrecedence::And),
            TokenKind::Condition => Some(OperatorPrecedence::Conditional),
            TokenKind::Of => Some(OperatorPrecedence::Cast),
            _ => None,
        }
    }
}

/// The binary operator that a token writes, with its precedence.
pub open spec fn binary_operator(kind: TokenKindView) -> Option<(BinaryOp, OperatorPrecedence)> {
    match kind {
        TokenKindView::Plus => Some((BinaryOp::Add, OperatorPrecedence::Sum)),
        TokenKindView::Minus => Some((BinaryOp::Sub, OperatorPrecedence::Sum)),
        TokenKindView::Star => Some((BinaryOp::Mul, OperatorPrecedence::Product)),
        TokenKindView::Slash => Some((BinaryOp::Div, OperatorPrecedence::Product)),
        TokenKindView::Mod => Some((BinaryOp::Mod, OperatorPrecedence::Product)),
        TokenKindView::Eq => Some((BinaryOp::Eq, OperatorPrecedence::Comparison)),
        TokenKindView::Ne => Some((BinaryOp::Ne, OperatorPrecedence::Comparison)),
        TokenKindView::Gt => Some((BinaryOp::Gt, OperatorPrecedence::Comparison)),
        TokenKindView::Ge => Some((BinaryOp::Ge, OperatorPrecedence::Comparison)),
        TokenKindView::Lt => Some((BinaryOp::Lt, OperatorPrecedence::Comparison)),
        TokenKindView::Le => Some((BinaryOp::Le, OperatorPrecedence::Comparison)),
        TokenKindView::LShift => Some((BinaryOp::LShift, OperatorPrecedence::BitShift)),
        TokenKindView::RShift => Some((BinaryOp::RShift, OperatorPrecedence::BitShift)),
        TokenKindView::LogOr => Some((BinaryOp::Or, OperatorPrecedence::Or)),
        TokenKindView::LogAnd => Some((BinaryOp::And, OperatorPrecedence::And)),
        TokenKindView::XOr => Some((BinaryOp::XOr, OperatorPrecedence::Or)),
        _ => None,
    }
}

pub fn binary_operator_of(kind: &TokenKind) -> (r: Option<(BinaryOp, OperatorPrecedence)>)
    ensures
        r == binary_operator(kind.view()),
{
    match kind {
        TokenKind::Plus => Some((BinaryOp::Add, OperatorPrecedence::Sum)),
        TokenKind::Minus => Some((BinaryOp::Sub, OperatorPrecedence::Sum)),
        TokenKind::Star => Some((BinaryOp::Mul, OperatorPrecedence::Product)),
        TokenKind::Slash => Some((BinaryOp::Div, OperatorPrecedence::Product)),
        TokenKind::Mod => Some((BinaryOp::Mod, OperatorPrecedence::Product)),
        TokenKind::Eq => Some((BinaryOp::Eq, OperatorPrecedence::Comparison)),
        TokenKind::Ne => Some((BinaryOp::Ne, OperatorPrecedence::Comparison)),
        TokenKind::Gt => Some((BinaryOp::Gt, OperatorPrecedence::Comparison)),
        TokenKind::Ge => Some((BinaryOp::Ge, OperatorPrecedence::Comparison)),
        TokenKind::Lt => Some((BinaryOp::Lt, OperatorPrecedence::Comparison)),
        TokenKind::Le => Some((BinaryOp::Le, OperatorPrecedence::Comparison)),
        TokenKind::LShift => Some((BinaryOp::LShift, OperatorPrecedence::BitShift)),
        TokenKind::RShift => Some((BinaryOp::RShift, OperatorPrecedence::BitShift)),
        TokenKind::LogOr => Some((BinaryOp::Or, OperatorPrecedence::Or)),
        TokenKind::LogAnd => Some((BinaryOp::And, OperatorPrecedence::And)),
        TokenKind::XOr => Some((BinaryOp::XOr, OperatorPrecedence::Or)),
        _ => None,
    }
}

/// How tightly a pattern operator binds: `&` tighter than `|`.
#[derive(Clone, Copy, Debug, PartialEq, Eq, Structural)]
pub enum PatternPrecedence {
    And,
    Or,
    Lowest,
}

impl PatternPrecedence {
    pub open spec fn level(self) -> int {
        match self {
            PatternPrecedence::And => 2,
            PatternPrecedence::Or => 1,
            PatternPrecedence::Lowest => 0,
        }
    }

    pub fn rank(self) -> (r: u8)
        ensures
            r == self.level(),
    {
        match self {
            PatternPrecedence::And => 2,
            PatternPrecedence::Or => 1,
            PatternPrecedence::Lowest => 0,
        }
    }

    /// The precedence of the pattern operator that a token writes.
    pub open spec fn of(kind: TokenKindView) -> Option<PatternPrecedence> {
        match kind {
            TokenKindView::LogAnd => Some(PatternPrecedence::And),
            TokenKindView::LogOr => Some(PatternPrecedence::Or),
            _ => None,
        }
    }

    pub fn try_from(kind: &TokenKind) -> (r: Option<PatternPrecedence>)
        ensures
            r == PatternPrecedence::of(kind.view()),
    {
        match kind {
            TokenKind::LogAnd => Some(PatternPrecedence::And),
            TokenKind::LogOr => Some(PatternPrecedence::Or),
            _ => None,
        }
    }
}

/// The comparison that a token writes in front of a pattern term.
pub open spec fn term_operator(kind: TokenKindView) -> Option<TermOp> {
    match kind {
        TokenKindView::Eq => Some(TermOp::Eq),
        TokenKindView::Ne => Some(TermOp::Ne),
        TokenKindView::Gt => Some(TermOp::Gt),
        TokenKindView::Ge => Some(TermOp::Ge),
        TokenKindView::Lt => Some(TermOp::Lt),
        TokenKindView::Le => Some(TermOp::Le),
        _ => None,
    }
}

pub fn term_operator_of(kind: &TokenKind) -> (r: Option<TermOp>)
    ensures
        r == term_operator(kind.view()),
{
    match kind {
        TokenKind::Eq => Some(TermOp::Eq),
        TokenKind::Ne => Some(TermOp::Ne),
        TokenKind::Gt => Some(TermOp::Gt),
        TokenKind::Ge => Some(TermOp::Ge),
        TokenKind::Lt => Some(TermOp::Lt),
        TokenKind::Le => Some(TermOp::Le),
        _ => None,
    }
}

} // verus!
