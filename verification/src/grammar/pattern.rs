//! The rules for patterns.

use vstd::prelude::*;
use crate::ast::expr::ExprView;
use crate::ast::pattern::{PatternTermView, PatternView, TermOp};
use crate::grammar::expr::expr;
use crate::grammar::{
    advance, expect_kind, forward, kind_at, left, loc_at, onward, Cursor, Parsed,
};
use crate::parser::context::Frame;
use crate::parser::precedence::{term_operator, PatternPrecedence};
use crate::source_file::Location;
use crate::token::{Lexeme, TokenKindView};

verus! {

/// The term of the comparison `op` with `e`.
pub open spec fn compared(op: TermOp, e: ExprView) -> PatternTermView {
    match op {
        TermOp::Lt => PatternTermView::Lt(e),
        TermOp::Le => PatternTermView::Le(e),
        TermOp::Gt => PatternTermView::Gt(e),
        TermOp::Ge => PatternTermView::Ge(e),
        TermOp::Ne => PatternTermView::Ne(e),
        TermOp::Eq => PatternTermView::Eq(e),
    }
}

/// Whether the pattern operator under the cursor binds tighter than
/// `precedence`.
pub open spec fn pattern_binds(toks: Seq<Lexeme>, c: Cursor, precedence: PatternPrecedence) -> bool {
    match PatternPrecedence::of(kind_at(toks, c)) {
        Some(p) => precedence.level() < p.level(),
        None => false,
    }
}

pub open spec fn pattern(toks: Seq<Lexeme>, c: Cursor) -> Parsed<(PatternView, Location)>
    decreases left(toks, c), 17nat,
{
    pattern_with(toks, c, PatternPrecedence::Lowest)
}

/// A prefix pattern, then every pattern operator that binds tighter than
/// `precedence`, each with its right operand.
pub open spec fn pattern_with(toks: Seq<Lexeme>, c: Cursor, precedence: PatternPrecedence) -> Parsed<
    (PatternView, Location),
>
    decreases left(toks, c), 16nat,
{
    match onward(toks, c, prefix_pattern(toks, c)) {
        Parsed::Failed(e, l) => Parsed::Failed(e, l),
        Parsed::Done(p, c1) => pattern_chain(toks, c1, p, precedence),
    }
}

/// The pattern operators behind `p` that bind tighter than `precedence`,
/// each applied to what stands before it.
pub open spec fn pattern_chain(
    toks: Seq<Lexeme>,
    c: Cursor,
    p: (PatternView, Location),
    precedence: PatternPrecedence,
) -> Parsed<(PatternView, Location)>
    decreases left(toks, c), 34nat,
{
    if pattern_binds(toks, c, precedence) {
        match onward(toks, c, infix_pattern(toks, c, p)) {
            Parsed::Failed(e, l) => Parsed::Failed(e, l),
            Parsed::Done(p1, c1) => pattern_chain(toks, c1, p1, precedence),
        }
    } else {
        Parsed::Done(p, c)
    }
}

/// The patterns behind the first of a list: each a comma and a pattern.
pub open spec fn pattern_items(toks: Seq<Lexeme>, c: Cursor, acc: Seq<(PatternView, Location)>) -> Parsed<
    Seq<(PatternView, Location)>,
>
    decreases left(toks, c), 33nat,
{
    if !(kind_at(toks, c) is Comma) {
        Parsed::Done(acc, c)
    } else {
        match onward(toks, c, advance(toks, c)) {
            Parsed::Failed(e, l) => Parsed::Failed(e, l),
            Parsed::Done(_, c1) => match forward(c1, pattern(toks, c1)) {
                Parsed::Failed(e, l) => Parsed::Failed(e, l),
                Parsed::Done(p, c2) => pattern_items(toks, c2, acc.push(p)),
            },
        }
    }
}

/// One pattern or more, with commas between them.
pub open spec fn pattern_list(toks: Seq<Lexeme>, c: Cursor) -> Parsed<Seq<(PatternView, Location)>>
    decreases left(toks, c), 18nat,
{
    match onward(toks, c, pattern(toks, c)) {
        Parsed::Failed(e, l) => Parsed::Failed(e, l),
        Parsed::Done(p, c1) => pattern_items(toks, c1, seq![p]),
    }
}

/// A name: by itself it binds what it matches; with patterns in
/// parentheses behind it, it is a variant.
pub open spec fn named_pattern(toks: Seq<Lexeme>, c: Cursor, name: Seq<char>) -> Parsed<
    (PatternView, Location),
>
    decreases left(toks, c), 14nat,
{
    let loc = loc_at(toks, c);
    match onward(toks, c, advance(toks, c)) {
        Parsed::Failed(e, l) => Parsed::Failed(e, l),
        Parsed::Done(_, c1) => if kind_at(toks, c1) is LParen {
            match onward(toks, c1, advance(toks, c1)) {
                Parsed::Failed(e, l) => Parsed::Failed(e, l),
                Parsed::Done(_, c2) => match pattern_list(toks, c2) {
                    Parsed::Failed(e, l) => Parsed::Failed(e, l),
                    Parsed::Done(inner, c3) => match expect_kind(toks, c3, TokenKindView::RParen) {
                        Parsed::Failed(e, l) => Parsed::Failed(e, l),
                        Parsed::Done(_, c4) => Parsed::Done(
                            (PatternView::Variant(name, inner), loc),
                            c4,
                        ),
                    },
                },
            }
        } else {
            Parsed::Done((PatternView::Query(name), loc), c1)
        },
    }
}

/// `[...]`: a list of patterns, which may be empty.
pub open spec fn list_pattern(toks: Seq<Lexeme>, c: Cursor) -> Parsed<(PatternView, Location)>
    decreases left(toks, c), 14nat,
{
    let loc = loc_at(toks, c);
    match onward(toks, c, advance(toks, c)) {
        Parsed::Failed(e, l) => Parsed::Failed(e, l),
        Parsed::Done(_, c1) => if kind_at(toks, c1) is RBracket {
            match advance(toks, c1) {
                Parsed::Failed(e, l) => Parsed::Failed(e, l),
                Parsed::Done(_, c2) => Parsed::Done((PatternView::List(Seq::empty()), loc), c2),
            }
        } else {
            match pattern_list(toks, c1) {
                Parsed::Failed(e, l) => Parsed::Failed(e, l),
                Parsed::Done(inner, c2) => match expect_kind(toks, c2, TokenKindView::RBracket) {
                    Parsed::Failed(e, l) => Parsed::Failed(e, l),
                    Parsed::Done(_, c3) => Parsed::Done(
                        (PatternView::List(inner), loc),
                        c3,
                    ),
                },
            }
        },
    }
}

/// A pattern in parentheses; its place is that of the opening
/// parenthesis.
pub open spec fn group_pattern(toks: Seq<Lexeme>, c: Cursor) -> Parsed<(PatternView, Location)>
    decreases left(toks, c), 14nat,
{
    let loc = loc_at(toks, c);
    match onward(toks, c, advance(toks, c)) {
        Parsed::Failed(e, l) => Parsed::Failed(e, l),
        Parsed::Done(_, c1) => match pattern(toks, c1) {
            Parsed::Failed(e, l) => Parsed::Failed(e, l),
            Parsed::Done(inner, c2) => match expect_kind(toks, c2, TokenKindView::RParen) {
                Parsed::Failed(e, l) => Parsed::Failed(e, l),
                Parsed::Done(_, c3) => Parsed::Done((inner.0, loc), c3),
            },
        },
    }
}

/// An expression outside of every construct.
pub open spec fn plain_expr(toks: Seq<Lexeme>, c: Cursor) -> Parsed<ExprView>
    decreases left(toks, c), 12nat,
{
    match expr(toks, c, seq![Frame::Empty]) {
        Parsed::Failed(e, l) => Parsed::Failed(e, l),
        Parsed::Done((e, _), c1) => Parsed::Done(e, c1),
    }
}

/// An expression, or two expressions with `..` between them, a range.
pub open spec fn term_pattern(toks: Seq<Lexeme>, c: Cursor) -> Parsed<(PatternView, Location)>
    decreases left(toks, c), 14nat,
{
    let loc = loc_at(toks, c);
    match forward(c, plain_expr(toks, c)) {
        Parsed::Failed(e, l) => Parsed::Failed(e, l),
        Parsed::Done(lower, c1) => if kind_at(toks, c1) is Range {
            match onward(toks, c1, advance(toks, c1)) {
                Parsed::Failed(e, l) => Parsed::Failed(e, l),
                Parsed::Done(_, c2) => match plain_expr(toks, c2) {
                    Parsed::Failed(e, l) => Parsed::Failed(e, l),
                    Parsed::Done(upper, c3) => Parsed::Done(
                        (PatternView::Term(PatternTermView::Range(lower, upper)), loc),
                        c3,
                    ),
                },
            }
        } else {
            Parsed::Done((PatternView::Term(PatternTermView::Basic(lower)), loc), c1)
        },
    }
}

/// A pattern without operators: `?`, a name, a variant with its patterns
/// in parentheses, a list in brackets, a pattern in parentheses, a
/// comparison, `..`, or an expression or range. Its place is that of its
/// first token.
pub open spec fn prefix_pattern(toks: Seq<Lexeme>, c: Cursor) -> Parsed<(PatternView, Location)>
    decreases left(toks, c), 15nat,
{
    let loc = loc_at(toks, c);
    match kind_at(toks, c) {
        TokenKindView::Ident(name) => named_pattern(toks, c, name),
        TokenKindView::QuestionMark => match advance(toks, c) {
            Parsed::Failed(e, l) => Parsed::Failed(e, l),
            Parsed::Done(_, c1) => Parsed::Done((PatternView::Any, loc), c1),
        },
        TokenKindView::LBracket => list_pattern(toks, c),
        TokenKindView::LParen => group_pattern(toks, c),
        TokenKindView::Range => match advance(toks, c) {
            Parsed::Failed(e, l) => Parsed::Failed(e, l),
            Parsed::Done(_, c1) => Parsed::Done((PatternView::Remaining, loc), c1),
        },
        _ => match term_operator(kind_at(toks, c)) {
            Some(op) => match prefix_pattern_term(toks, c, op) {
                Parsed::Failed(e, l) => Parsed::Failed(e, l),
                Parsed::Done(p, c1) => Parsed::Done((p, loc), c1),
            },
            None => term_pattern(toks, c),
        },
    }
}

/// A comparison and the expression that it compares with.
pub open spec fn prefix_pattern_term(toks: Seq<Lexeme>, c: Cursor, op: TermOp) -> Parsed<PatternView>
    decreases left(toks, c), 13nat,
{
    match onward(toks, c, advance(toks, c)) {
        Parsed::Failed(e, l) => Parsed::Failed(e, l),
        Parsed::Done(_, c1) => match plain_expr(toks, c1) {
            Parsed::Failed(e, l) => Parsed::Failed(e, l),
            Parsed::Done(e, c2) => Parsed::Done(PatternView::Term(compared(op, e)), c2),
        },
    }
}

/// `left & right` or `left | right`, at the place of the operator.
pub open spec fn infix_pattern(toks: Seq<Lexeme>, c: Cursor, operand: (PatternView, Location)) -> Parsed<
    (PatternView, Location),
>
    decreases left(toks, c), 14nat,
{
    match onward(toks, c, advance(toks, c)) {
        Parsed::Failed(e, l) => Parsed::Failed(e, l),
        Parsed::Done(_, c1) => if kind_at(toks, c) is LogAnd {
            match pattern_with(toks, c1, PatternPrecedence::And) {
                Parsed::Failed(e, l) => Parsed::Failed(e, l),
                Parsed::Done(right, c2) => Parsed::Done(
                    (
                        PatternView::And(Box::new(operand), Box::new(right)),
                        loc_at(toks, c),
                    ),
                    c2,
                ),
            }
        } else {
            match pattern_with(toks, c1, PatternPrecedence::Or) {
                Parsed::Failed(e, l) => Parsed::Failed(e, l),
                Parsed::Done(right, c2) => Parsed::Done(
                    (
                        PatternView::Or(Box::new(operand), Box::new(right)),
                        loc_at(toks, c),
                    ),
                    c2,
                ),
            }
        },
    }
}

} // verus!
