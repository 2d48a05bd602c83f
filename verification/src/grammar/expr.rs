//! The rules for expressions.

use vstd::prelude::*;
use crate::ast::expr::{BinaryOp, ExprKindView, ExprView, MatchKind, UnaryOp};
use crate::ast::pattern::PatternView;
use crate::ast::types::{
    literal_kind, TypeIndex, TypeKindView, ATOM_TYPE, BOOL_TYPE, FLOAT64_TYPE,
};
use crate::grammar::pattern::pattern_list;
use crate::grammar::stmt::stmt_in;
use crate::grammar::types::{string_type, type_};
use crate::grammar::{
    advance, expect_either, expect_kind, forward, get_type, kind_at, left, loc_at, onward,
    unexpected, Cursor, Parsed,
};
use crate::parser::context::Frame;
use crate::parser::precedence::{binary_operator, OperatorPrecedence};
use crate::parser::ParseErrorView;
use crate::source_file::Location;
use crate::text::index_of_name;
use crate::token::{Lexeme, TokenKindView};

verus! {

/// The expression under an implicit cast to `typ`.
pub open spec fn cast_to(e: ExprView, typ: TypeIndex) -> ExprView {
    ExprView { loc: e.loc, typ: Some(typ), kind: ExprKindView::ImplicitCast(Box::new(e)) }
}

/// The expression made to have the type `target`, where one is asked for:
/// unchanged when it has that type already, else under an implicit cast to
/// it.
pub open spec fn coerced(e: ExprView, target: Option<TypeIndex>) -> ExprView {
    match target {
        Some(t) => if e.typ == Some(t) {
            e
        } else {
            cast_to(e, t)
        },
        None => e,
    }
}

/// The kind of the operator `op` applied to `left` and `right`.
pub open spec fn applied(op: BinaryOp, left: ExprView, right: ExprView) -> ExprKindView {
    match op {
        BinaryOp::Add => ExprKindView::Add(Box::new(left), Box::new(right)),
        BinaryOp::Sub => ExprKindView::Sub(Box::new(left), Box::new(right)),
        BinaryOp::Mul => ExprKindView::Mul(Box::new(left), Box::new(right)),
        BinaryOp::Div => ExprKindView::Div(Box::new(left), Box::new(right)),
        BinaryOp::Mod => ExprKindView::Mod(Box::new(left), Box::new(right)),
        BinaryOp::And => ExprKindView::And(Box::new(left), Box::new(right)),
        BinaryOp::Or => ExprKindView::Or(Box::new(left), Box::new(right)),
        BinaryOp::XOr => ExprKindView::XOr(Box::new(left), Box::new(right)),
        BinaryOp::Eq => ExprKindView::Eq(Box::new(left), Box::new(right)),
        BinaryOp::Ne => ExprKindView::Ne(Box::new(left), Box::new(right)),
        BinaryOp::Gt => ExprKindView::Gt(Box::new(left), Box::new(right)),
        BinaryOp::Ge => ExprKindView::Ge(Box::new(left), Box::new(right)),
        BinaryOp::Lt => ExprKindView::Lt(Box::new(left), Box::new(right)),
        BinaryOp::Le => ExprKindView::Le(Box::new(left), Box::new(right)),
        BinaryOp::LShift => ExprKindView::LShift(Box::new(left), Box::new(right)),
        BinaryOp::RShift => ExprKindView::RShift(Box::new(left), Box::new(right)),
    }
}

/// The kind of the prefix operator `op` applied to `operand`.
pub open spec fn prefixed(op: UnaryOp, operand: ExprView) -> ExprKindView {
    match op {
        UnaryOp::Abs => ExprKindView::Abs(Box::new(operand)),
        UnaryOp::Not => ExprKindView::Not(Box::new(operand)),
    }
}

/// The node of a binary operator other than a comparison: the left
/// operand's type decides, and the right operand is coerced to it.
pub open spec fn binary_node(op: BinaryOp, loc: Location, left: ExprView, right: ExprView) -> ExprView {
    ExprView { loc, typ: left.typ, kind: applied(op, left, coerced(right, left.typ)) }
}

/// The node of a comparison: operands as for any binary operator, the
/// result of type `Bool`.
pub open spec fn comparison_node(op: BinaryOp, loc: Location, left: ExprView, right: ExprView) -> ExprView {
    ExprView { typ: Some(BOOL_TYPE), ..binary_node(op, loc, left, right) }
}

/// The node of `cond -> a, b`: the condition coerced to `Bool`, `b` coerced
/// to the type of `a`, which is the type of the whole.
pub open spec fn conditional_node(
    loc: Location,
    cond: ExprView,
    if_branch: ExprView,
    else_branch: ExprView,
) -> ExprView {
    ExprView {
        loc,
        typ: if_branch.typ,
        kind: ExprKindView::Conditional(
            Box::new(coerced(cond, Some(BOOL_TYPE))),
            Box::new(if_branch),
            Box::new(coerced(else_branch, if_branch.typ)),
        ),
    }
}

/// Whether evaluating the expression can have an effect: a `valof`, a
/// call, or a cast of one.
pub open spec fn effectful(e: ExprView) -> bool
    decreases e,
{
    match e.kind {
        ExprKindView::Cast(x) => effectful(*x),
        ExprKindView::ImplicitCast(x) => effectful(*x),
        ExprKindView::ValOf(_) => true,
        ExprKindView::FuncCall(_, _) => true,
        _ => false,
    }
}

/// Whether the operator under the cursor binds tighter than `precedence`.
pub open spec fn binds(toks: Seq<Lexeme>, c: Cursor, precedence: OperatorPrecedence) -> bool {
    match OperatorPrecedence::of(kind_at(toks, c)) {
        Some(p) => precedence.level() < p.level(),
        None => false,
    }
}

/// The keyword of a pattern-matching construct.
pub open spec fn match_word(kind: MatchKind) -> Seq<char> {
    match kind {
        MatchKind::Match => "match"@,
        MatchKind::Every => "every"@,
    }
}

pub open spec fn expr(toks: Seq<Lexeme>, c: Cursor, f: Seq<Frame>) -> Parsed<(ExprView, Seq<Frame>)>
    decreases left(toks, c), 10nat,
{
    expr_with(toks, c, f, OperatorPrecedence::Lowest)
}

/// A prefix term, then every operator that binds tighter than
/// `precedence`, each with its right operand.
pub open spec fn expr_with(
    toks: Seq<Lexeme>,
    c: Cursor,
    f: Seq<Frame>,
    precedence: OperatorPrecedence,
) -> Parsed<(ExprView, Seq<Frame>)>
    decreases left(toks, c), 9nat,
{
    match onward(toks, c, prefix_expr(toks, c, f)) {
        Parsed::Failed(e, l) => Parsed::Failed(e, l),
        Parsed::Done((e, f1), c1) => infix_chain(toks, c1, f1, e, precedence),
    }
}

/// The operators behind `e` that bind tighter than `precedence`, each
/// applied to what stands before it.
pub open spec fn infix_chain(
    toks: Seq<Lexeme>,
    c: Cursor,
    f: Seq<Frame>,
    e: ExprView,
    precedence: OperatorPrecedence,
) -> Parsed<(ExprView, Seq<Frame>)>
    decreases left(toks, c), 35nat,
{
    if binds(toks, c, precedence) {
        match onward(toks, c, infix_expr(toks, c, f, e)) {
            Parsed::Failed(e, l) => Parsed::Failed(e, l),
            Parsed::Done((e1, f1), c1) => infix_chain(toks, c1, f1, e1, precedence),
        }
    } else {
        Parsed::Done((e, f), c)
    }
}

/// The operator under the cursor, applied to `left`.
pub open spec fn infix_expr(toks: Seq<Lexeme>, c: Cursor, f: Seq<Frame>, operand: ExprView) -> Parsed<
    (ExprView, Seq<Frame>),
>
    decreases left(toks, c), 6nat,
{
    match binary_operator(kind_at(toks, c)) {
        Some((op, precedence)) => if op.is_comparison() {
            comparison(toks, c, f, operand, op)
        } else {
            binop(toks, c, f, operand, op, precedence)
        },
        None => if kind_at(toks, c) is LParen {
            call(toks, c, f, operand)
        } else if kind_at(toks, c) is Condition {
            conditional(toks, c, f, operand)
        } else {
            explicit_cast(toks, c, f, operand)
        },
    }
}

/// A primary expression, or a prefix operator with its operand.
pub open spec fn prefix_expr(toks: Seq<Lexeme>, c: Cursor, f: Seq<Frame>) -> Parsed<
    (ExprView, Seq<Frame>),
>
    decreases left(toks, c), 8nat,
{
    match kind_at(toks, c) {
        TokenKindView::ValOf => valof(toks, c, f),
        TokenKindView::LParen => parens(toks, c, f),
        TokenKindView::Match => match_expr(toks, c, f, MatchKind::Match),
        TokenKindView::Every => match_expr(toks, c, f, MatchKind::Every),
        TokenKindView::Abs => prefix_op(toks, c, f, UnaryOp::Abs),
        TokenKindView::Not => prefix_op(toks, c, f, UnaryOp::Not),
        TokenKindView::LogAnd => reference(toks, c, f),
        TokenKindView::At => dereference(toks, c, f),
        _ => primary(toks, c, f),
    }
}

/// A name or a literal; anything else is no expression.
pub open spec fn primary(toks: Seq<Lexeme>, c: Cursor, f: Seq<Frame>) -> Parsed<
    (ExprView, Seq<Frame>),
> {
    match kind_at(toks, c) {
        TokenKindView::Ident(name) => ident_expr(toks, c, f, name),
        TokenKindView::Atom(name) => atom_expr(toks, c, f, name),
        TokenKindView::True => bool_lit(toks, c, f),
        TokenKindView::False => bool_lit(toks, c, f),
        TokenKindView::IntegerLit(value) => integer_lit(toks, c, f, value),
        TokenKindView::FloatLit(mantissa, exponent) => float_lit(toks, c, f, mantissa, exponent),
        TokenKindView::StringLit(text) => string_lit(toks, c, f, text),
        _ => unexpected(toks, c, "expression"@),
    }
}

/// An identifier; its type is not known here.
pub open spec fn ident_expr(toks: Seq<Lexeme>, c: Cursor, f: Seq<Frame>, name: Seq<char>) -> Parsed<
    (ExprView, Seq<Frame>),
> {
    match advance(toks, c) {
        Parsed::Failed(e, l) => Parsed::Failed(e, l),
        Parsed::Done(_, c1) => Parsed::Done(
            (ExprView { loc: loc_at(toks, c), typ: None, kind: ExprKindView::Ident(name) }, f),
            c1,
        ),
    }
}

/// An atom, which is entered in the table of atoms; its type is `Atom`.
pub open spec fn atom_expr(toks: Seq<Lexeme>, c: Cursor, f: Seq<Frame>, name: Seq<char>) -> Parsed<
    (ExprView, Seq<Frame>),
> {
    match advance(toks, c) {
        Parsed::Failed(e, l) => Parsed::Failed(e, l),
        Parsed::Done(_, c1) => match index_of_name(c1.atoms, name) {
            Some(i) => Parsed::Done(
                (
                    ExprView {
                        loc: loc_at(toks, c),
                        typ: Some(ATOM_TYPE),
                        kind: ExprKindView::Atom(i as u32),
                    },
                    f,
                ),
                c1,
            ),
            None => if c1.atoms.len() < u32::MAX {
                Parsed::Done(
                    (
                        ExprView {
                            loc: loc_at(toks, c),
                            typ: Some(ATOM_TYPE),
                            kind: ExprKindView::Atom(c1.atoms.len() as u32),
                        },
                        f,
                    ),
                    Cursor { atoms: c1.atoms.push(name), ..c1 },
                )
            } else {
                Parsed::Failed(
                    ParseErrorView::Generic("The atom table is full."@),
                    loc_at(toks, c),
                )
            },
        },
    }
}

/// `true` or `false`, of type `Bool`.
pub open spec fn bool_lit(toks: Seq<Lexeme>, c: Cursor, f: Seq<Frame>) -> Parsed<
    (ExprView, Seq<Frame>),
> {
    match expect_either(toks, c, TokenKindView::True, TokenKindView::False) {
        Parsed::Failed(e, l) => Parsed::Failed(e, l),
        Parsed::Done(_, c1) => Parsed::Done(
            (
                ExprView {
                    loc: loc_at(toks, c),
                    typ: Some(BOOL_TYPE),
                    kind: if kind_at(toks, c) is True {
                        ExprKindView::True
                    } else {
                        ExprKindView::False
                    },
                },
                f,
            ),
            c1,
        ),
    }
}

/// An integer literal; its type is the first of `Int32`, `UInt32`, `Int64`,
/// `UInt64` that holds the value.
pub open spec fn integer_lit(toks: Seq<Lexeme>, c: Cursor, f: Seq<Frame>, value: u64) -> Parsed<
    (ExprView, Seq<Frame>),
> {
    match advance(toks, c) {
        Parsed::Failed(e, l) => Parsed::Failed(e, l),
        Parsed::Done(_, c1) => Parsed::Done(
            (
                ExprView {
                    loc: loc_at(toks, c),
                    typ: literal_kind(value).builtin_index(),
                    kind: ExprKindView::IntLit(value),
                },
                f,
            ),
            c1,
        ),
    }
}

/// A floating-point literal, of type `Float64`.
pub open spec fn float_lit(
    toks: Seq<Lexeme>,
    c: Cursor,
    f: Seq<Frame>,
    mantissa: Seq<char>,
    exponent: Option<Seq<char>>,
) -> Parsed<(ExprView, Seq<Frame>)> {
    match advance(toks, c) {
        Parsed::Failed(e, l) => Parsed::Failed(e, l),
        Parsed::Done(_, c1) => Parsed::Done(
            (
                ExprView {
                    loc: loc_at(toks, c),
                    typ: Some(FLOAT64_TYPE),
                    kind: ExprKindView::FloatLit(mantissa, exponent),
                },
                f,
            ),
            c1,
        ),
    }
}

/// A string literal, of the type pointer to `Char`.
pub open spec fn string_lit(toks: Seq<Lexeme>, c: Cursor, f: Seq<Frame>, text: Seq<char>) -> Parsed<
    (ExprView, Seq<Frame>),
> {
    match advance(toks, c) {
        Parsed::Failed(e, l) => Parsed::Failed(e, l),
        Parsed::Done(_, c1) => match string_type(toks, c1) {
            Parsed::Failed(e, l) => Parsed::Failed(e, l),
            Parsed::Done(t, c2) => Parsed::Done(
                (
                    ExprView {
                        loc: loc_at(toks, c),
                        typ: Some(t),
                        kind: ExprKindView::StringLit(text),
                    },
                    f,
                ),
                c2,
            ),
        },
    }
}

/// `valof <stmt>`: the statement is read inside a `valof` frame, and the
/// type that its first `resultis` gave is the type of the whole. Fails
/// with `NoResultValue` where the statement has no `resultis`.
pub open spec fn valof(toks: Seq<Lexeme>, c: Cursor, f: Seq<Frame>) -> Parsed<(ExprView, Seq<Frame>)>
    decreases left(toks, c), 7nat,
{
    match onward(toks, c, expect_kind(toks, c, TokenKindView::ValOf)) {
        Parsed::Failed(e, l) => Parsed::Failed(e, l),
        Parsed::Done(_, c1) => match stmt_in(toks, c1, f, Frame::ValOf(None)) {
            Parsed::Failed(e, l) => Parsed::Failed(e, l),
            Parsed::Done((s, frame, f1), c2) => match frame {
                Frame::ValOf(Some(typ)) => Parsed::Done(
                    (
                        ExprView {
                            loc: loc_at(toks, c),
                            typ,
                            kind: ExprKindView::ValOf(Box::new(s)),
                        },
                        f1,
                    ),
                    c2,
                ),
                _ => Parsed::Failed(ParseErrorView::NoResultValue, loc_at(toks, c)),
            },
        },
    }
}

/// An expression in parentheses.
pub open spec fn parens(toks: Seq<Lexeme>, c: Cursor, f: Seq<Frame>) -> Parsed<(ExprView, Seq<Frame>)>
    decreases left(toks, c), 7nat,
{
    match onward(toks, c, expect_kind(toks, c, TokenKindView::LParen)) {
        Parsed::Failed(e, l) => Parsed::Failed(e, l),
        Parsed::Done(_, c1) => match expr(toks, c1, f) {
            Parsed::Failed(e, l) => Parsed::Failed(e, l),
            Parsed::Done((e, f1), c2) => match expect_kind(toks, c2, TokenKindView::RParen) {
                Parsed::Failed(e, l) => Parsed::Failed(e, l),
                Parsed::Done(_, c3) => Parsed::Done((e, f1), c3),
            },
        },
    }
}

/// Expressions with commas between them, up to the closing parenthesis,
/// which is read too.
pub open spec fn expr_items(toks: Seq<Lexeme>, c: Cursor, f: Seq<Frame>, acc: Seq<ExprView>) -> Parsed<
    (Seq<ExprView>, Seq<Frame>),
>
    decreases left(toks, c), 30nat,
{
    if kind_at(toks, c) is RParen {
        match advance(toks, c) {
            Parsed::Failed(e, l) => Parsed::Failed(e, l),
            Parsed::Done(_, c1) => Parsed::Done((acc, f), c1),
        }
    } else {
        match onward(toks, c, expr(toks, c, f)) {
            Parsed::Failed(e, l) => Parsed::Failed(e, l),
            Parsed::Done((e, f1), c1) => match expect_either(
                toks,
                c1,
                TokenKindView::RParen,
                TokenKindView::Comma,
            ) {
                Parsed::Failed(e, l) => Parsed::Failed(e, l),
                Parsed::Done(_, c2) => if kind_at(toks, c1) is RParen {
                    Parsed::Done((acc.push(e), f1), c2)
                } else {
                    expr_items(toks, c2, f1, acc.push(e))
                },
            },
        }
    }
}

/// A call of `callee`; its type is not known here.
pub open spec fn call(toks: Seq<Lexeme>, c: Cursor, f: Seq<Frame>, callee: ExprView) -> Parsed<
    (ExprView, Seq<Frame>),
>
    decreases left(toks, c), 4nat,
{
    match onward(toks, c, expect_kind(toks, c, TokenKindView::LParen)) {
        Parsed::Failed(e, l) => Parsed::Failed(e, l),
        Parsed::Done(_, c1) => match expr_items(toks, c1, f, Seq::empty()) {
            Parsed::Failed(e, l) => Parsed::Failed(e, l),
            Parsed::Done((args, f1), c2) => Parsed::Done(
                (
                    ExprView {
                        loc: loc_at(toks, c),
                        typ: None,
                        kind: ExprKindView::FuncCall(Box::new(callee), args),
                    },
                    f1,
                ),
                c2,
            ),
        },
    }
}

/// A binary operator other than a comparison, applied to `left`.
pub open spec fn binop(
    toks: Seq<Lexeme>,
    c: Cursor,
    f: Seq<Frame>,
    operand: ExprView,
    op: BinaryOp,
    precedence: OperatorPrecedence,
) -> Parsed<(ExprView, Seq<Frame>)>
    decreases left(toks, c), 4nat,
{
    match onward(toks, c, advance(toks, c)) {
        Parsed::Failed(e, l) => Parsed::Failed(e, l),
        Parsed::Done(_, c1) => match expr_with(toks, c1, f, precedence) {
            Parsed::Failed(e, l) => Parsed::Failed(e, l),
            Parsed::Done((right, f1), c2) => Parsed::Done(
                (binary_node(op, loc_at(toks, c), operand, right), f1),
                c2,
            ),
        },
    }
}

/// A comparison of `left`.
pub open spec fn comparison(
    toks: Seq<Lexeme>,
    c: Cursor,
    f: Seq<Frame>,
    operand: ExprView,
    op: BinaryOp,
) -> Parsed<(ExprView, Seq<Frame>)>
    decreases left(toks, c), 5nat,
{
    match binop(toks, c, f, operand, op, OperatorPrecedence::Comparison) {
        Parsed::Failed(e, l) => Parsed::Failed(e, l),
        Parsed::Done((e, f1), c1) => Parsed::Done(
            (ExprView { typ: Some(BOOL_TYPE), ..e }, f1),
            c1,
        ),
    }
}

/// `abs` or `not` with its operand, whose type is the type of the whole.
pub open spec fn prefix_op(toks: Seq<Lexeme>, c: Cursor, f: Seq<Frame>, op: UnaryOp) -> Parsed<
    (ExprView, Seq<Frame>),
>
    decreases left(toks, c), 7nat,
{
    match onward(toks, c, advance(toks, c)) {
        Parsed::Failed(e, l) => Parsed::Failed(e, l),
        Parsed::Done(_, c1) => match expr(toks, c1, f) {
            Parsed::Failed(e, l) => Parsed::Failed(e, l),
            Parsed::Done((e, f1), c2) => Parsed::Done(
                (ExprView { loc: loc_at(toks, c), typ: e.typ, kind: prefixed(op, e) }, f1),
                c2,
            ),
        },
    }
}

/// `condition -> a, b`
pub open spec fn conditional(toks: Seq<Lexeme>, c: Cursor, f: Seq<Frame>, condition: ExprView) -> Parsed<
    (ExprView, Seq<Frame>),
>
    decreases left(toks, c), 4nat,
{
    match onward(toks, c, expect_kind(toks, c, TokenKindView::Condition)) {
        Parsed::Failed(e, l) => Parsed::Failed(e, l),
        Parsed::Done(_, c1) => match forward(c1, expr(toks, c1, f)) {
            Parsed::Failed(e, l) => Parsed::Failed(e, l),
            Parsed::Done((a, f1), c2) => match expect_kind(toks, c2, TokenKindView::Comma) {
                Parsed::Failed(e, l) => Parsed::Failed(e, l),
                Parsed::Done(_, c3) => match expr_with(
                    toks,
                    c3,
                    f1,
                    OperatorPrecedence::Conditional,
                ) {
                    Parsed::Failed(e, l) => Parsed::Failed(e, l),
                    Parsed::Done((b, f2), c4) => Parsed::Done(
                        (conditional_node(loc_at(toks, c), condition, a, b), f2),
                        c4,
                    ),
                },
            },
        },
    }
}

/// `expr :: <type>`: a cast of `expr`, of the type named.
pub open spec fn explicit_cast(toks: Seq<Lexeme>, c: Cursor, f: Seq<Frame>, operand: ExprView) -> Parsed<
    (ExprView, Seq<Frame>),
>
    decreases left(toks, c), 4nat,
{
    match onward(toks, c, expect_kind(toks, c, TokenKindView::Of)) {
        Parsed::Failed(e, l) => Parsed::Failed(e, l),
        Parsed::Done(_, c1) => match type_(toks, c1) {
            Parsed::Failed(e, l) => Parsed::Failed(e, l),
            Parsed::Done(t, c2) => Parsed::Done(
                (
                    ExprView {
                        loc: loc_at(toks, c),
                        typ: Some(t),
                        kind: ExprKindView::Cast(Box::new(operand)),
                    },
                    f,
                ),
                c2,
            ),
        },
    }
}

/// `& expr`: where the type of the operand is known, the type of the whole
/// is the pointer to it.
pub open spec fn reference(toks: Seq<Lexeme>, c: Cursor, f: Seq<Frame>) -> Parsed<
    (ExprView, Seq<Frame>),
>
    decreases left(toks, c), 7nat,
{
    match onward(toks, c, expect_kind(toks, c, TokenKindView::LogAnd)) {
        Parsed::Failed(e, l) => Parsed::Failed(e, l),
        Parsed::Done(_, c1) => match expr(toks, c1, f) {
            Parsed::Failed(e, l) => Parsed::Failed(e, l),
            Parsed::Done((e, f1), c2) => match e.typ {
                Some(t) => match get_type(toks, c2, TypeKindView::Pointer(t)) {
                    Parsed::Failed(e, l) => Parsed::Failed(e, l),
                    Parsed::Done(p, c3) => Parsed::Done(
                        (
                            ExprView {
                                loc: loc_at(toks, c),
                                typ: Some(p),
                                kind: ExprKindView::Ref(Box::new(e)),
                            },
                            f1,
                        ),
                        c3,
                    ),
                },
                None => Parsed::Done(
                    (
                        ExprView {
                            loc: loc_at(toks, c),
                            typ: None,
                            kind: ExprKindView::Ref(Box::new(e)),
                        },
                        f1,
                    ),
                    c2,
                ),
            },
        },
    }
}

/// `@ expr`; its type is not known here.
pub open spec fn dereference(toks: Seq<Lexeme>, c: Cursor, f: Seq<Frame>) -> Parsed<
    (ExprView, Seq<Frame>),
>
    decreases left(toks, c), 7nat,
{
    match onward(toks, c, expect_kind(toks, c, TokenKindView::At)) {
        Parsed::Failed(e, l) => Parsed::Failed(e, l),
        Parsed::Done(_, c1) => match expr(toks, c1, f) {
            Parsed::Failed(e, l) => Parsed::Failed(e, l),
            Parsed::Done((e, f1), c2) => Parsed::Done(
                (
                    ExprView {
                        loc: loc_at(toks, c),
                        typ: None,
                        kind: ExprKindView::Deref(Box::new(e)),
                    },
                    f1,
                ),
                c2,
            ),
        },
    }
}

/// The values that a `match` or `every` looks at: one expression, or a
/// list of expressions in parentheses.
pub open spec fn match_args(toks: Seq<Lexeme>, c: Cursor, f: Seq<Frame>) -> Parsed<
    (Seq<ExprView>, Seq<Frame>),
>
    decreases left(toks, c), 31nat,
{
    if !(kind_at(toks, c) is LParen) {
        match expr(toks, c, f) {
            Parsed::Failed(e, l) => Parsed::Failed(e, l),
            Parsed::Done((e, f1), c1) => Parsed::Done((seq![e], f1), c1),
        }
    } else {
        match onward(toks, c, advance(toks, c)) {
            Parsed::Failed(e, l) => Parsed::Failed(e, l),
            Parsed::Done(_, c1) => expr_items(toks, c1, f, Seq::empty()),
        }
    }
}

/// An expression read inside the construct `frame`; the value holds the
/// frame as the expression left it.
pub open spec fn expr_in(toks: Seq<Lexeme>, c: Cursor, f: Seq<Frame>, frame: Frame) -> Parsed<
    (ExprView, Frame, Seq<Frame>),
>
    decreases left(toks, c), 11nat,
{
    match expr(toks, c, f.push(frame)) {
        Parsed::Failed(e, l) => Parsed::Failed(e, l),
        Parsed::Done((e, f1), c1) => Parsed::Done((e, f1.last(), f1.drop_last()), c1),
    }
}

/// The branches `: patterns -> expr` of a `match` or `every` expression.
/// Each branch has `arity` patterns, else `WrongNumOfPatterns` at `loc`;
/// the expression of each branch after the first is coerced to the type
/// of the first.
pub open spec fn match_branches(
    toks: Seq<Lexeme>,
    c: Cursor,
    f: Seq<Frame>,
    loc: Location,
    arity: usize,
    acc: Seq<(Seq<(PatternView, Location)>, ExprView)>,
    typ: Option<TypeIndex>,
) -> Parsed<(Seq<(Seq<(PatternView, Location)>, ExprView)>, Option<TypeIndex>, Seq<Frame>)>
    decreases left(toks, c), 36nat,
{
    if !(kind_at(toks, c) is Colon) {
        Parsed::Done((acc, typ, f), c)
    } else {
        match onward(toks, c, advance(toks, c)) {
            Parsed::Failed(e, l) => Parsed::Failed(e, l),
            Parsed::Done(_, c1) => match forward(c1, pattern_list(toks, c1)) {
                Parsed::Failed(e, l) => Parsed::Failed(e, l),
                Parsed::Done(patterns, c2) => if patterns.len() != arity {
                    Parsed::Failed(ParseErrorView::WrongNumOfPatterns(arity), loc)
                } else {
                    match expect_kind(toks, c2, TokenKindView::Condition) {
                        Parsed::Failed(e, l) => Parsed::Failed(e, l),
                        Parsed::Done(_, c3) => match forward(
                            c3,
                            expr_in(toks, c3, f, Frame::Match),
                        ) {
                            Parsed::Failed(e, l) => Parsed::Failed(e, l),
                            Parsed::Done((e, _, f1), c4) => if acc.len() == 0 {
                                match_branches(
                                    toks,
                                    c4,
                                    f1,
                                    loc,
                                    arity,
                                    acc.push((patterns, e)),
                                    e.typ,
                                )
                            } else {
                                match_branches(
                                    toks,
                                    c4,
                                    f1,
                                    loc,
                                    arity,
                                    acc.push((patterns, coerced(e, typ))),
                                    typ,
                                )
                            },
                        },
                    }
                },
            },
        }
    }
}

/// A `match` or `every` expression: the values to match, then branches
/// `: patterns -> expr`. Fails with `MissingBranch` where there is no
/// branch. The type of the first branch is the type of the whole.
pub open spec fn match_expr(toks: Seq<Lexeme>, c: Cursor, f: Seq<Frame>, kind: MatchKind) -> Parsed<
    (ExprView, Seq<Frame>),
>
    decreases left(toks, c), 7nat,
{
    match onward(toks, c, advance(toks, c)) {
        Parsed::Failed(e, l) => Parsed::Failed(e, l),
        Parsed::Done(_, c1) => match forward(c1, match_args(toks, c1, f)) {
            Parsed::Failed(e, l) => Parsed::Failed(e, l),
            Parsed::Done((args, f1), c2) => match match_branches(
                toks,
                c2,
                f1,
                loc_at(toks, c),
                args.len() as usize,
                Seq::empty(),
                None,
            ) {
                Parsed::Failed(e, l) => Parsed::Failed(e, l),
                Parsed::Done((branches, typ, f2), c3) => if branches.len() == 0 {
                    Parsed::Failed(
                        ParseErrorView::MissingBranch(match_word(kind)),
                        loc_at(toks, c),
                    )
                } else {
                    Parsed::Done(
                        (
                            ExprView {
                                loc: loc_at(toks, c),
                                typ,
                                kind: match kind {
                                    MatchKind::Match => ExprKindView::Match(args, branches),
                                    MatchKind::Every => ExprKindView::Every(args, branches),
                                },
                            },
                            f2,
                        ),
                        c3,
                    )
                },
            },
        },
    }
}

} // verus!
