//! What holds of every input: laws of the grammar, each proved from the
//! rules.

use vstd::prelude::*;
use crate::ast::expr::{BinaryOp, ExprKindView, ExprView, MatchKind};
use crate::ast::pattern::PatternView;
use crate::ast::stmt::{StmtKindView, StmtView};
use crate::ast::types::{literal_kind, TypeIndex, TypeKindView, BOOL_TYPE};
use crate::grammar::expr::{
    applied, binary_node, binop, cast_to, coerced, comparison, comparison_node, expr, expr_in, expr_with,
    integer_lit, match_args, match_branches, match_expr, match_word,
};
use crate::grammar::pattern::pattern_list;
use crate::grammar::stmt::{
    case, default_case, jump_word, match_stmt, misplaced, next_break, result_view, semicolon,
    stmt_branches, stmt_in,
};
use crate::grammar::{
    advance, expect_kind, forward, kind_at, left, loc_at, onward, Cursor, Parsed,
};
use crate::parser::context::{
    lemma_switch_frame, lemma_switch_same, may_jump, result_cell, shape, switch_frame, Frame,
};
use crate::parser::precedence::OperatorPrecedence;
use crate::parser::ParseErrorView;
use crate::source_file::Location;
use crate::token::{Lexeme, TokenKindView};

verus! {

/// An integer literal has the smallest of the types `Int32`, `UInt32`,
/// `Int64`, `UInt64`, in this order, that can hold its value.
pub proof fn law_literal_type(toks: Seq<Lexeme>, c: Cursor, f: Seq<Frame>, value: u64)
    ensures
        literal_kind(value) is Int32 <==> value <= 0x7fff_ffff,
        literal_kind(value) is UInt32 <==> 0x7fff_ffff < value <= 0xffff_ffff,
        literal_kind(value) is Int64 <==> 0xffff_ffff < value <= 0x7fff_ffff_ffff_ffff,
        literal_kind(value) is UInt64 <==> 0x7fff_ffff_ffff_ffff < value,
        integer_lit(toks, c, f, value) matches Parsed::Done((e, _), _) ==> e.kind
            == ExprKindView::IntLit(value) && e.typ == literal_kind(value).builtin_index(),
{
}

/// A binary operator other than a comparison brings its right operand to
/// the type of the left one: where the left operand has a type and the
/// right one has another, the right child of the node is the right operand
/// under an implicit cast to the type of the left, and this is the type of
/// the whole.
pub proof fn law_binary_unifies(op: BinaryOp, loc: Location, a: ExprView, b: ExprView, t: TypeIndex)
    requires
        a.typ == Some(t),
        b.typ != Some(t),
    ensures
        binary_node(op, loc, a, b).typ == Some(t),
        binary_node(op, loc, a, b).kind == applied(
            op,
            a,
            ExprView { loc: b.loc, typ: Some(t), kind: ExprKindView::ImplicitCast(Box::new(b)) },
        ),
{
}

/// The same of the rule: what it yields for a binary operator other than
/// a comparison has the type of the left operand; its left child is the
/// left operand; and its right child is what was read right of the
/// operator, under an implicit cast to the type of the left operand where
/// that is known and is not its own type.
pub proof fn law_binop_unifies(
    toks: Seq<Lexeme>,
    c: Cursor,
    f: Seq<Frame>,
    operand: ExprView,
    op: BinaryOp,
    precedence: OperatorPrecedence,
)
    ensures
        binop(toks, c, f, operand, op, precedence) matches Parsed::Done((e, _), _) ==> (onward(
            toks,
            c,
            advance(toks, c),
        ) matches Parsed::Done(_, c1) && (expr_with(toks, c1, f, precedence) matches Parsed::Done(
            (right, _),
            _,
        ) && e.typ == operand.typ && e.kind == applied(
            op,
            operand,
            match operand.typ {
                Some(t) => if right.typ == Some(t) {
                    right
                } else {
                    cast_to(right, t)
                },
                None => right,
            },
        ))),
{
}

/// A comparison has the type `Bool`, whatever the types of its operands.
pub proof fn law_comparison_is_bool(
    toks: Seq<Lexeme>,
    c: Cursor,
    f: Seq<Frame>,
    operand: ExprView,
    op: BinaryOp,
    loc: Location,
    right: ExprView,
)
    ensures
        comparison_node(op, loc, operand, right).typ == Some(BOOL_TYPE),
        TypeKindView::Bool.builtin_index() == Some(BOOL_TYPE),
        comparison(toks, c, f, operand, op) matches Parsed::Done((e, _), _) ==> e.typ == Some(
            BOOL_TYPE,
        ),
{
}

/// Whether each branch has `arity` patterns.
pub open spec fn arities<B>(branches: Seq<(Seq<(PatternView, Location)>, B)>, arity: int) -> bool {
    forall|i: int| 0 <= i < branches.len() ==> (#[trigger] branches[i]).0.len() == arity
}

/// The branches of a `match` expression that the rule has read have the
/// number of patterns that was asked for.
pub proof fn lemma_match_branches(
    toks: Seq<Lexeme>,
    c: Cursor,
    f: Seq<Frame>,
    loc: Location,
    arity: usize,
    acc: Seq<(Seq<(PatternView, Location)>, ExprView)>,
    typ: Option<TypeIndex>,
)
    requires
        arities(acc, arity as int),
    ensures
        match_branches(toks, c, f, loc, arity, acc, typ) matches Parsed::Done((branches, _, _), _)
            ==> arities(branches, arity as int) && branches.len() >= acc.len(),
    decreases left(toks, c),
{
    if kind_at(toks, c) is Colon {
        match onward(toks, c, advance(toks, c)) {
            Parsed::Done(_, c1) => {
                match forward(c1, pattern_list(toks, c1)) {
                    Parsed::Done(patterns, c2) => {
                        if patterns.len() == arity {
                            match expect_kind(toks, c2, TokenKindView::Condition) {
                                Parsed::Done(_, c3) => {
                                    match forward(
                                        c3,
                                        expr_in(toks, c3, f, Frame::Match),
                                    ) {
                                        Parsed::Done((e, _, f1), c4) => {
                                            let views = patterns;
                                            let next = if acc.len() == 0 {
                                                acc.push((views, e))
                                            } else {
                                                acc.push((views, coerced(e, typ)))
                                            };
                                            assert forall|i: int|
                                                0 <= i < next.len() implies (
                                            #[trigger] next[i]).0.len() == arity by {
                                                if i < acc.len() {
                                                    assert(next[i] == acc[i]);
                                                }
                                            }
                                            if acc.len() == 0 {
                                                lemma_match_branches(
                                                    toks,
                                                    c4,
                                                    f1,
                                                    loc,
                                                    arity,
                                                    next,
                                                    e.typ,
                                                );
                                            } else {
                                                lemma_match_branches(
                                                    toks,
                                                    c4,
                                                    f1,
                                                    loc,
                                                    arity,
                                                    next,
                                                    typ,
                                                );
                                            }
                                        },
                                        Parsed::Failed(_, _) => {},
                                    }
                                },
                                Parsed::Failed(_, _) => {},
                            }
                        }
                    },
                    Parsed::Failed(_, _) => {},
                }
            },
            Parsed::Failed(_, _) => {},
        }
    }
}

/// The branches of a `match` statement that the rule has read have the
/// number of patterns that was asked for.
pub proof fn lemma_stmt_branches(
    toks: Seq<Lexeme>,
    c: Cursor,
    f: Seq<Frame>,
    loc: Location,
    arity: usize,
    acc: Seq<(Seq<(PatternView, Location)>, StmtView)>,
)
    requires
        arities(acc, arity as int),
    ensures
        stmt_branches(toks, c, f, loc, arity, acc) matches Parsed::Done((branches, _), _)
            ==> arities(branches, arity as int) && branches.len() >= acc.len(),
    decreases left(toks, c),
{
    if kind_at(toks, c) is Colon {
        match onward(toks, c, advance(toks, c)) {
            Parsed::Done(_, c1) => {
                match forward(c1, pattern_list(toks, c1)) {
                    Parsed::Done(patterns, c2) => {
                        if patterns.len() == arity {
                            match expect_kind(toks, c2, TokenKindView::Be) {
                                Parsed::Done(_, c3) => {
                                    match forward(
                                        c3,
                                        stmt_in(toks, c3, f, Frame::Match),
                                    ) {
                                        Parsed::Done((s, _, f1), c4) => {
                                            let views = patterns;
                                            let next = acc.push((views, s));
                                            assert forall|i: int|
                                                0 <= i < next.len() implies (
                                            #[trigger] next[i]).0.len() == arity by {
                                                if i < acc.len() {
                                                    assert(next[i] == acc[i]);
                                                }
                                            }
                                            lemma_stmt_branches(toks, c4, f1, loc, arity, next);
                                        },
                                        Parsed::Failed(_, _) => {},
                                    }
                                },
                                Parsed::Failed(_, _) => {},
                            }
                        }
                    },
                    Parsed::Failed(_, _) => {},
                }
            },
            Parsed::Failed(_, _) => {},
        }
    }
}

/// The values and the branches of a `match` or `every` expression.
pub open spec fn match_parts(e: ExprView) -> (Seq<ExprView>, Seq<(Seq<(PatternView, Location)>, ExprView)>) {
    match e.kind {
        ExprKindView::Match(args, branches) => (args, branches),
        ExprKindView::Every(args, branches) => (args, branches),
        _ => (Seq::empty(), Seq::empty()),
    }
}

/// A `match` or `every` expression that the rule yields has a branch, and
/// each of its branches has as many patterns as there are values to match
/// (their number being one that a machine can count).
/// A branch with another number of patterns ends the rule with
/// `WrongNumOfPatterns`, and no branch at all with `MissingBranch`.
pub proof fn law_match_expr_is_complete(toks: Seq<Lexeme>, c: Cursor, f: Seq<Frame>, kind: MatchKind)
    ensures
        match_expr(toks, c, f, kind) matches Parsed::Done((e, _), _) ==> match_parts(e).1.len()
            >= 1 && (match_parts(e).0.len() <= usize::MAX ==> arities(
            match_parts(e).1,
            match_parts(e).0.len() as int,
        )) && (kind is Match ==> e.kind is Match) && (kind is Every ==> e.kind is Every),
{
    match onward(toks, c, advance(toks, c)) {
        Parsed::Done(_, c1) => {
            match forward(c1, match_args(toks, c1, f)) {
                Parsed::Done((args, f1), c2) => {
                    lemma_match_branches(
                        toks,
                        c2,
                        f1,
                        loc_at(toks, c),
                        args.len() as usize,
                        Seq::empty(),
                        None,
                    );
                },
                Parsed::Failed(_, _) => {},
            }
        },
        Parsed::Failed(_, _) => {},
    }
}

/// The values and the branches of a `match` or `every` statement.
pub open spec fn match_stmt_parts(s: StmtView) -> (
    Seq<ExprView>,
    Seq<(Seq<(PatternView, Location)>, StmtView)>,
) {
    match s.kind {
        StmtKindView::Match(args, branches) => (args, branches),
        StmtKindView::Every(args, branches) => (args, branches),
        _ => (Seq::empty(), Seq::empty()),
    }
}

/// A `match` or `every` statement that the rule yields has a branch, and
/// each of its branches has as many patterns as there are values to match
/// (their number being one that a machine can count).
pub proof fn law_match_stmt_is_complete(toks: Seq<Lexeme>, c: Cursor, f: Seq<Frame>, kind: MatchKind)
    ensures
        match_stmt(toks, c, f, kind) matches Parsed::Done((s, _), _) ==> match_stmt_parts(
            s,
        ).1.len() >= 1 && (match_stmt_parts(s).0.len() <= usize::MAX ==> arities(
            match_stmt_parts(s).1,
            match_stmt_parts(s).0.len() as int,
        )),
{
    match onward(toks, c, advance(toks, c)) {
        Parsed::Done(_, c1) => {
            match forward(c1, match_args(toks, c1, f)) {
                Parsed::Done((args, f1), c2) => {
                    lemma_stmt_branches(
                        toks,
                        c2,
                        f1,
                        loc_at(toks, c),
                        args.len() as usize,
                        Seq::empty(),
                    );
                },
                Parsed::Failed(_, _) => {},
            }
        },
        Parsed::Failed(_, _) => {},
    }
}

/// A branch of a `match` expression with another number of patterns than
/// was asked for ends the rule with `WrongNumOfPatterns`, which names the
/// number that was asked for, at the place of the `match`.
pub proof fn law_branch_of_wrong_arity(
    toks: Seq<Lexeme>,
    c: Cursor,
    f: Seq<Frame>,
    loc: Location,
    arity: usize,
    acc: Seq<(Seq<(PatternView, Location)>, ExprView)>,
    typ: Option<TypeIndex>,
)
    requires
        kind_at(toks, c) is Colon,
        onward(toks, c, advance(toks, c)) matches Parsed::Done(_, c1) && (forward(
            c1,
            pattern_list(toks, c1),
        ) matches Parsed::Done(patterns, _) && patterns.len() != arity),
    ensures
        match_branches(toks, c, f, loc, arity, acc, typ) == Parsed::<
            (Seq<(Seq<(PatternView, Location)>, ExprView)>, Option<TypeIndex>, Seq<Frame>),
        >::Failed(ParseErrorView::WrongNumOfPatterns(arity), loc),
{
}

/// A `match` or `every` expression without a branch behind its values
/// ends with `MissingBranch`, which names the construct, at its place.
pub proof fn law_match_needs_a_branch(toks: Seq<Lexeme>, c: Cursor, f: Seq<Frame>, kind: MatchKind)
    requires
        onward(toks, c, advance(toks, c)) matches Parsed::Done(_, c1) && (forward(
            c1,
            match_args(toks, c1, f),
        ) matches Parsed::Done(_, c2) && !(kind_at(toks, c2) is Colon)),
    ensures
        match_expr(toks, c, f, kind) == Parsed::<(ExprView, Seq<Frame>)>::Failed(
            ParseErrorView::MissingBranch(match_word(kind)),
            loc_at(toks, c),
        ),
{
}

/// The same of the statements: a branch with another number of patterns
/// than was asked for ends the rule with `WrongNumOfPatterns`, and a
/// `match` or `every` statement without a branch with `MissingBranch`.
pub proof fn law_match_stmt_branches(
    toks: Seq<Lexeme>,
    c: Cursor,
    f: Seq<Frame>,
    loc: Location,
    arity: usize,
    acc: Seq<(Seq<(PatternView, Location)>, StmtView)>,
    kind: MatchKind,
)
    ensures
        (kind_at(toks, c) is Colon && (onward(toks, c, advance(toks, c)) matches Parsed::Done(
            _,
            c1,
        ) && (forward(c1, pattern_list(toks, c1)) matches Parsed::Done(patterns, _)
            && patterns.len() != arity))) ==> stmt_branches(toks, c, f, loc, arity, acc)
            == Parsed::<(Seq<(Seq<(PatternView, Location)>, StmtView)>, Seq<Frame>)>::Failed(
            ParseErrorView::WrongNumOfPatterns(arity),
            loc,
        ),
        (onward(toks, c, advance(toks, c)) matches Parsed::Done(_, c1) && (forward(
            c1,
            match_args(toks, c1, f),
        ) matches Parsed::Done(_, c2) && !(kind_at(toks, c2) is Colon))) ==> match_stmt(
            toks,
            c,
            f,
            kind,
        ) == Parsed::<(StmtView, Seq<Frame>)>::Failed(
            ParseErrorView::MissingBranch(match_word(kind)),
            loc_at(toks, c),
        ),
{
}

/// `default:` under a `switchon` that has none yet is accepted, and the
/// `switchon` takes note of its place; under a `switchon` that has one, it
/// is refused with `Redefinition`, which cites the place of the first;
/// outside of every `switchon` it is refused as misplaced.
pub proof fn law_default_case(toks: Seq<Lexeme>, c: Cursor, f: Seq<Frame>)
    requires
        expect_kind(toks, c, TokenKindView::Default) matches Parsed::Done(_, c1) && expect_kind(
            toks,
            c1,
            TokenKindView::Colon,
        ) is Done,
    ensures
        match switch_frame(f) {
            Some(i) => match f[i]->SwitchOn_0 {
                Some(first) => default_case(toks, c, f) == Parsed::<
                    (StmtView, Seq<Frame>),
                >::Failed(ParseErrorView::Redefinition(first, "default case"@), loc_at(toks, c)),
                None => default_case(toks, c, f) matches Parsed::Done((s, after), _) && s.kind
                    is DefaultCase && switch_frame(after) == Some(i) && after[i]->SwitchOn_0
                    == Some(loc_at(toks, c)),
            },
            None => default_case(toks, c, f) == misplaced::<(StmtView, Seq<Frame>)>(
                "default"@,
                "switchon"@,
                loc_at(toks, c),
            ),
        },
{
    lemma_switch_frame(f);
    match switch_frame(f) {
        Some(i) => {
            match f[i]->SwitchOn_0 {
                Some(_) => {},
                None => {
                    let after = f.update(i, Frame::SwitchOn(Some(loc_at(toks, c)), f[i]->SwitchOn_1));
                    assert(shape(after) =~= shape(f));
                    lemma_switch_same(f, after);
                },
            }
        },
        None => {},
    }
}

/// `case` is accepted under a `switchon` only: where the rule yields a
/// statement, the chain holds a `switchon`; and where its expression and
/// its colon are read and the chain holds none, it is refused as
/// misplaced.
pub proof fn law_case_needs_switch(toks: Seq<Lexeme>, c: Cursor, f: Seq<Frame>)
    ensures
        case(toks, c, f) matches Parsed::Done((s, after), _) ==> s.kind is Case && switch_frame(
            after,
        ) is Some,
        (onward(toks, c, expect_kind(toks, c, TokenKindView::Case))
            matches Parsed::Done(_, c1) && (expr(
            toks,
            c1,
            f,
        ) matches Parsed::Done((_, f1), c2) && switch_frame(f1) is None && expect_kind(
            toks,
            c2,
            TokenKindView::Colon,
        ) is Done)) ==> case(toks, c, f) == misplaced::<(StmtView, Seq<Frame>)>(
            "case"@,
            "switchon"@,
            loc_at(toks, c),
        ),
{
}

/// Within one `valof`, the first `resultis` fixes the type of the result,
/// and the expression of a second one with another type comes under an
/// implicit cast to that type.
pub proof fn law_first_resultis_decides(
    first_loc: Location,
    first: ExprView,
    second_loc: Location,
    second: ExprView,
)
    requires
        second.typ != first.typ,
    ensures
        result_view(None, first_loc, first) == first,
        result_cell(None, first.typ) == Some(first.typ),
        result_view(result_cell(None, first.typ), second_loc, second) == (ExprView {
            loc: second_loc,
            typ: first.typ,
            kind: ExprKindView::ImplicitCast(Box::new(second)),
        }),
        result_cell(result_cell(None, first.typ), second.typ) == Some(first.typ),
{
}

/// `break` and `next` outside of every loop, `match`, `every` and
/// `switchon` are refused as misplaced; inside of one they are accepted.
pub proof fn law_jumps_need_a_target(toks: Seq<Lexeme>, c: Cursor, f: Seq<Frame>, is_break: bool)
    requires
        advance(toks, c) matches Parsed::Done(_, c1) && semicolon(toks, c1, f) is Done,
    ensures
        !may_jump(f) ==> next_break(toks, c, f, is_break) == misplaced::<(StmtView, Seq<Frame>)>(
            jump_word(is_break),
            "loop, match, every or switchon"@,
            loc_at(toks, c),
        ),
        may_jump(f) ==> (next_break(toks, c, f, is_break) matches Parsed::Done((s, after), _)
            && after == f && s.loc == loc_at(toks, c) && (if is_break {
            s.kind is Break
        } else {
            s.kind is Next
        })),
{
}

} // verus!
