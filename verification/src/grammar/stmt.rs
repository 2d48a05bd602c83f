//! The rules for statements.

use vstd::prelude::*;
use crate::ast::expr::{ExprKindView, ExprView, MatchKind};
use crate::ast::pattern::PatternView;
use crate::ast::stmt::{StmtKindView, StmtView};
use crate::ast::types::{TypeIndex, BOOL_TYPE};
use crate::grammar::expr::{coerced, effectful, expr, match_args, match_word};
use crate::grammar::pattern::pattern_list;
use crate::grammar::{
    advance, expect_ident, expect_kind, forward, kind_at, left, loc_at, onward, take_if, Cursor,
    Note, Parsed,
};
use crate::parser::context::{
    function_arity, may_jump, needs_semicolon, result_cell, switch_frame, valof_frame, Frame,
};
use crate::parser::ParseErrorView;
use crate::source_file::Location;
use crate::token::{Lexeme, TokenKindView};

verus! {

/// The expression of a `resultis` at `loc` in a `valof` whose result type
/// is `cell`: under an implicit cast where the type is set and differs,
/// else as it is.
pub open spec fn result_view(cell: Option<Option<TypeIndex>>, loc: Location, e: ExprView) -> ExprView {
    match cell {
        Some(vt) => if vt != e.typ {
            ExprView { loc, typ: vt, kind: ExprKindView::ImplicitCast(Box::new(e)) }
        } else {
            e
        },
        None => e,
    }
}

/// The semicolon that ends a statement directly between braces.
pub open spec fn semicolon(toks: Seq<Lexeme>, c: Cursor, f: Seq<Frame>) -> Parsed<()> {
    if needs_semicolon(f) {
        expect_kind(toks, c, TokenKindView::Semicolon)
    } else {
        Parsed::Done((), c)
    }
}

/// The failure of a statement that stands outside of what it needs.
pub open spec fn misplaced<T>(stmt: Seq<char>, outside: Seq<char>, loc: Location) -> Parsed<T> {
    Parsed::Failed(ParseErrorView::InvalidStmt(stmt, outside), loc)
}

/// The words that name `break` and `next` in a message.
pub open spec fn jump_word(is_break: bool) -> Seq<char> {
    if is_break {
        "break"@
    } else {
        "next"@
    }
}

/// One statement, or a chain of statements joined by `<>`.
pub open spec fn stmt(toks: Seq<Lexeme>, c: Cursor, f: Seq<Frame>) -> Parsed<(StmtView, Seq<Frame>)>
    decreases left(toks, c), 20nat,
{
    match onward(toks, c, single(toks, c, f)) {
        Parsed::Failed(e, l) => Parsed::Failed(e, l),
        Parsed::Done((s, f1), c1) => if kind_at(toks, c1) is Compound {
            compound(toks, c1, f1, s)
        } else {
            Parsed::Done((s, f1), c1)
        },
    }
}

/// One statement, by its first token.
pub open spec fn single(toks: Seq<Lexeme>, c: Cursor, f: Seq<Frame>) -> Parsed<(StmtView, Seq<Frame>)>
    decreases left(toks, c), 19nat,
{
    match kind_at(toks, c) {
        TokenKindView::LBrace => block(toks, c, f),
        TokenKindView::ResultIs => resultis(toks, c, f),
        TokenKindView::Return => return_(toks, c, f),
        TokenKindView::If => if_(toks, c, f),
        TokenKindView::Unless => unless(toks, c, f),
        TokenKindView::While => while_(toks, c, f, false),
        TokenKindView::Until => while_(toks, c, f, true),
        TokenKindView::For => for_(toks, c, f),
        TokenKindView::SwitchOn => switchon(toks, c, f),
        TokenKindView::Case => case(toks, c, f),
        TokenKindView::Default => default_case(toks, c, f),
        TokenKindView::Match => match_stmt(toks, c, f, MatchKind::Match),
        TokenKindView::Every => match_stmt(toks, c, f, MatchKind::Every),
        TokenKindView::Next => next_break(toks, c, f, false),
        TokenKindView::Break => next_break(toks, c, f, true),
        _ => expr_stmt(toks, c, f),
    }
}

/// A statement read inside the construct `frame`; the value holds the
/// frame as the statement left it.
pub open spec fn stmt_in(toks: Seq<Lexeme>, c: Cursor, f: Seq<Frame>, frame: Frame) -> Parsed<
    (StmtView, Frame, Seq<Frame>),
>
    decreases left(toks, c), 21nat,
{
    match stmt(toks, c, f.push(frame)) {
        Parsed::Failed(e, l) => Parsed::Failed(e, l),
        Parsed::Done((s, f1), c1) => Parsed::Done((s, f1.last(), f1.drop_last()), c1),
    }
}

/// The statements of a chain behind the first: each `<>` and a statement.
pub open spec fn compound_items(toks: Seq<Lexeme>, c: Cursor, f: Seq<Frame>, acc: Seq<StmtView>) -> Parsed<
    (Seq<StmtView>, Seq<Frame>),
>
    decreases left(toks, c), 37nat,
{
    if !(kind_at(toks, c) is Compound) {
        Parsed::Done((acc, f), c)
    } else {
        match onward(toks, c, advance(toks, c)) {
            Parsed::Failed(e, l) => Parsed::Failed(e, l),
            Parsed::Done(_, c1) => match forward(c1, stmt_in(toks, c1, f, Frame::NoBlock)) {
                Parsed::Failed(e, l) => Parsed::Failed(e, l),
                Parsed::Done((s, _, f1), c2) => compound_items(toks, c2, f1, acc.push(s)),
            },
        }
    }
}

/// The statements after `first` in a chain joined by `<>`; together they
/// make a block, at the place of the first `<>`.
pub open spec fn compound(toks: Seq<Lexeme>, c: Cursor, f: Seq<Frame>, first: StmtView) -> Parsed<
    (StmtView, Seq<Frame>),
>
    decreases left(toks, c), 38nat,
{
    match compound_items(toks, c, f, seq![first]) {
        Parsed::Failed(e, l) => Parsed::Failed(e, l),
        Parsed::Done((stmts, f1), c1) => Parsed::Done(
            (StmtView { loc: loc_at(toks, c), kind: StmtKindView::Block(stmts) }, f1),
            c1,
        ),
    }
}

/// The statements of a block up to its closing brace.
pub open spec fn block_items(toks: Seq<Lexeme>, c: Cursor, f: Seq<Frame>, acc: Seq<StmtView>) -> Parsed<
    (Seq<StmtView>, Seq<Frame>),
>
    decreases left(toks, c), 37nat,
{
    if kind_at(toks, c) is RBrace {
        Parsed::Done((acc, f), c)
    } else {
        match onward(toks, c, stmt_in(toks, c, f, Frame::Block)) {
            Parsed::Failed(e, l) => Parsed::Failed(e, l),
            Parsed::Done((s, _, f1), c1) => block_items(toks, c1, f1, acc.push(s)),
        }
    }
}

/// `{ ... }`: the statements between the braces.
pub open spec fn block(toks: Seq<Lexeme>, c: Cursor, f: Seq<Frame>) -> Parsed<(StmtView, Seq<Frame>)>
    decreases left(toks, c), 18nat,
{
    match onward(toks, c, expect_kind(toks, c, TokenKindView::LBrace)) {
        Parsed::Failed(e, l) => Parsed::Failed(e, l),
        Parsed::Done(_, c1) => match block_items(toks, c1, f, Seq::empty()) {
            Parsed::Failed(e, l) => Parsed::Failed(e, l),
            Parsed::Done((stmts, f1), c2) => match advance(toks, c2) {
                Parsed::Failed(e, l) => Parsed::Failed(e, l),
                Parsed::Done(_, c3) => Parsed::Done(
                    (StmtView { loc: loc_at(toks, c), kind: StmtKindView::Block(stmts) }, f1),
                    c3,
                ),
            },
        },
    }
}

/// `resultis <expr>`: only inside a `valof`, else `InvalidStmt`. The first
/// one in a `valof` decides the type of its result; the expression of each
/// later one is coerced to it.
pub open spec fn resultis(toks: Seq<Lexeme>, c: Cursor, f: Seq<Frame>) -> Parsed<
    (StmtView, Seq<Frame>),
>
    decreases left(toks, c), 18nat,
{
    let loc = loc_at(toks, c);
    match onward(toks, c, expect_kind(toks, c, TokenKindView::ResultIs)) {
        Parsed::Failed(e, l) => Parsed::Failed(e, l),
        Parsed::Done(_, c1) => match expr(toks, c1, f) {
            Parsed::Failed(e, l) => Parsed::Failed(e, l),
            Parsed::Done((e, f1), c2) => match valof_frame(f1) {
                None => misplaced("resultis"@, "valof"@, loc),
                Some(i) => {
                    let cell = f1[i]->ValOf_0;
                    let f2 = f1.update(i, Frame::ValOf(result_cell(cell, e.typ)));
                    match semicolon(toks, c2, f2) {
                        Parsed::Failed(e, l) => Parsed::Failed(e, l),
                        Parsed::Done(_, c3) => Parsed::Done(
                            (
                                StmtView {
                                    loc,
                                    kind: StmtKindView::ResultIs(
                                        Box::new(result_view(cell, loc, e)),
                                    ),
                                },
                                f2,
                            ),
                            c3,
                        ),
                    }
                },
            },
        },
    }
}

/// `return`: only inside a function, else `InvalidStmt`.
pub open spec fn return_(toks: Seq<Lexeme>, c: Cursor, f: Seq<Frame>) -> Parsed<(StmtView, Seq<Frame>)> {
    let loc = loc_at(toks, c);
    match expect_kind(toks, c, TokenKindView::Return) {
        Parsed::Failed(e, l) => Parsed::Failed(e, l),
        Parsed::Done(_, c1) => match semicolon(toks, c1, f) {
            Parsed::Failed(e, l) => Parsed::Failed(e, l),
            Parsed::Done(_, c2) => if function_arity(f) is Some {
                Parsed::Done((StmtView { loc, kind: StmtKindView::Return }, f), c2)
            } else {
                misplaced("return"@, "function"@, loc)
            },
        },
    }
}

/// The condition of `if`, `unless`, `while` and `until`: an expression,
/// coerced to `Bool`, and an optional `do`.
pub open spec fn condition(toks: Seq<Lexeme>, c: Cursor, f: Seq<Frame>) -> Parsed<
    (ExprView, Seq<Frame>),
>
    decreases left(toks, c), 17nat,
{
    match forward(c, expr(toks, c, f)) {
        Parsed::Failed(e, l) => Parsed::Failed(e, l),
        Parsed::Done((e, f1), c1) => match take_if(toks, c1, TokenKindView::Do) {
            Parsed::Failed(e, l) => Parsed::Failed(e, l),
            Parsed::Done(_, c2) => Parsed::Done((coerced(e, Some(BOOL_TYPE)), f1), c2),
        },
    }
}

/// `if <cond> [do] <stmt> [else <stmt>]`
pub open spec fn if_(toks: Seq<Lexeme>, c: Cursor, f: Seq<Frame>) -> Parsed<(StmtView, Seq<Frame>)>
    decreases left(toks, c), 18nat,
{
    match onward(toks, c, expect_kind(toks, c, TokenKindView::If)) {
        Parsed::Failed(e, l) => Parsed::Failed(e, l),
        Parsed::Done(_, c1) => match forward(c1, condition(toks, c1, f)) {
            Parsed::Failed(e, l) => Parsed::Failed(e, l),
            Parsed::Done((cond, f1), c2) => match forward(c2, stmt(toks, c2, f1)) {
                Parsed::Failed(e, l) => Parsed::Failed(e, l),
                Parsed::Done((then, f2), c3) => if kind_at(toks, c3) is Else {
                    match advance(toks, c3) {
                        Parsed::Failed(e, l) => Parsed::Failed(e, l),
                        Parsed::Done(_, c4) => match stmt(toks, c4, f2) {
                            Parsed::Failed(e, l) => Parsed::Failed(e, l),
                            Parsed::Done((other, f3), c5) => Parsed::Done(
                                (
                                    StmtView {
                                        loc: loc_at(toks, c),
                                        kind: StmtKindView::If(
                                            Box::new(cond),
                                            Box::new(then),
                                            Some(Box::new(other)),
                                        ),
                                    },
                                    f3,
                                ),
                                c5,
                            ),
                        },
                    }
                } else {
                    Parsed::Done(
                        (
                            StmtView {
                                loc: loc_at(toks, c),
                                kind: StmtKindView::If(Box::new(cond), Box::new(then), None),
                            },
                            f2,
                        ),
                        c3,
                    )
                },
            },
        },
    }
}

/// `unless <cond> [do] <stmt>`
pub open spec fn unless(toks: Seq<Lexeme>, c: Cursor, f: Seq<Frame>) -> Parsed<(StmtView, Seq<Frame>)>
    decreases left(toks, c), 18nat,
{
    match onward(toks, c, expect_kind(toks, c, TokenKindView::Unless)) {
        Parsed::Failed(e, l) => Parsed::Failed(e, l),
        Parsed::Done(_, c1) => match forward(c1, condition(toks, c1, f)) {
            Parsed::Failed(e, l) => Parsed::Failed(e, l),
            Parsed::Done((cond, f1), c2) => match stmt(toks, c2, f1) {
                Parsed::Failed(e, l) => Parsed::Failed(e, l),
                Parsed::Done((body, f2), c3) => Parsed::Done(
                    (
                        StmtView {
                            loc: loc_at(toks, c),
                            kind: StmtKindView::Unless(Box::new(cond), Box::new(body)),
                        },
                        f2,
                    ),
                    c3,
                ),
            },
        },
    }
}

/// `while <cond> [do] <stmt>`, or the same with `until` where `negate` is
/// set. The body is read inside a loop.
pub open spec fn while_(toks: Seq<Lexeme>, c: Cursor, f: Seq<Frame>, negate: bool) -> Parsed<
    (StmtView, Seq<Frame>),
>
    decreases left(toks, c), 18nat,
{
    match onward(
        toks,
        c,
        expect_kind(
            toks,
            c,
            if negate {
                TokenKindView::Until
            } else {
                TokenKindView::While
            },
        ),
    ) {
        Parsed::Failed(e, l) => Parsed::Failed(e, l),
        Parsed::Done(_, c1) => match forward(c1, condition(toks, c1, f)) {
            Parsed::Failed(e, l) => Parsed::Failed(e, l),
            Parsed::Done((cond, f1), c2) => match stmt_in(toks, c2, f1, Frame::Loop) {
                Parsed::Failed(e, l) => Parsed::Failed(e, l),
                Parsed::Done((body, _, f2), c3) => Parsed::Done(
                    (
                        StmtView {
                            loc: loc_at(toks, c),
                            kind: if negate {
                                StmtKindView::Until(Box::new(cond), Box::new(body))
                            } else {
                                StmtKindView::While(Box::new(cond), Box::new(body))
                            },
                        },
                        f2,
                    ),
                    c3,
                ),
            },
        },
    }
}

/// An optional part of the head of a `for`: the keyword and an expression,
/// which is coerced to the type `typ`.
pub open spec fn for_part(
    toks: Seq<Lexeme>,
    c: Cursor,
    f: Seq<Frame>,
    keyword: TokenKindView,
    typ: Option<TypeIndex>,
) -> Parsed<(Option<Box<ExprView>>, Seq<Frame>)>
    decreases left(toks, c), 17nat,
{
    if kind_at(toks, c) == keyword {
        match onward(toks, c, advance(toks, c)) {
            Parsed::Failed(e, l) => Parsed::Failed(e, l),
            Parsed::Done(_, c1) => match expr(toks, c1, f) {
                Parsed::Failed(e, l) => Parsed::Failed(e, l),
                Parsed::Done((e, f1), c2) => Parsed::Done(
                    (Some(Box::new(coerced(e, typ))), f1),
                    c2,
                ),
            },
        }
    } else {
        Parsed::Done((None, f), c)
    }
}

/// `for <ident> = <init> [to <bound>] [by <step>] [do] <stmt>`: bound and
/// step are coerced to the type of the initial value, and the body is
/// read inside a loop.
pub open spec fn for_(toks: Seq<Lexeme>, c: Cursor, f: Seq<Frame>) -> Parsed<(StmtView, Seq<Frame>)>
    decreases left(toks, c), 18nat,
{
    match onward(toks, c, expect_kind(toks, c, TokenKindView::For)) {
        Parsed::Failed(e, l) => Parsed::Failed(e, l),
        Parsed::Done(_, c1) => match expect_ident(toks, c1) {
            Parsed::Failed(e, l) => Parsed::Failed(e, l),
            Parsed::Done(name, c2) => match expect_kind(toks, c2, TokenKindView::Eq) {
                Parsed::Failed(e, l) => Parsed::Failed(e, l),
                Parsed::Done(_, c3) => match forward(c3, expr(toks, c3, f)) {
                    Parsed::Failed(e, l) => Parsed::Failed(e, l),
                    Parsed::Done((init, f1), c4) => match forward(
                        c4,
                        for_part(toks, c4, f1, TokenKindView::To, init.typ),
                    ) {
                        Parsed::Failed(e, l) => Parsed::Failed(e, l),
                        Parsed::Done((bound, f2), c5) => match forward(
                            c5,
                            for_part(toks, c5, f2, TokenKindView::By, init.typ),
                        ) {
                            Parsed::Failed(e, l) => Parsed::Failed(e, l),
                            Parsed::Done((step, f3), c6) => match take_if(
                                toks,
                                c6,
                                TokenKindView::Do,
                            ) {
                                Parsed::Failed(e, l) => Parsed::Failed(e, l),
                                Parsed::Done(_, c7) => match stmt_in(toks, c7, f3, Frame::Loop) {
                                    Parsed::Failed(e, l) => Parsed::Failed(e, l),
                                    Parsed::Done((body, _, f4), c8) => Parsed::Done(
                                        (
                                            StmtView {
                                                loc: loc_at(toks, c),
                                                kind: StmtKindView::For(
                                                    (PatternView::Query(name), loc_at(toks, c1)),
                                                    Box::new(init),
                                                    bound,
                                                    step,
                                                    Box::new(body),
                                                ),
                                            },
                                            f4,
                                        ),
                                        c8,
                                    ),
                                },
                            },
                        },
                    },
                },
            },
        },
    }
}

/// `switchon <expr> into <stmt>`: the body is read inside a `switchon`
/// frame that carries the type of the expression.
pub open spec fn switchon(toks: Seq<Lexeme>, c: Cursor, f: Seq<Frame>) -> Parsed<
    (StmtView, Seq<Frame>),
>
    decreases left(toks, c), 18nat,
{
    match onward(toks, c, expect_kind(toks, c, TokenKindView::SwitchOn)) {
        Parsed::Failed(e, l) => Parsed::Failed(e, l),
        Parsed::Done(_, c1) => match forward(c1, expr(toks, c1, f)) {
            Parsed::Failed(e, l) => Parsed::Failed(e, l),
            Parsed::Done((value, f1), c2) => match expect_kind(toks, c2, TokenKindView::Into) {
                Parsed::Failed(e, l) => Parsed::Failed(e, l),
                Parsed::Done(_, c3) => match stmt_in(
                    toks,
                    c3,
                    f1,
                    Frame::SwitchOn(None, value.typ),
                ) {
                    Parsed::Failed(e, l) => Parsed::Failed(e, l),
                    Parsed::Done((body, _, f2), c4) => Parsed::Done(
                        (
                            StmtView {
                                loc: loc_at(toks, c),
                                kind: StmtKindView::SwitchOn(Box::new(value), Box::new(body)),
                            },
                            f2,
                        ),
                        c4,
                    ),
                },
            },
        },
    }
}

/// `case <expr>:`: only inside a `switchon`, else `InvalidStmt`; the
/// expression is coerced to the type that the `switchon` looks at.
pub open spec fn case(toks: Seq<Lexeme>, c: Cursor, f: Seq<Frame>) -> Parsed<(StmtView, Seq<Frame>)>
    decreases left(toks, c), 18nat,
{
    let loc = loc_at(toks, c);
    match onward(toks, c, expect_kind(toks, c, TokenKindView::Case)) {
        Parsed::Failed(e, l) => Parsed::Failed(e, l),
        Parsed::Done(_, c1) => match expr(toks, c1, f) {
            Parsed::Failed(e, l) => Parsed::Failed(e, l),
            Parsed::Done((e, f1), c2) => match expect_kind(toks, c2, TokenKindView::Colon) {
                Parsed::Failed(e, l) => Parsed::Failed(e, l),
                Parsed::Done(_, c3) => match switch_frame(f1) {
                    Some(i) => Parsed::Done(
                        (
                            StmtView {
                                loc,
                                kind: StmtKindView::Case(
                                    Box::new(coerced(e, f1[i]->SwitchOn_1)),
                                ),
                            },
                            f1,
                        ),
                        c3,
                    ),
                    None => misplaced("case"@, "switchon"@, loc),
                },
            },
        },
    }
}

/// `default:`: only inside a `switchon`, else `InvalidStmt`; a second one
/// in the same `switchon` fails with `Redefinition`, which cites the place
/// of the first.
pub open spec fn default_case(toks: Seq<Lexeme>, c: Cursor, f: Seq<Frame>) -> Parsed<
    (StmtView, Seq<Frame>),
> {
    let loc = loc_at(toks, c);
    match expect_kind(toks, c, TokenKindView::Default) {
        Parsed::Failed(e, l) => Parsed::Failed(e, l),
        Parsed::Done(_, c1) => match expect_kind(toks, c1, TokenKindView::Colon) {
            Parsed::Failed(e, l) => Parsed::Failed(e, l),
            Parsed::Done(_, c2) => match switch_frame(f) {
                Some(i) => match f[i]->SwitchOn_0 {
                    Some(first) => Parsed::Failed(
                        ParseErrorView::Redefinition(first, "default case"@),
                        loc,
                    ),
                    None => Parsed::Done(
                        (
                            StmtView { loc, kind: StmtKindView::DefaultCase },
                            f.update(i, Frame::SwitchOn(Some(loc), f[i]->SwitchOn_1)),
                        ),
                        c2,
                    ),
                },
                None => misplaced("default"@, "switchon"@, loc),
            },
        },
    }
}

/// The branches `: patterns be stmt` of a `match` or `every` statement,
/// each read inside a match frame. Each branch has `arity` patterns, else
/// `WrongNumOfPatterns` at `loc`.
pub open spec fn stmt_branches(
    toks: Seq<Lexeme>,
    c: Cursor,
    f: Seq<Frame>,
    loc: Location,
    arity: usize,
    acc: Seq<(Seq<(PatternView, Location)>, StmtView)>,
) -> Parsed<(Seq<(Seq<(PatternView, Location)>, StmtView)>, Seq<Frame>)>
    decreases left(toks, c), 36nat,
{
    if !(kind_at(toks, c) is Colon) {
        Parsed::Done((acc, f), c)
    } else {
        match onward(toks, c, advance(toks, c)) {
            Parsed::Failed(e, l) => Parsed::Failed(e, l),
            Parsed::Done(_, c1) => match forward(c1, pattern_list(toks, c1)) {
                Parsed::Failed(e, l) => Parsed::Failed(e, l),
                Parsed::Done(patterns, c2) => if patterns.len() != arity {
                    Parsed::Failed(ParseErrorView::WrongNumOfPatterns(arity), loc)
                } else {
                    match expect_kind(toks, c2, TokenKindView::Be) {
                        Parsed::Failed(e, l) => Parsed::Failed(e, l),
                        Parsed::Done(_, c3) => match forward(
                            c3,
                            stmt_in(toks, c3, f, Frame::Match),
                        ) {
                            Parsed::Failed(e, l) => Parsed::Failed(e, l),
                            Parsed::Done((s, _, f1), c4) => stmt_branches(
                                toks,
                                c4,
                                f1,
                                loc,
                                arity,
                                acc.push((patterns, s)),
                            ),
                        },
                    }
                },
            },
        }
    }
}

/// A `match` or `every` statement: the values to match, then branches
/// `: patterns be stmt`. Fails with `MissingBranch` where there is no
/// branch.
pub open spec fn match_stmt(toks: Seq<Lexeme>, c: Cursor, f: Seq<Frame>, kind: MatchKind) -> Parsed<
    (StmtView, Seq<Frame>),
>
    decreases left(toks, c), 18nat,
{
    let loc = loc_at(toks, c);
    match onward(toks, c, advance(toks, c)) {
        Parsed::Failed(e, l) => Parsed::Failed(e, l),
        Parsed::Done(_, c1) => match forward(c1, match_args(toks, c1, f)) {
            Parsed::Failed(e, l) => Parsed::Failed(e, l),
            Parsed::Done((args, f1), c2) => match stmt_branches(
                toks,
                c2,
                f1,
                loc,
                args.len() as usize,
                Seq::empty(),
            ) {
                Parsed::Failed(e, l) => Parsed::Failed(e, l),
                Parsed::Done((branches, f2), c3) => if branches.len() == 0 {
                    Parsed::Failed(ParseErrorView::MissingBranch(match_word(kind)), loc)
                } else {
                    match semicolon(toks, c3, f2) {
                        Parsed::Failed(e, l) => Parsed::Failed(e, l),
                        Parsed::Done(_, c4) => Parsed::Done(
                            (
                                StmtView {
                                    loc,
                                    kind: match kind {
                                        MatchKind::Match => StmtKindView::Match(args, branches),
                                        MatchKind::Every => StmtKindView::Every(args, branches),
                                    },
                                },
                                f2,
                            ),
                            c4,
                        ),
                    }
                },
            },
        },
    }
}

/// An expression as a statement. One that cannot have an effect is warned
/// of.
pub open spec fn expr_stmt(toks: Seq<Lexeme>, c: Cursor, f: Seq<Frame>) -> Parsed<
    (StmtView, Seq<Frame>),
>
    decreases left(toks, c), 18nat,
{
    let loc = loc_at(toks, c);
    match expr(toks, c, f) {
        Parsed::Failed(e, l) => Parsed::Failed(e, l),
        Parsed::Done((e, f1), c1) => {
            let c2 = if effectful(e) {
                c1
            } else {
                Cursor {
                    warnings: c1.warnings.push(
                        Note { error: ParseErrorView::ExprWithoutSideEffect, loc },
                    ),
                    ..c1
                }
            };
            match semicolon(toks, c2, f1) {
                Parsed::Failed(e, l) => Parsed::Failed(e, l),
                Parsed::Done(_, c3) => Parsed::Done(
                    (StmtView { loc, kind: StmtKindView::Expr(Box::new(e)) }, f1),
                    c3,
                ),
            }
        },
    }
}

/// `break`, or `next` where `is_break` is not set: only inside a loop, a
/// `match` or `every`, or a `switchon`, else `InvalidStmt`.
pub open spec fn next_break(toks: Seq<Lexeme>, c: Cursor, f: Seq<Frame>, is_break: bool) -> Parsed<
    (StmtView, Seq<Frame>),
> {
    let loc = loc_at(toks, c);
    match advance(toks, c) {
        Parsed::Failed(e, l) => Parsed::Failed(e, l),
        Parsed::Done(_, c1) => match semicolon(toks, c1, f) {
            Parsed::Failed(e, l) => Parsed::Failed(e, l),
            Parsed::Done(_, c2) => if may_jump(f) {
                Parsed::Done(
                    (
                        StmtView {
                            loc,
                            kind: if is_break {
                                StmtKindView::Break
                            } else {
                                StmtKindView::Next
                            },
                        },
                        f,
                    ),
                    c2,
                )
            } else {
                misplaced(jump_word(is_break), "loop, match, every or switchon"@, loc)
            },
        },
    }
}

} // verus!
