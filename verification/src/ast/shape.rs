//! The tree without the places of the patterns in it: what the comparison
//! of two trees looks at. Expressions and statements are compared with
//! their places, patterns without.

use vstd::prelude::*;
use crate::ast::expr::{ExprKindView, ExprView};
use crate::ast::pattern::{PatternTermView, PatternView};
use crate::ast::stmt::{StmtKindView, StmtView};
use crate::source_file::Location;

verus! {

/// The place that stands for every place of a pattern.
pub open spec fn nowhere() -> Location {
    Location { source_file_id: 0, line: 0, column: 0, width: 0 }
}

/// The expression without the places of the patterns in it.
pub open spec fn bare_expr(e: ExprView) -> ExprView
    decreases e, 1nat,
{
    ExprView { loc: e.loc, typ: e.typ, kind: bare_expr_kind(e.kind) }
}

/// The kind of an expression without the places of the patterns in it.
pub open spec fn bare_expr_kind(k: ExprKindView) -> ExprKindView
    decreases k, 0nat,
{
    match k {
        ExprKindView::Add(l, r) => ExprKindView::Add(
            Box::new(bare_expr(*l)),
            Box::new(bare_expr(*r)),
        ),
        ExprKindView::Sub(l, r) => ExprKindView::Sub(
            Box::new(bare_expr(*l)),
            Box::new(bare_expr(*r)),
        ),
        ExprKindView::Mul(l, r) => ExprKindView::Mul(
            Box::new(bare_expr(*l)),
            Box::new(bare_expr(*r)),
        ),
        ExprKindView::Div(l, r) => ExprKindView::Div(
            Box::new(bare_expr(*l)),
            Box::new(bare_expr(*r)),
        ),
        ExprKindView::Mod(l, r) => ExprKindView::Mod(
            Box::new(bare_expr(*l)),
            Box::new(bare_expr(*r)),
        ),
        ExprKindView::And(l, r) => ExprKindView::And(
            Box::new(bare_expr(*l)),
            Box::new(bare_expr(*r)),
        ),
        ExprKindView::Or(l, r) => ExprKindView::Or(
            Box::new(bare_expr(*l)),
            Box::new(bare_expr(*r)),
        ),
        ExprKindView::XOr(l, r) => ExprKindView::XOr(
            Box::new(bare_expr(*l)),
            Box::new(bare_expr(*r)),
        ),
        ExprKindView::Eq(l, r) => ExprKindView::Eq(
            Box::new(bare_expr(*l)),
            Box::new(bare_expr(*r)),
        ),
        ExprKindView::Ne(l, r) => ExprKindView::Ne(
            Box::new(bare_expr(*l)),
            Box::new(bare_expr(*r)),
        ),
        ExprKindView::Gt(l, r) => ExprKindView::Gt(
            Box::new(bare_expr(*l)),
            Box::new(bare_expr(*r)),
        ),
        ExprKindView::Ge(l, r) => ExprKindView::Ge(
            Box::new(bare_expr(*l)),
            Box::new(bare_expr(*r)),
        ),
        ExprKindView::Lt(l, r) => ExprKindView::Lt(
            Box::new(bare_expr(*l)),
            Box::new(bare_expr(*r)),
        ),
        ExprKindView::Le(l, r) => ExprKindView::Le(
            Box::new(bare_expr(*l)),
            Box::new(bare_expr(*r)),
        ),
        ExprKindView::LShift(l, r) => ExprKindView::LShift(
            Box::new(bare_expr(*l)),
            Box::new(bare_expr(*r)),
        ),
        ExprKindView::RShift(l, r) => ExprKindView::RShift(
            Box::new(bare_expr(*l)),
            Box::new(bare_expr(*r)),
        ),
        ExprKindView::Abs(x) => ExprKindView::Abs(Box::new(bare_expr(*x))),
        ExprKindView::Not(x) => ExprKindView::Not(Box::new(bare_expr(*x))),
        ExprKindView::Ref(x) => ExprKindView::Ref(Box::new(bare_expr(*x))),
        ExprKindView::Deref(x) => ExprKindView::Deref(Box::new(bare_expr(*x))),
        ExprKindView::Cast(x) => ExprKindView::Cast(Box::new(bare_expr(*x))),
        ExprKindView::ImplicitCast(x) => ExprKindView::ImplicitCast(Box::new(bare_expr(*x))),
        ExprKindView::ValOf(s) => ExprKindView::ValOf(Box::new(bare_stmt(*s))),
        ExprKindView::FuncCall(c, args) => ExprKindView::FuncCall(
            Box::new(bare_expr(*c)),
            bare_exprs(args),
        ),
        ExprKindView::Conditional(c, a, b) => ExprKindView::Conditional(
            Box::new(bare_expr(*c)),
            Box::new(bare_expr(*a)),
            Box::new(bare_expr(*b)),
        ),
        ExprKindView::Match(args, branches) => ExprKindView::Match(
            bare_exprs(args),
            bare_expr_branches(branches),
        ),
        ExprKindView::Every(args, branches) => ExprKindView::Every(
            bare_exprs(args),
            bare_expr_branches(branches),
        ),
        other => other,
    }
}

pub open spec fn bare_opt_expr(e: Option<Box<ExprView>>) -> Option<Box<ExprView>>
    decreases e, 0nat,
{
    match e {
        Some(x) => Some(Box::new(bare_expr(*x))),
        None => None,
    }
}

pub open spec fn bare_opt_stmt(s: Option<Box<StmtView>>) -> Option<Box<StmtView>>
    decreases s, 0nat,
{
    match s {
        Some(x) => Some(Box::new(bare_stmt(*x))),
        None => None,
    }
}

/// The statement without the places of the patterns in it.
pub open spec fn bare_stmt(s: StmtView) -> StmtView
    decreases s, 1nat,
{
    StmtView { loc: s.loc, kind: bare_stmt_kind(s.kind) }
}

/// The kind of a statement without the places of the patterns in it.
pub open spec fn bare_stmt_kind(k: StmtKindView) -> StmtKindView
    decreases k, 0nat,
{
    match k {
        StmtKindView::Expr(e) => StmtKindView::Expr(Box::new(bare_expr(*e))),
        StmtKindView::ResultIs(e) => StmtKindView::ResultIs(Box::new(bare_expr(*e))),
        StmtKindView::Case(e) => StmtKindView::Case(Box::new(bare_expr(*e))),
        StmtKindView::Block(stmts) => StmtKindView::Block(bare_stmts(stmts)),
        StmtKindView::If(c, a, b) => StmtKindView::If(
            Box::new(bare_expr(*c)),
            Box::new(bare_stmt(*a)),
            bare_opt_stmt(b),
        ),
        StmtKindView::Unless(c, b) => StmtKindView::Unless(
            Box::new(bare_expr(*c)),
            Box::new(bare_stmt(*b)),
        ),
        StmtKindView::While(c, b) => StmtKindView::While(
            Box::new(bare_expr(*c)),
            Box::new(bare_stmt(*b)),
        ),
        StmtKindView::Until(c, b) => StmtKindView::Until(
            Box::new(bare_expr(*c)),
            Box::new(bare_stmt(*b)),
        ),
        StmtKindView::SwitchOn(c, b) => StmtKindView::SwitchOn(
            Box::new(bare_expr(*c)),
            Box::new(bare_stmt(*b)),
        ),
        StmtKindView::For(it, init, bound, step, body) => StmtKindView::For(
            (bare_pattern(it.0), nowhere()),
            Box::new(bare_expr(*init)),
            bare_opt_expr(bound),
            bare_opt_expr(step),
            Box::new(bare_stmt(*body)),
        ),
        StmtKindView::Match(args, branches) => StmtKindView::Match(
            bare_exprs(args),
            bare_stmt_branches(branches),
        ),
        StmtKindView::Every(args, branches) => StmtKindView::Every(
            bare_exprs(args),
            bare_stmt_branches(branches),
        ),
        StmtKindView::Binding(pairs) => StmtKindView::Binding(bare_bindings(pairs)),
        other => other,
    }
}

/// The pattern without the places of the patterns in it.
pub open spec fn bare_pattern(p: PatternView) -> PatternView
    decreases p, 0nat,
{
    match p {
        PatternView::Term(t) => PatternView::Term(bare_term(t)),
        PatternView::Or(l, r) => PatternView::Or(
            Box::new((bare_pattern((*l).0), nowhere())),
            Box::new((bare_pattern((*r).0), nowhere())),
        ),
        PatternView::And(l, r) => PatternView::And(
            Box::new((bare_pattern((*l).0), nowhere())),
            Box::new((bare_pattern((*r).0), nowhere())),
        ),
        PatternView::Variant(name, args) => PatternView::Variant(name, bare_patterns(args)),
        PatternView::List(args) => PatternView::List(bare_patterns(args)),
        other => other,
    }
}

pub open spec fn bare_term(t: PatternTermView) -> PatternTermView
    decreases t, 0nat,
{
    match t {
        PatternTermView::Basic(e) => PatternTermView::Basic(bare_expr(e)),
        PatternTermView::Lt(e) => PatternTermView::Lt(bare_expr(e)),
        PatternTermView::Le(e) => PatternTermView::Le(bare_expr(e)),
        PatternTermView::Gt(e) => PatternTermView::Gt(bare_expr(e)),
        PatternTermView::Ge(e) => PatternTermView::Ge(bare_expr(e)),
        PatternTermView::Ne(e) => PatternTermView::Ne(bare_expr(e)),
        PatternTermView::Eq(e) => PatternTermView::Eq(bare_expr(e)),
        PatternTermView::Range(a, b) => PatternTermView::Range(bare_expr(a), bare_expr(b)),
    }
}

pub open spec fn bare_exprs(s: Seq<ExprView>) -> Seq<ExprView>
    decreases s, 0nat,
{
    Seq::new(
        s.len(),
        |i: int|
            if 0 <= i < s.len() {
                bare_expr(s[i])
            } else {
                arbitrary()
            },
    )
}

pub open spec fn bare_stmts(s: Seq<StmtView>) -> Seq<StmtView>
    decreases s, 0nat,
{
    Seq::new(
        s.len(),
        |i: int|
            if 0 <= i < s.len() {
                bare_stmt(s[i])
            } else {
                arbitrary()
            },
    )
}

pub open spec fn bare_patterns(s: Seq<(PatternView, Location)>) -> Seq<(PatternView, Location)>
    decreases s, 0nat,
{
    Seq::new(
        s.len(),
        |i: int|
            if 0 <= i < s.len() {
                (bare_pattern(s[i].0), nowhere())
            } else {
                arbitrary()
            },
    )
}

pub open spec fn bare_expr_branches(s: Seq<(Seq<(PatternView, Location)>, ExprView)>) -> Seq<(Seq<(PatternView, Location)>, ExprView)>
    decreases s, 0nat,
{
    Seq::new(
        s.len(),
        |i: int|
            if 0 <= i < s.len() {
                (bare_patterns(s[i].0), bare_expr(s[i].1))
            } else {
                arbitrary()
            },
    )
}

pub open spec fn bare_stmt_branches(s: Seq<(Seq<(PatternView, Location)>, StmtView)>) -> Seq<(Seq<(PatternView, Location)>, StmtView)>
    decreases s, 0nat,
{
    Seq::new(
        s.len(),
        |i: int|
            if 0 <= i < s.len() {
                (bare_patterns(s[i].0), bare_stmt(s[i].1))
            } else {
                arbitrary()
            },
    )
}

pub open spec fn bare_bindings(s: Seq<((PatternView, Location), ExprView)>) -> Seq<((PatternView, Location), ExprView)>
    decreases s, 0nat,
{
    Seq::new(
        s.len(),
        |i: int|
            if 0 <= i < s.len() {
                ((bare_pattern(s[i].0.0), nowhere()), bare_expr(s[i].1))
            } else {
                arbitrary()
            },
    )
}

} // verus!
