//! Walking the syntax tree: a hook before the children of a node and a
//! hook after them, for every kind of node.

use vstd::prelude::*;
use crate::ast::expr::{
    expr_branch_views, expr_views, Expr, ExprKind, ExprKindView, ExprView,
};
use crate::ast::pattern::{
    pattern_views, Pattern, PatternTerm, PatternTermView, PatternView,
};
use crate::ast::stmt::{
    binding_views, opt_expr_view, opt_stmt_view, stmt_branch_views, stmt_views, Stmt, StmtKind,
    StmtKindView, StmtView,
};
use crate::ast::{
    body_expr_views, body_stmt_views, decl_views, param_views, section_views, Decl, DeclView,
    Function, FunctionBody, FunctionBodyView, FunctionView, Param, ParamView, Program, Section,
    SectionView,
};
use crate::ast::trail::{
    after, before, lemma_went_less, lemma_went_none, lemma_went_on, lemma_went_short, went, Mark,
    Step, Trail,
};
use crate::source_file::{Located, Location};

verus! {

/// What a hook asks of the walk.
#[derive(Clone, Copy, Debug, PartialEq, Eq, Structural)]
pub enum Action {
    Continue,
    Break,
}

/// Whether the walk goes on after a hook has returned `r`.
pub open spec fn goes_on<E>(r: Result<Action, E>) -> bool {
    r matches Ok(Action::Continue)
}

/// The larger of two numbers.
pub open spec fn hmax(a: nat, b: nat) -> nat {
    if a >= b {
        a
    } else {
        b
    }
}

/// The height of an expression: one more than the height of its tallest
/// child.
pub open spec fn expr_height(e: Expr) -> nat
    decreases e,
{
    1 + match e.kind {
        ExprKind::Add(l, r) => hmax(expr_height(*l), expr_height(*r)),
        ExprKind::Sub(l, r) => hmax(expr_height(*l), expr_height(*r)),
        ExprKind::Mul(l, r) => hmax(expr_height(*l), expr_height(*r)),
        ExprKind::Div(l, r) => hmax(expr_height(*l), expr_height(*r)),
        ExprKind::Mod(l, r) => hmax(expr_height(*l), expr_height(*r)),
        ExprKind::And(l, r) => hmax(expr_height(*l), expr_height(*r)),
        ExprKind::Or(l, r) => hmax(expr_height(*l), expr_height(*r)),
        ExprKind::XOr(l, r) => hmax(expr_height(*l), expr_height(*r)),
        ExprKind::Eq(l, r) => hmax(expr_height(*l), expr_height(*r)),
        ExprKind::Ne(l, r) => hmax(expr_height(*l), expr_height(*r)),
        ExprKind::Gt(l, r) => hmax(expr_height(*l), expr_height(*r)),
        ExprKind::Ge(l, r) => hmax(expr_height(*l), expr_height(*r)),
        ExprKind::Lt(l, r) => hmax(expr_height(*l), expr_height(*r)),
        ExprKind::Le(l, r) => hmax(expr_height(*l), expr_height(*r)),
        ExprKind::LShift(l, r) => hmax(expr_height(*l), expr_height(*r)),
        ExprKind::RShift(l, r) => hmax(expr_height(*l), expr_height(*r)),
        ExprKind::Abs(x) => expr_height(*x),
        ExprKind::Not(x) => expr_height(*x),
        ExprKind::Ref(x) => expr_height(*x),
        ExprKind::Deref(x) => expr_height(*x),
        ExprKind::Cast(x) => expr_height(*x),
        ExprKind::ImplicitCast(x) => expr_height(*x),
        ExprKind::ValOf(s) => stmt_height(*s),
        ExprKind::FuncCall(c, args) => hmax(expr_height(*c), exprs_height(args@)),
        ExprKind::Conditional(c, a, b) => hmax(
            expr_height(*c),
            hmax(expr_height(*a), expr_height(*b)),
        ),
        ExprKind::Match(args, branches) => hmax(exprs_height(args@), expr_branches_height(branches@)),
        ExprKind::Every(args, branches) => hmax(exprs_height(args@), expr_branches_height(branches@)),
        _ => 0,
    }
}

/// The height of a statement.
pub open spec fn stmt_height(s: Stmt) -> nat
    decreases s,
{
    1 + match s.kind {
        StmtKind::Expr(e) => expr_height(*e),
        StmtKind::ResultIs(e) => expr_height(*e),
        StmtKind::Case(e) => expr_height(*e),
        StmtKind::Block(stmts) => stmts_height(stmts@),
        StmtKind::If(c, a, b) => hmax(
            expr_height(*c),
            hmax(
                stmt_height(*a),
                match b {
                    Some(x) => stmt_height(*x),
                    None => 0,
                },
            ),
        ),
        StmtKind::Unless(c, b) => hmax(expr_height(*c), stmt_height(*b)),
        StmtKind::SwitchOn(c, b) => hmax(expr_height(*c), stmt_height(*b)),
        StmtKind::While(c, b) => hmax(expr_height(*c), stmt_height(*b)),
        StmtKind::Until(c, b) => hmax(expr_height(*c), stmt_height(*b)),
        StmtKind::For(it, init, bound, step, body) => hmax(
            pattern_height(it.inner),
            hmax(
                expr_height(*init),
                hmax(
                    match bound {
                        Some(x) => expr_height(*x),
                        None => 0,
                    },
                    hmax(
                        match step {
                            Some(x) => expr_height(*x),
                            None => 0,
                        },
                        stmt_height(*body),
                    ),
                ),
            ),
        ),
        StmtKind::Match(args, branches) => hmax(exprs_height(args@), stmt_branches_height(branches@)),
        StmtKind::Every(args, branches) => hmax(exprs_height(args@), stmt_branches_height(branches@)),
        StmtKind::Binding(pairs) => bindings_height(pairs@),
        _ => 0,
    }
}

pub open spec fn term_height(t: PatternTerm) -> nat
    decreases t,
{
    match t {
        PatternTerm::Basic(e) => expr_height(e),
        PatternTerm::Lt(e) => expr_height(e),
        PatternTerm::Le(e) => expr_height(e),
        PatternTerm::Gt(e) => expr_height(e),
        PatternTerm::Ge(e) => expr_height(e),
        PatternTerm::Ne(e) => expr_height(e),
        PatternTerm::Eq(e) => expr_height(e),
        PatternTerm::Range(a, b) => hmax(expr_height(a), expr_height(b)),
    }
}

/// The height of a pattern.
pub open spec fn pattern_height(p: Pattern) -> nat
    decreases p,
{
    1 + match p {
        Pattern::Term(t) => term_height(t),
        Pattern::Or(a, b) => hmax(pattern_height(a.inner), pattern_height(b.inner)),
        Pattern::And(a, b) => hmax(pattern_height(a.inner), pattern_height(b.inner)),
        Pattern::Variant(_, args) => patterns_height(args@),
        Pattern::List(args) => patterns_height(args@),
        _ => 0,
    }
}

/// The height of a parameter.
pub open spec fn param_height(p: Param) -> nat
    decreases p,
{
    1 + hmax(
        pattern_height(p.ident.inner),
        match p.default_value {
            Some(x) => expr_height(x),
            None => 0,
        },
    )
}

pub open spec fn body_height(b: FunctionBody) -> nat
    decreases b,
{
    match b {
        FunctionBody::Expr(e) => expr_height(e),
        FunctionBody::Stmt(s) => stmt_height(s),
        FunctionBody::PatternMatchedExpr(branches) => body_exprs_height(branches@),
        FunctionBody::PatternMatchedStmt(branches) => body_stmts_height(branches@),
    }
}

/// The height of a function.
pub open spec fn function_height(f: Function) -> nat
    decreases f,
{
    1 + hmax(params_height(f.params@), body_height(f.body))
}

/// The height of a declaration: that of a function; a constant is not
/// walked into.
pub open spec fn decl_height(d: Decl) -> nat
    decreases d,
{
    match d {
        Decl::Function(f) => function_height(f),
        Decl::Manifest(_) => 0,
    }
}

/// The height of a section.
pub open spec fn section_height(s: Section) -> nat
    decreases s,
{
    1 + decls_height(s.declarations@)
}

/// The height of a program.
pub open spec fn program_height(p: Program) -> nat
    decreases p,
{
    1 + sections_height(p.sections@)
}

/// The height of the tallest of the list.
pub open spec fn exprs_height(s: Seq<Expr>) -> nat
    decreases s,
{
    if s.len() == 0 {
        0
    } else {
        hmax(expr_height(s.last()), exprs_height(s.drop_last()))
    }
}

pub proof fn lemma_exprs_member(s: Seq<Expr>, i: int)
    requires
        0 <= i < s.len(),
    ensures
        expr_height(s[i]) <= exprs_height(s),
    decreases s.len(),
{
    if i < s.len() - 1 {
        lemma_exprs_member(s.drop_last(), i);
    }
}

pub proof fn lemma_exprs_update(s: Seq<Expr>, i: int, x: Expr)
    requires
        0 <= i < s.len(),
        expr_height(x) <= expr_height(s[i]),
    ensures
        exprs_height(s.update(i, x)) <= exprs_height(s),
    decreases s.len(),
{
    if i < s.len() - 1 {
        lemma_exprs_update(s.drop_last(), i, x);
        assert(s.update(i, x).drop_last() =~= s.drop_last().update(i, x));
    } else {
        assert(s.update(i, x).drop_last() =~= s.drop_last());
    }
}

/// The height of the tallest of the list.
pub open spec fn stmts_height(s: Seq<Stmt>) -> nat
    decreases s,
{
    if s.len() == 0 {
        0
    } else {
        hmax(stmt_height(s.last()), stmts_height(s.drop_last()))
    }
}

pub proof fn lemma_stmts_member(s: Seq<Stmt>, i: int)
    requires
        0 <= i < s.len(),
    ensures
        stmt_height(s[i]) <= stmts_height(s),
    decreases s.len(),
{
    if i < s.len() - 1 {
        lemma_stmts_member(s.drop_last(), i);
    }
}

pub proof fn lemma_stmts_update(s: Seq<Stmt>, i: int, x: Stmt)
    requires
        0 <= i < s.len(),
        stmt_height(x) <= stmt_height(s[i]),
    ensures
        stmts_height(s.update(i, x)) <= stmts_height(s),
    decreases s.len(),
{
    if i < s.len() - 1 {
        lemma_stmts_update(s.drop_last(), i, x);
        assert(s.update(i, x).drop_last() =~= s.drop_last().update(i, x));
    } else {
        assert(s.update(i, x).drop_last() =~= s.drop_last());
    }
}

/// The height of the tallest of the list.
pub open spec fn patterns_height(s: Seq<Located<Pattern>>) -> nat
    decreases s,
{
    if s.len() == 0 {
        0
    } else {
        hmax(pattern_height(s.last().inner), patterns_height(s.drop_last()))
    }
}

pub proof fn lemma_patterns_member(s: Seq<Located<Pattern>>, i: int)
    requires
        0 <= i < s.len(),
    ensures
        pattern_height(s[i].inner) <= patterns_height(s),
    decreases s.len(),
{
    if i < s.len() - 1 {
        lemma_patterns_member(s.drop_last(), i);
    }
}

pub proof fn lemma_patterns_update(s: Seq<Located<Pattern>>, i: int, x: Located<Pattern>)
    requires
        0 <= i < s.len(),
        pattern_height(x.inner) <= pattern_height(s[i].inner),
    ensures
        patterns_height(s.update(i, x)) <= patterns_height(s),
    decreases s.len(),
{
    if i < s.len() - 1 {
        lemma_patterns_update(s.drop_last(), i, x);
        assert(s.update(i, x).drop_last() =~= s.drop_last().update(i, x));
    } else {
        assert(s.update(i, x).drop_last() =~= s.drop_last());
    }
}

/// The height of the tallest of the list.
pub open spec fn expr_branches_height(s: Seq<(Vec<Located<Pattern>>, Box<Expr>)>) -> nat
    decreases s,
{
    if s.len() == 0 {
        0
    } else {
        hmax(hmax(patterns_height(s.last().0@), expr_height(*s.last().1)), expr_branches_height(s.drop_last()))
    }
}

pub proof fn lemma_expr_branches_member(s: Seq<(Vec<Located<Pattern>>, Box<Expr>)>, i: int)
    requires
        0 <= i < s.len(),
    ensures
        hmax(patterns_height(s[i].0@), expr_height(*s[i].1)) <= expr_branches_height(s),
    decreases s.len(),
{
    if i < s.len() - 1 {
        lemma_expr_branches_member(s.drop_last(), i);
    }
}

pub proof fn lemma_expr_branches_update(s: Seq<(Vec<Located<Pattern>>, Box<Expr>)>, i: int, x: (Vec<Located<Pattern>>, Box<Expr>))
    requires
        0 <= i < s.len(),
        hmax(patterns_height(x.0@), expr_height(*x.1)) <= hmax(patterns_height(s[i].0@), expr_height(*s[i].1)),
    ensures
        expr_branches_height(s.update(i, x)) <= expr_branches_height(s),
    decreases s.len(),
{
    if i < s.len() - 1 {
        lemma_expr_branches_update(s.drop_last(), i, x);
        assert(s.update(i, x).drop_last() =~= s.drop_last().update(i, x));
    } else {
        assert(s.update(i, x).drop_last() =~= s.drop_last());
    }
}

/// The height of the tallest of the list.
pub open spec fn stmt_branches_height(s: Seq<(Vec<Located<Pattern>>, Box<Stmt>)>) -> nat
    decreases s,
{
    if s.len() == 0 {
        0
    } else {
        hmax(hmax(patterns_height(s.last().0@), stmt_height(*s.last().1)), stmt_branches_height(s.drop_last()))
    }
}

pub proof fn lemma_stmt_branches_member(s: Seq<(Vec<Located<Pattern>>, Box<Stmt>)>, i: int)
    requires
        0 <= i < s.len(),
    ensures
        hmax(patterns_height(s[i].0@), stmt_height(*s[i].1)) <= stmt_branches_height(s),
    decreases s.len(),
{
    if i < s.len() - 1 {
        lemma_stmt_branches_member(s.drop_last(), i);
    }
}

pub proof fn lemma_stmt_branches_update(s: Seq<(Vec<Located<Pattern>>, Box<Stmt>)>, i: int, x: (Vec<Located<Pattern>>, Box<Stmt>))
    requires
        0 <= i < s.len(),
        hmax(patterns_height(x.0@), stmt_height(*x.1)) <= hmax(patterns_height(s[i].0@), stmt_height(*s[i].1)),
    ensures
        stmt_branches_height(s.update(i, x)) <= stmt_branches_height(s),
    decreases s.len(),
{
    if i < s.len() - 1 {
        lemma_stmt_branches_update(s.drop_last(), i, x);
        assert(s.update(i, x).drop_last() =~= s.drop_last().update(i, x));
    } else {
        assert(s.update(i, x).drop_last() =~= s.drop_last());
    }
}

/// The height of the tallest of the list.
pub open spec fn bindings_height(s: Seq<(Located<Pattern>, Expr)>) -> nat
    decreases s,
{
    if s.len() == 0 {
        0
    } else {
        hmax(hmax(pattern_height(s.last().0.inner), expr_height(s.last().1)), bindings_height(s.drop_last()))
    }
}

pub proof fn lemma_bindings_member(s: Seq<(Located<Pattern>, Expr)>, i: int)
    requires
        0 <= i < s.len(),
    ensures
        hmax(pattern_height(s[i].0.inner), expr_height(s[i].1)) <= bindings_height(s),
    decreases s.len(),
{
    if i < s.len() - 1 {
        lemma_bindings_member(s.drop_last(), i);
    }
}

pub proof fn lemma_bindings_update(s: Seq<(Located<Pattern>, Expr)>, i: int, x: (Located<Pattern>, Expr))
    requires
        0 <= i < s.len(),
        hmax(pattern_height(x.0.inner), expr_height(x.1)) <= hmax(pattern_height(s[i].0.inner), expr_height(s[i].1)),
    ensures
        bindings_height(s.update(i, x)) <= bindings_height(s),
    decreases s.len(),
{
    if i < s.len() - 1 {
        lemma_bindings_update(s.drop_last(), i, x);
        assert(s.update(i, x).drop_last() =~= s.drop_last().update(i, x));
    } else {
        assert(s.update(i, x).drop_last() =~= s.drop_last());
    }
}

/// The height of the tallest of the list.
pub open spec fn body_exprs_height(s: Seq<(Vec<Located<Pattern>>, Expr)>) -> nat
    decreases s,
{
    if s.len() == 0 {
        0
    } else {
        hmax(hmax(patterns_height(s.last().0@), expr_height(s.last().1)), body_exprs_height(s.drop_last()))
    }
}

pub proof fn lemma_body_exprs_member(s: Seq<(Vec<Located<Pattern>>, Expr)>, i: int)
    requires
        0 <= i < s.len(),
    ensures
        hmax(patterns_height(s[i].0@), expr_height(s[i].1)) <= body_exprs_height(s),
    decreases s.len(),
{
    if i < s.len() - 1 {
        lemma_body_exprs_member(s.drop_last(), i);
    }
}

pub proof fn lemma_body_exprs_update(s: Seq<(Vec<Located<Pattern>>, Expr)>, i: int, x: (Vec<Located<Pattern>>, Expr))
    requires
        0 <= i < s.len(),
        hmax(patterns_height(x.0@), expr_height(x.1)) <= hmax(patterns_height(s[i].0@), expr_height(s[i].1)),
    ensures
        body_exprs_height(s.update(i, x)) <= body_exprs_height(s),
    decreases s.len(),
{
    if i < s.len() - 1 {
        lemma_body_exprs_update(s.drop_last(), i, x);
        assert(s.update(i, x).drop_last() =~= s.drop_last().update(i, x));
    } else {
        assert(s.update(i, x).drop_last() =~= s.drop_last());
    }
}

/// The height of the tallest of the list.
pub open spec fn body_stmts_height(s: Seq<(Vec<Located<Pattern>>, Stmt)>) -> nat
    decreases s,
{
    if s.len() == 0 {
        0
    } else {
        hmax(hmax(patterns_height(s.last().0@), stmt_height(s.last().1)), body_stmts_height(s.drop_last()))
    }
}

pub proof fn lemma_body_stmts_member(s: Seq<(Vec<Located<Pattern>>, Stmt)>, i: int)
    requires
        0 <= i < s.len(),
    ensures
        hmax(patterns_height(s[i].0@), stmt_height(s[i].1)) <= body_stmts_height(s),
    decreases s.len(),
{
    if i < s.len() - 1 {
        lemma_body_stmts_member(s.drop_last(), i);
    }
}

pub proof fn lemma_body_stmts_update(s: Seq<(Vec<Located<Pattern>>, Stmt)>, i: int, x: (Vec<Located<Pattern>>, Stmt))
    requires
        0 <= i < s.len(),
        hmax(patterns_height(x.0@), stmt_height(x.1)) <= hmax(patterns_height(s[i].0@), stmt_height(s[i].1)),
    ensures
        body_stmts_height(s.update(i, x)) <= body_stmts_height(s),
    decreases s.len(),
{
    if i < s.len() - 1 {
        lemma_body_stmts_update(s.drop_last(), i, x);
        assert(s.update(i, x).drop_last() =~= s.drop_last().update(i, x));
    } else {
        assert(s.update(i, x).drop_last() =~= s.drop_last());
    }
}

/// The height of the tallest of the list.
pub open spec fn params_height(s: Seq<Param>) -> nat
    decreases s,
{
    if s.len() == 0 {
        0
    } else {
        hmax(param_height(s.last()), params_height(s.drop_last()))
    }
}

pub proof fn lemma_params_member(s: Seq<Param>, i: int)
    requires
        0 <= i < s.len(),
    ensures
        param_height(s[i]) <= params_height(s),
    decreases s.len(),
{
    if i < s.len() - 1 {
        lemma_params_member(s.drop_last(), i);
    }
}

pub proof fn lemma_params_update(s: Seq<Param>, i: int, x: Param)
    requires
        0 <= i < s.len(),
        param_height(x) <= param_height(s[i]),
    ensures
        params_height(s.update(i, x)) <= params_height(s),
    decreases s.len(),
{
    if i < s.len() - 1 {
        lemma_params_update(s.drop_last(), i, x);
        assert(s.update(i, x).drop_last() =~= s.drop_last().update(i, x));
    } else {
        assert(s.update(i, x).drop_last() =~= s.drop_last());
    }
}

/// The height of the tallest of the list.
pub open spec fn decls_height(s: Seq<Decl>) -> nat
    decreases s,
{
    if s.len() == 0 {
        0
    } else {
        hmax(decl_height(s.last()), decls_height(s.drop_last()))
    }
}

pub proof fn lemma_decls_member(s: Seq<Decl>, i: int)
    requires
        0 <= i < s.len(),
    ensures
        decl_height(s[i]) <= decls_height(s),
    decreases s.len(),
{
    if i < s.len() - 1 {
        lemma_decls_member(s.drop_last(), i);
    }
}

pub proof fn lemma_decls_update(s: Seq<Decl>, i: int, x: Decl)
    requires
        0 <= i < s.len(),
        decl_height(x) <= decl_height(s[i]),
    ensures
        decls_height(s.update(i, x)) <= decls_height(s),
    decreases s.len(),
{
    if i < s.len() - 1 {
        lemma_decls_update(s.drop_last(), i, x);
        assert(s.update(i, x).drop_last() =~= s.drop_last().update(i, x));
    } else {
        assert(s.update(i, x).drop_last() =~= s.drop_last());
    }
}

/// The height of the tallest of the list.
pub open spec fn sections_height(s: Seq<Section>) -> nat
    decreases s,
{
    if s.len() == 0 {
        0
    } else {
        hmax(section_height(s.last()), sections_height(s.drop_last()))
    }
}

pub proof fn lemma_sections_member(s: Seq<Section>, i: int)
    requires
        0 <= i < s.len(),
    ensures
        section_height(s[i]) <= sections_height(s),
    decreases s.len(),
{
    if i < s.len() - 1 {
        lemma_sections_member(s.drop_last(), i);
    }
}

pub proof fn lemma_sections_update(s: Seq<Section>, i: int, x: Section)
    requires
        0 <= i < s.len(),
        section_height(x) <= section_height(s[i]),
    ensures
        sections_height(s.update(i, x)) <= sections_height(s),
    decreases s.len(),
{
    if i < s.len() - 1 {
        lemma_sections_update(s.drop_last(), i, x);
        assert(s.update(i, x).drop_last() =~= s.drop_last().update(i, x));
    } else {
        assert(s.update(i, x).drop_last() =~= s.drop_last());
    }
}

/// Whether the walk goes on after a hook or a part of the walk has
/// returned `r`; where it does not, the walk returns `r` at once.
pub fn goes<E>(r: &Result<Action, E>) -> (go: bool)
    ensures
        go == goes_on(*r),
{
    match r {
        Ok(Action::Continue) => true,
        _ => false,
    }
}

/// The steps of the walk of an expression: the hook before, the steps of
/// its operands in the order in which they are written, the hook after.
pub open spec fn expr_steps(e: ExprView) -> Seq<Step>
    decreases e, 1nat,
{
    (before(Mark::Expr(e)) + expr_parts(e)) + after(Mark::Expr(e))
}

/// The steps of the walk of the operands of an expression.
pub open spec fn expr_parts(e: ExprView) -> Seq<Step>
    decreases e, 0nat,
{
    match e.kind {
        ExprKindView::Add(l, r) => expr_steps(*l) + expr_steps(*r),
        ExprKindView::Sub(l, r) => expr_steps(*l) + expr_steps(*r),
        ExprKindView::Mul(l, r) => expr_steps(*l) + expr_steps(*r),
        ExprKindView::Div(l, r) => expr_steps(*l) + expr_steps(*r),
        ExprKindView::Mod(l, r) => expr_steps(*l) + expr_steps(*r),
        ExprKindView::And(l, r) => expr_steps(*l) + expr_steps(*r),
        ExprKindView::Or(l, r) => expr_steps(*l) + expr_steps(*r),
        ExprKindView::XOr(l, r) => expr_steps(*l) + expr_steps(*r),
        ExprKindView::Eq(l, r) => expr_steps(*l) + expr_steps(*r),
        ExprKindView::Ne(l, r) => expr_steps(*l) + expr_steps(*r),
        ExprKindView::Gt(l, r) => expr_steps(*l) + expr_steps(*r),
        ExprKindView::Ge(l, r) => expr_steps(*l) + expr_steps(*r),
        ExprKindView::Lt(l, r) => expr_steps(*l) + expr_steps(*r),
        ExprKindView::Le(l, r) => expr_steps(*l) + expr_steps(*r),
        ExprKindView::LShift(l, r) => expr_steps(*l) + expr_steps(*r),
        ExprKindView::RShift(l, r) => expr_steps(*l) + expr_steps(*r),
        ExprKindView::Abs(x) => expr_steps(*x),
        ExprKindView::Not(x) => expr_steps(*x),
        ExprKindView::Ref(x) => expr_steps(*x),
        ExprKindView::Deref(x) => expr_steps(*x),
        ExprKindView::Cast(x) => expr_steps(*x),
        ExprKindView::ImplicitCast(x) => expr_steps(*x),
        ExprKindView::ValOf(s) => stmt_steps(*s),
        ExprKindView::FuncCall(c, args) => expr_steps(*c) + exprs_steps(args),
        ExprKindView::Conditional(c, a, b) => (expr_steps(*c) + expr_steps(*a)) + expr_steps(*b),
        ExprKindView::Match(args, branches) => exprs_steps(args) + expr_branches_steps(branches),
        ExprKindView::Every(args, branches) => exprs_steps(args) + expr_branches_steps(branches),
        _ => Seq::empty(),
    }
}

/// The steps of the walk of an expression that may be missing.
pub open spec fn opt_expr_steps(e: Option<Box<ExprView>>) -> Seq<Step>
    decreases e, 0nat,
{
    match e {
        Some(x) => expr_steps(*x),
        None => Seq::empty(),
    }
}

/// The steps of the walk of a statement that may be missing.
pub open spec fn opt_stmt_steps(s: Option<Box<StmtView>>) -> Seq<Step>
    decreases s, 0nat,
{
    match s {
        Some(x) => stmt_steps(*x),
        None => Seq::empty(),
    }
}

/// The steps of the walk of a statement: the hook before, the steps of its
/// parts in the order in which they are written, the hook after.
pub open spec fn stmt_steps(s: StmtView) -> Seq<Step>
    decreases s, 1nat,
{
    (before(Mark::Stmt(s)) + stmt_parts(s)) + after(Mark::Stmt(s))
}

/// The steps of the walk of the parts of a statement.
pub open spec fn stmt_parts(s: StmtView) -> Seq<Step>
    decreases s, 0nat,
{
    match s.kind {
        StmtKindView::Expr(e) => expr_steps(*e),
        StmtKindView::ResultIs(e) => expr_steps(*e),
        StmtKindView::Case(e) => expr_steps(*e),
        StmtKindView::Block(stmts) => stmts_steps(stmts),
        StmtKindView::If(c, a, b) => (expr_steps(*c) + stmt_steps(*a)) + opt_stmt_steps(b),
        StmtKindView::Unless(c, b) => expr_steps(*c) + stmt_steps(*b),
        StmtKindView::SwitchOn(c, b) => expr_steps(*c) + stmt_steps(*b),
        StmtKindView::While(c, b) => expr_steps(*c) + stmt_steps(*b),
        StmtKindView::Until(c, b) => expr_steps(*c) + stmt_steps(*b),
        StmtKindView::For(it, init, bound, step, body) => ((((pattern_steps(it.0) + expr_steps(
            *init,
        )) + opt_expr_steps(bound)) + opt_expr_steps(step))) + stmt_steps(*body),
        StmtKindView::Match(args, branches) => exprs_steps(args) + stmt_branches_steps(branches),
        StmtKindView::Every(args, branches) => exprs_steps(args) + stmt_branches_steps(branches),
        StmtKindView::Binding(pairs) => bindings_steps(pairs),
        _ => Seq::empty(),
    }
}

/// The steps of the walk of a pattern: the hook before, the steps of its
/// parts in the order in which they are written, the hook after.
pub open spec fn pattern_steps(p: PatternView) -> Seq<Step>
    decreases p, 1nat,
{
    (before(Mark::Pattern(p)) + pattern_parts(p)) + after(Mark::Pattern(p))
}

/// The steps of the walk of the parts of a pattern.
pub open spec fn pattern_parts(p: PatternView) -> Seq<Step>
    decreases p, 0nat,
{
    match p {
        PatternView::Term(t) => term_steps(t),
        PatternView::Or(l, r) => pattern_steps((*l).0) + pattern_steps((*r).0),
        PatternView::And(l, r) => pattern_steps((*l).0) + pattern_steps((*r).0),
        PatternView::Variant(_, args) => patterns_steps(args),
        PatternView::List(args) => patterns_steps(args),
        _ => Seq::empty(),
    }
}

/// The steps of the walk of the expressions of a pattern term.
pub open spec fn term_steps(t: PatternTermView) -> Seq<Step>
    decreases t, 0nat,
{
    match t {
        PatternTermView::Basic(e) => expr_steps(e),
        PatternTermView::Lt(e) => expr_steps(e),
        PatternTermView::Le(e) => expr_steps(e),
        PatternTermView::Gt(e) => expr_steps(e),
        PatternTermView::Ge(e) => expr_steps(e),
        PatternTermView::Ne(e) => expr_steps(e),
        PatternTermView::Eq(e) => expr_steps(e),
        PatternTermView::Range(a, b) => expr_steps(a) + expr_steps(b),
    }
}

/// The steps of the walk of a list: those of each item, in the order of the
/// list.
pub open spec fn exprs_steps(s: Seq<ExprView>) -> Seq<Step>
    decreases s, 0nat,
{
    if s.len() == 0 {
        Seq::empty()
    } else {
        exprs_steps(s.drop_last()) + (expr_steps(s.last()))
    }
}

/// The steps of the walk of a list: those of each item, in the order of the
/// list.
pub open spec fn stmts_steps(s: Seq<StmtView>) -> Seq<Step>
    decreases s, 0nat,
{
    if s.len() == 0 {
        Seq::empty()
    } else {
        stmts_steps(s.drop_last()) + (stmt_steps(s.last()))
    }
}

/// The steps of the walk of a list: those of each item, in the order of the
/// list.
pub open spec fn patterns_steps(s: Seq<(PatternView, Location)>) -> Seq<Step>
    decreases s, 0nat,
{
    if s.len() == 0 {
        Seq::empty()
    } else {
        patterns_steps(s.drop_last()) + (pattern_steps(s.last().0))
    }
}

/// The steps of the walk of a list: those of each item, in the order of the
/// list.
pub open spec fn expr_branches_steps(s: Seq<(Seq<(PatternView, Location)>, ExprView)>) -> Seq<Step>
    decreases s, 0nat,
{
    if s.len() == 0 {
        Seq::empty()
    } else {
        expr_branches_steps(s.drop_last()) + (patterns_steps(s.last().0) + expr_steps(s.last().1))
    }
}

/// The steps of the walk of a list: those of each item, in the order of the
/// list.
pub open spec fn stmt_branches_steps(s: Seq<(Seq<(PatternView, Location)>, StmtView)>) -> Seq<Step>
    decreases s, 0nat,
{
    if s.len() == 0 {
        Seq::empty()
    } else {
        stmt_branches_steps(s.drop_last()) + (patterns_steps(s.last().0) + stmt_steps(s.last().1))
    }
}

/// The steps of the walk of a list: those of each item, in the order of the
/// list.
pub open spec fn bindings_steps(s: Seq<((PatternView, Location), ExprView)>) -> Seq<Step>
    decreases s, 0nat,
{
    if s.len() == 0 {
        Seq::empty()
    } else {
        bindings_steps(s.drop_last()) + (pattern_steps(s.last().0.0) + expr_steps(s.last().1))
    }
}

/// The steps of the walk of a parameter: the hook before, the steps of its
/// pattern and of its default value, the hook after.
pub open spec fn param_steps(p: ParamView) -> Seq<Step> {
    (before(Mark::Param(p)) + param_parts(p)) + after(Mark::Param(p))
}

/// The steps of the walk of the parts of a parameter.
pub open spec fn param_parts(p: ParamView) -> Seq<Step> {
    pattern_steps(p.ident) + (match p.default_value {
        Some(x) => expr_steps(x),
        None => Seq::empty(),
    })
}

/// The steps of the walk of the body of a function.
pub open spec fn body_steps(b: FunctionBodyView) -> Seq<Step> {
    match b {
        FunctionBodyView::Expr(e) => expr_steps(e),
        FunctionBodyView::Stmt(s) => stmt_steps(s),
        FunctionBodyView::PatternMatchedExpr(branches) => expr_branches_steps(branches),
        FunctionBodyView::PatternMatchedStmt(branches) => stmt_branches_steps(branches),
    }
}

/// The steps of the walk of a function: the hook before, the steps of its
/// parameters and of its body, the hook after.
pub open spec fn function_steps(f: FunctionView) -> Seq<Step> {
    (before(Mark::Function(f)) + function_parts(f)) + after(Mark::Function(f))
}

/// The steps of the walk of the parts of a function.
pub open spec fn function_parts(f: FunctionView) -> Seq<Step> {
    params_steps(f.params) + body_steps(f.body)
}

/// The steps of the walk of a declaration: those of a function; a constant
/// is passed over.
pub open spec fn decl_steps(d: DeclView) -> Seq<Step> {
    match d {
        DeclView::Function(f) => function_steps(f),
        DeclView::Manifest(_) => Seq::empty(),
    }
}

/// The steps of the walk of a section: the hook before, the steps of its
/// declarations in order, the hook after.
pub open spec fn section_steps(s: SectionView) -> Seq<Step> {
    (before(Mark::Section(s)) + decls_steps(s.declarations)) + after(Mark::Section(s))
}

/// The steps of the walk of a program: the hook before, the steps of its
/// sections in order, the hook after.
pub open spec fn program_steps(sections: Seq<SectionView>) -> Seq<Step> {
    (before(Mark::Program(sections)) + sections_steps(sections)) + after(Mark::Program(sections))
}

/// The steps of the walk of a list: those of each item, in the order of the
/// list.
pub open spec fn params_steps(s: Seq<ParamView>) -> Seq<Step>
    decreases s.len(),
{
    if s.len() == 0 {
        Seq::empty()
    } else {
        params_steps(s.drop_last()) + (param_steps(s.last()))
    }
}

/// The steps of the walk of a list: those of each item, in the order of the
/// list.
pub open spec fn decls_steps(s: Seq<DeclView>) -> Seq<Step>
    decreases s.len(),
{
    if s.len() == 0 {
        Seq::empty()
    } else {
        decls_steps(s.drop_last()) + (decl_steps(s.last()))
    }
}

/// The steps of the walk of a list: those of each item, in the order of the
/// list.
pub open spec fn sections_steps(s: Seq<SectionView>) -> Seq<Step>
    decreases s.len(),
{
    if s.len() == 0 {
        Seq::empty()
    } else {
        sections_steps(s.drop_last()) + (section_steps(s.last()))
    }
}

pub proof fn lemma_exprs_split(s: Seq<ExprView>, k: int)
    requires
        0 <= k <= s.len(),
    ensures
        exprs_steps(s) == exprs_steps(s.take(k)) + exprs_steps(s.skip(k)),
    decreases s.len(),
{
    if k == s.len() {
        assert(s.take(k) =~= s);
        assert(s.skip(k) =~= Seq::empty());
        assert(exprs_steps(s) =~= exprs_steps(s) + Seq::<Step>::empty());
    } else {
        let init = s.drop_last();
        lemma_exprs_split(init, k);
        assert(init.take(k) =~= s.take(k));
        assert(s.skip(k).drop_last() =~= init.skip(k));
        assert(s.skip(k).last() == s.last());
        assert(exprs_steps(s) =~= exprs_steps(s.take(k)) + exprs_steps(s.skip(k)));
    }
}

pub proof fn lemma_exprs_step(s: Seq<ExprView>, i: int)
    requires
        0 <= i < s.len(),
    ensures
        exprs_steps(s.take(i + 1)) == exprs_steps(s.take(i)) + (expr_steps(s[i])),
{
    assert(s.take(i + 1).drop_last() =~= s.take(i));
    assert(s.take(i + 1).last() == s[i]);
}

pub proof fn lemma_stmts_split(s: Seq<StmtView>, k: int)
    requires
        0 <= k <= s.len(),
    ensures
        stmts_steps(s) == stmts_steps(s.take(k)) + stmts_steps(s.skip(k)),
    decreases s.len(),
{
    if k == s.len() {
        assert(s.take(k) =~= s);
        assert(s.skip(k) =~= Seq::empty());
        assert(stmts_steps(s) =~= stmts_steps(s) + Seq::<Step>::empty());
    } else {
        let init = s.drop_last();
        lemma_stmts_split(init, k);
        assert(init.take(k) =~= s.take(k));
        assert(s.skip(k).drop_last() =~= init.skip(k));
        assert(s.skip(k).last() == s.last());
        assert(stmts_steps(s) =~= stmts_steps(s.take(k)) + stmts_steps(s.skip(k)));
    }
}

pub proof fn lemma_stmts_step(s: Seq<StmtView>, i: int)
    requires
        0 <= i < s.len(),
    ensures
        stmts_steps(s.take(i + 1)) == stmts_steps(s.take(i)) + (stmt_steps(s[i])),
{
    assert(s.take(i + 1).drop_last() =~= s.take(i));
    assert(s.take(i + 1).last() == s[i]);
}

pub proof fn lemma_patterns_split(s: Seq<(PatternView, Location)>, k: int)
    requires
        0 <= k <= s.len(),
    ensures
        patterns_steps(s) == patterns_steps(s.take(k)) + patterns_steps(s.skip(k)),
    decreases s.len(),
{
    if k == s.len() {
        assert(s.take(k) =~= s);
        assert(s.skip(k) =~= Seq::empty());
        assert(patterns_steps(s) =~= patterns_steps(s) + Seq::<Step>::empty());
    } else {
        let init = s.drop_last();
        lemma_patterns_split(init, k);
        assert(init.take(k) =~= s.take(k));
        assert(s.skip(k).drop_last() =~= init.skip(k));
        assert(s.skip(k).last() == s.last());
        assert(patterns_steps(s) =~= patterns_steps(s.take(k)) + patterns_steps(s.skip(k)));
    }
}

pub proof fn lemma_patterns_step(s: Seq<(PatternView, Location)>, i: int)
    requires
        0 <= i < s.len(),
    ensures
        patterns_steps(s.take(i + 1)) == patterns_steps(s.take(i)) + (pattern_steps(s[i].0)),
{
    assert(s.take(i + 1).drop_last() =~= s.take(i));
    assert(s.take(i + 1).last() == s[i]);
}

pub proof fn lemma_expr_branches_split(s: Seq<(Seq<(PatternView, Location)>, ExprView)>, k: int)
    requires
        0 <= k <= s.len(),
    ensures
        expr_branches_steps(s) == expr_branches_steps(s.take(k)) + expr_branches_steps(s.skip(k)),
    decreases s.len(),
{
    if k == s.len() {
        assert(s.take(k) =~= s);
        assert(s.skip(k) =~= Seq::empty());
        assert(expr_branches_steps(s) =~= expr_branches_steps(s) + Seq::<Step>::empty());
    } else {
        let init = s.drop_last();
        lemma_expr_branches_split(init, k);
        assert(init.take(k) =~= s.take(k));
        assert(s.skip(k).drop_last() =~= init.skip(k));
        assert(s.skip(k).last() == s.last());
        assert(expr_branches_steps(s) =~= expr_branches_steps(s.take(k)) + expr_branches_steps(s.skip(k)));
    }
}

pub proof fn lemma_expr_branches_step(s: Seq<(Seq<(PatternView, Location)>, ExprView)>, i: int)
    requires
        0 <= i < s.len(),
    ensures
        expr_branches_steps(s.take(i + 1)) == expr_branches_steps(s.take(i)) + (patterns_steps(s[i].0) + expr_steps(s[i].1)),
{
    assert(s.take(i + 1).drop_last() =~= s.take(i));
    assert(s.take(i + 1).last() == s[i]);
}

pub proof fn lemma_stmt_branches_split(s: Seq<(Seq<(PatternView, Location)>, StmtView)>, k: int)
    requires
        0 <= k <= s.len(),
    ensures
        stmt_branches_steps(s) == stmt_branches_steps(s.take(k)) + stmt_branches_steps(s.skip(k)),
    decreases s.len(),
{
    if k == s.len() {
        assert(s.take(k) =~= s);
        assert(s.skip(k) =~= Seq::empty());
        assert(stmt_branches_steps(s) =~= stmt_branches_steps(s) + Seq::<Step>::empty());
    } else {
        let init = s.drop_last();
        lemma_stmt_branches_split(init, k);
        assert(init.take(k) =~= s.take(k));
        assert(s.skip(k).drop_last() =~= init.skip(k));
        assert(s.skip(k).last() == s.last());
        assert(stmt_branches_steps(s) =~= stmt_branches_steps(s.take(k)) + stmt_branches_steps(s.skip(k)));
    }
}

pub proof fn lemma_stmt_branches_step(s: Seq<(Seq<(PatternView, Location)>, StmtView)>, i: int)
    requires
        0 <= i < s.len(),
    ensures
        stmt_branches_steps(s.take(i + 1)) == stmt_branches_steps(s.take(i)) + (patterns_steps(s[i].0) + stmt_steps(s[i].1)),
{
    assert(s.take(i + 1).drop_last() =~= s.take(i));
    assert(s.take(i + 1).last() == s[i]);
}

pub proof fn lemma_bindings_split(s: Seq<((PatternView, Location), ExprView)>, k: int)
    requires
        0 <= k <= s.len(),
    ensures
        bindings_steps(s) == bindings_steps(s.take(k)) + bindings_steps(s.skip(k)),
    decreases s.len(),
{
    if k == s.len() {
        assert(s.take(k) =~= s);
        assert(s.skip(k) =~= Seq::empty());
        assert(bindings_steps(s) =~= bindings_steps(s) + Seq::<Step>::empty());
    } else {
        let init = s.drop_last();
        lemma_bindings_split(init, k);
        assert(init.take(k) =~= s.take(k));
        assert(s.skip(k).drop_last() =~= init.skip(k));
        assert(s.skip(k).last() == s.last());
        assert(bindings_steps(s) =~= bindings_steps(s.take(k)) + bindings_steps(s.skip(k)));
    }
}

pub proof fn lemma_bindings_step(s: Seq<((PatternView, Location), ExprView)>, i: int)
    requires
        0 <= i < s.len(),
    ensures
        bindings_steps(s.take(i + 1)) == bindings_steps(s.take(i)) + (pattern_steps(s[i].0.0) + expr_steps(s[i].1)),
{
    assert(s.take(i + 1).drop_last() =~= s.take(i));
    assert(s.take(i + 1).last() == s[i]);
}

pub proof fn lemma_params_split(s: Seq<ParamView>, k: int)
    requires
        0 <= k <= s.len(),
    ensures
        params_steps(s) == params_steps(s.take(k)) + params_steps(s.skip(k)),
    decreases s.len(),
{
    if k == s.len() {
        assert(s.take(k) =~= s);
        assert(s.skip(k) =~= Seq::empty());
        assert(params_steps(s) =~= params_steps(s) + Seq::<Step>::empty());
    } else {
        let init = s.drop_last();
        lemma_params_split(init, k);
        assert(init.take(k) =~= s.take(k));
        assert(s.skip(k).drop_last() =~= init.skip(k));
        assert(s.skip(k).last() == s.last());
        assert(params_steps(s) =~= params_steps(s.take(k)) + params_steps(s.skip(k)));
    }
}

pub proof fn lemma_params_step(s: Seq<ParamView>, i: int)
    requires
        0 <= i < s.len(),
    ensures
        params_steps(s.take(i + 1)) == params_steps(s.take(i)) + (param_steps(s[i])),
{
    assert(s.take(i + 1).drop_last() =~= s.take(i));
    assert(s.take(i + 1).last() == s[i]);
}

pub proof fn lemma_decls_split(s: Seq<DeclView>, k: int)
    requires
        0 <= k <= s.len(),
    ensures
        decls_steps(s) == decls_steps(s.take(k)) + decls_steps(s.skip(k)),
    decreases s.len(),
{
    if k == s.len() {
        assert(s.take(k) =~= s);
        assert(s.skip(k) =~= Seq::empty());
        assert(decls_steps(s) =~= decls_steps(s) + Seq::<Step>::empty());
    } else {
        let init = s.drop_last();
        lemma_decls_split(init, k);
        assert(init.take(k) =~= s.take(k));
        assert(s.skip(k).drop_last() =~= init.skip(k));
        assert(s.skip(k).last() == s.last());
        assert(decls_steps(s) =~= decls_steps(s.take(k)) + decls_steps(s.skip(k)));
    }
}

pub proof fn lemma_decls_step(s: Seq<DeclView>, i: int)
    requires
        0 <= i < s.len(),
    ensures
        decls_steps(s.take(i + 1)) == decls_steps(s.take(i)) + (decl_steps(s[i])),
{
    assert(s.take(i + 1).drop_last() =~= s.take(i));
    assert(s.take(i + 1).last() == s[i]);
}

pub proof fn lemma_sections_split(s: Seq<SectionView>, k: int)
    requires
        0 <= k <= s.len(),
    ensures
        sections_steps(s) == sections_steps(s.take(k)) + sections_steps(s.skip(k)),
    decreases s.len(),
{
    if k == s.len() {
        assert(s.take(k) =~= s);
        assert(s.skip(k) =~= Seq::empty());
        assert(sections_steps(s) =~= sections_steps(s) + Seq::<Step>::empty());
    } else {
        let init = s.drop_last();
        lemma_sections_split(init, k);
        assert(init.take(k) =~= s.take(k));
        assert(s.skip(k).drop_last() =~= init.skip(k));
        assert(s.skip(k).last() == s.last());
        assert(sections_steps(s) =~= sections_steps(s.take(k)) + sections_steps(s.skip(k)));
    }
}

pub proof fn lemma_sections_step(s: Seq<SectionView>, i: int)
    requires
        0 <= i < s.len(),
    ensures
        sections_steps(s.take(i + 1)) == sections_steps(s.take(i)) + (section_steps(s[i])),
{
    assert(s.take(i + 1).drop_last() =~= s.take(i));
    assert(s.take(i + 1).last() == s[i]);
}

/// The walk of a block calls the hook before the block, then walks its
/// statements one after the other, each wholly before the next, then calls
/// the hook after the block; and a walk that has gone from one trail to
/// another has added the first of these calls, in this order, and nothing
/// else.
pub proof fn law_walk_of_a_block(
    block: StmtView,
    stmts: Seq<StmtView>,
    start: Seq<Step>,
    end: Seq<Step>,
    whole: bool,
)
    requires
        block.kind == StmtKindView::Block(stmts),
        went(start, stmt_steps(block), end, whole),
    ensures
        stmt_steps(block) == (before(Mark::Stmt(block)) + stmts_steps(stmts)) + after(
            Mark::Stmt(block),
        ),
        forall|i: int|
            0 <= i < stmts.len() ==> #[trigger] stmts_steps(stmts.take(i + 1)) == stmts_steps(
                stmts.take(i),
            ) + stmt_steps(stmts[i]),
        stmts_steps(stmts.take(stmts.len() as int)) == stmts_steps(stmts),
        exists|k: int|
            0 <= k <= stmt_steps(block).len() && end == start + #[trigger] stmt_steps(block).take(
                k,
            ) && (whole ==> k == stmt_steps(block).len()),
{
    reveal(went);
    assert forall|i: int| 0 <= i < stmts.len() implies #[trigger] stmts_steps(stmts.take(i + 1))
        == stmts_steps(stmts.take(i)) + stmt_steps(stmts[i]) by {
        lemma_stmts_step(stmts, i);
    }
    assert(stmts.take(stmts.len() as int) =~= stmts);
}

/// What can be walked has a height, and can be held against what it was.
pub trait Measured: Sized {
    /// The height of the tree under this node.
    spec fn height(&self) -> nat;

    /// Whether this node is the tree that `other` is.
    spec fn same(&self, other: &Self) -> bool;

    /// The node as a hook is given it.
    spec fn mark(&self) -> Mark;

    /// The calls of hooks that the walk of this node owes.
    spec fn steps(&self) -> Seq<Step>;
}

impl Measured for Program {
    open spec fn height(&self) -> nat {
        program_height(*self)
    }

    open spec fn same(&self, other: &Self) -> bool {
        &&& self.section_list() == other.section_list()
        &&& self.types@ == other.types@
        &&& self.atom_names() == other.atom_names()
    }

    open spec fn mark(&self) -> Mark {
        Mark::Program(self.section_list())
    }

    open spec fn steps(&self) -> Seq<Step> {
        program_steps(self.section_list())
    }
}

impl Measured for Section {
    open spec fn height(&self) -> nat {
        section_height(*self)
    }

    open spec fn same(&self, other: &Self) -> bool {
        self.view() == other.view()
    }

    open spec fn mark(&self) -> Mark {
        Mark::Section(self.view())
    }

    open spec fn steps(&self) -> Seq<Step> {
        section_steps(self.view())
    }
}

impl Measured for Function {
    open spec fn height(&self) -> nat {
        function_height(*self)
    }

    open spec fn same(&self, other: &Self) -> bool {
        self.view() == other.view()
    }

    open spec fn mark(&self) -> Mark {
        Mark::Function(self.view())
    }

    open spec fn steps(&self) -> Seq<Step> {
        function_steps(self.view())
    }
}

impl Measured for Param {
    open spec fn height(&self) -> nat {
        param_height(*self)
    }

    open spec fn same(&self, other: &Self) -> bool {
        self.view() == other.view()
    }

    open spec fn mark(&self) -> Mark {
        Mark::Param(self.view())
    }

    open spec fn steps(&self) -> Seq<Step> {
        param_steps(self.view())
    }
}

impl Measured for Stmt {
    open spec fn height(&self) -> nat {
        stmt_height(*self)
    }

    open spec fn same(&self, other: &Self) -> bool {
        self.view() == other.view()
    }

    open spec fn mark(&self) -> Mark {
        Mark::Stmt(self.view())
    }

    open spec fn steps(&self) -> Seq<Step> {
        stmt_steps(self.view())
    }
}

impl Measured for Expr {
    open spec fn height(&self) -> nat {
        expr_height(*self)
    }

    open spec fn same(&self, other: &Self) -> bool {
        self.view() == other.view()
    }

    open spec fn mark(&self) -> Mark {
        Mark::Expr(self.view())
    }

    open spec fn steps(&self) -> Seq<Step> {
        expr_steps(self.view())
    }
}

impl Measured for Pattern {
    open spec fn height(&self) -> nat {
        pattern_height(*self)
    }

    open spec fn same(&self, other: &Self) -> bool {
        self.view() == other.view()
    }

    open spec fn mark(&self) -> Mark {
        Mark::Pattern(self.view())
    }

    open spec fn steps(&self) -> Seq<Step> {
        pattern_steps(self.view())
    }
}

/// A visitor says whether it has asked for the walk to end, and whether it
/// leaves the tree as it is.
pub trait Walker: Sized {
    /// Whether a hook has returned `Break` or an error.
    spec fn stopped(&self) -> bool;

    /// Whether a hook has returned an error.
    spec fn failed(&self) -> bool;

    /// Whether the hooks of this visitor leave every node as it is.
    spec fn keeps(&self) -> bool;

    /// The calls of hooks that this visitor has had.
    spec fn seen(&self) -> Trail;
}

/// The hooks of a visitor for one kind of node. A hook may change the node
/// but not make it taller: the walk goes into what the hook leaves, and
/// comes to an end because of this. No hook is called once one has asked for
/// the walk to end, and the visitor knows whether that was by an error.
/// The hooks of a visitor that keeps the tree leave the node as it is. Every hook adds its call to the trail of the visitor, and
/// nothing else does.
pub trait Visitor<T: Measured, E>: Walker {
    /// The hook after the children of `node`.
    fn visit(&mut self, node: &mut T) -> (r: Result<Action, E>)
        requires
            !old(self).stopped(),
        ensures
            final(self).stopped() == !goes_on(r),
            final(self).failed() == (old(self).failed() || r is Err),
            final(node).height() <= old(node).height(),
            old(self).keeps() ==> final(self).keeps() && *final(node) == *old(node),
            went(old(self).seen(), after(old(node).mark()), final(self).seen(), true),
    ;

    /// The hook before the children of `node`.
    fn visit_before(&mut self, node: &mut T) -> (r: Result<Action, E>)
        requires
            !old(self).stopped(),
        ensures
            final(self).stopped() == !goes_on(r),
            final(self).failed() == (old(self).failed() || r is Err),
            final(node).height() <= old(node).height(),
            old(self).keeps() ==> final(self).keeps() && *final(node) == *old(node),
            went(old(self).seen(), before(old(node).mark()), final(self).seen(), true),
    ;
}

/// A visitor with hooks for every kind of node.
pub trait ASTVisitor<E>: Visitor<Program, E> + Visitor<Section, E> + Visitor<Function, E> + Visitor<
    Param,
    E,
> + Visitor<Stmt, E> + Visitor<Expr, E> + Visitor<Pattern, E> {

}

impl<
    E,
    V: Visitor<Program, E> + Visitor<Section, E> + Visitor<Function, E> + Visitor<Param, E> + Visitor<
        Stmt,
        E,
    > + Visitor<Expr, E> + Visitor<Pattern, E>,
> ASTVisitor<E> for V {

}

/// The nodes that can be walked: the hook before, the children in order,
/// the hook after. The walk ends at once, with what the hook returned, when
/// a hook returns `Break` or an error. The walk of a visitor that keeps the
/// tree leaves the tree that it found, and makes the calls that `steps`
/// lists, in their order, up to the one that ends it.
pub trait Traversable: Measured {
    fn traverse<E, V: ASTVisitor<E>>(&mut self, visitor: &mut V) -> (r: Result<Action, E>)
        requires
            !old(visitor).stopped(),
        ensures
            final(visitor).stopped() == !goes_on(r),
            final(visitor).failed() == (old(visitor).failed() || r is Err),
        final(visitor).failed() == (old(visitor).failed() || r is Err),
            final(self).height() <= old(self).height(),
            old(visitor).keeps() ==> final(visitor).keeps() && final(self).same(old(self)),
            old(visitor).keeps() ==> went(
                old(visitor).seen(),
                old(self).steps(),
                final(visitor).seen(),
                goes_on(r),
            ),
    ;
}

impl Traversable for Program {
    fn traverse<E, V: ASTVisitor<E>>(&mut self, visitor: &mut V) -> (r: Result<Action, E>) {
        traverse_program(self, visitor)
    }
}

impl Traversable for Section {
    fn traverse<E, V: ASTVisitor<E>>(&mut self, visitor: &mut V) -> (r: Result<Action, E>) {
        traverse_section(self, visitor)
    }
}

impl Traversable for Function {
    fn traverse<E, V: ASTVisitor<E>>(&mut self, visitor: &mut V) -> (r: Result<Action, E>) {
        traverse_function(self, visitor)
    }
}

impl Traversable for Param {
    fn traverse<E, V: ASTVisitor<E>>(&mut self, visitor: &mut V) -> (r: Result<Action, E>) {
        traverse_param(self, visitor)
    }
}

impl Traversable for Stmt {
    fn traverse<E, V: ASTVisitor<E>>(&mut self, visitor: &mut V) -> (r: Result<Action, E>) {
        traverse_stmt(self, visitor)
    }
}

impl Traversable for Expr {
    fn traverse<E, V: ASTVisitor<E>>(&mut self, visitor: &mut V) -> (r: Result<Action, E>) {
        traverse_expr(self, visitor)
    }
}

impl Traversable for Pattern {
    fn traverse<E, V: ASTVisitor<E>>(&mut self, visitor: &mut V) -> (r: Result<Action, E>) {
        traverse_pattern(self, visitor)
    }
}

/// Walks the list in order.
#[verifier::loop_isolation(false)]
pub fn traverse_exprs<E, V: ASTVisitor<E>>(list: &mut Vec<Expr>, visitor: &mut V) -> (r: Result<Action, E>)
    requires
        !old(visitor).stopped(),
    ensures
        final(visitor).stopped() == !goes_on(r),
        final(visitor).failed() == (old(visitor).failed() || r is Err),
        exprs_height(final(list)@) <= exprs_height(old(list)@),
        final(list)@.len() == old(list)@.len(),
        old(visitor).keeps() ==> final(visitor).keeps(),
        old(visitor).keeps() ==> expr_views(final(list)@) == expr_views(old(list)@),
        old(visitor).keeps() ==> went(old(visitor).seen(), exprs_steps(expr_views(old(list)@)), final(visitor).seen(), goes_on(r)),
    decreases exprs_height(old(list)@), 12nat,
{
    let mut i: usize = 0;
    proof {
        assert(expr_views(old(list)@).take(0) =~= Seq::empty());
        lemma_went_none(visitor.seen());
    }
    while i < list.len()
        invariant
            i <= list@.len(),
            list@.len() == old(list)@.len(),
            exprs_height(list@) <= exprs_height(old(list)@),
            !visitor.stopped(),
            visitor.failed() == old(visitor).failed(),
            old(visitor).keeps() ==> went(old(visitor).seen(), exprs_steps(expr_views(old(list)@).take(i as int)), visitor.seen(), true),
            old(visitor).keeps() ==> visitor.keeps(),
            old(visitor).keeps() ==> expr_views(list@) == expr_views(old(list)@),
        decreases list@.len() - i,
    {
        let ghost before = list@;
        let ghost trail = visitor.seen();
        proof {
            lemma_exprs_member(before, i as int);
        }
        let item = &mut list[i];
        let r = traverse_expr(item, visitor);
        proof {
            assert(list@ =~= before.update(i as int, list@[i as int]));
            lemma_exprs_update(before, i as int, list@[i as int]);
            if old(visitor).keeps() {
                lemma_exprs_step(expr_views(old(list)@), i as int);
                lemma_exprs_split(expr_views(old(list)@), i + 1);
                assert(expr_views(before)[i as int] == expr_views(old(list)@)[i as int]);
                lemma_went_on(old(visitor).seen(), exprs_steps(expr_views(old(list)@).take(i as int)), trail, expr_steps(expr_views(old(list)@)[i as int]), visitor.seen(), goes_on(r));
                lemma_went_short(old(visitor).seen(), exprs_steps(expr_views(old(list)@).take(i + 1)), exprs_steps(expr_views(old(list)@).skip(i + 1)), visitor.seen(), goes_on(r));
                assert(expr_views(list@) =~= expr_views(before));
            }
        }
        let part = r;
        if !goes(&part) {
            return part;
        }
        i += 1;
    }
    proof {
        assert(expr_views(old(list)@).take(i as int) =~= expr_views(old(list)@));
    }
    Ok(Action::Continue)
}

/// Walks the list in order.
#[verifier::loop_isolation(false)]
pub fn traverse_stmts<E, V: ASTVisitor<E>>(list: &mut Vec<Stmt>, visitor: &mut V) -> (r: Result<Action, E>)
    requires
        !old(visitor).stopped(),
    ensures
        final(visitor).stopped() == !goes_on(r),
        final(visitor).failed() == (old(visitor).failed() || r is Err),
        stmts_height(final(list)@) <= stmts_height(old(list)@),
        final(list)@.len() == old(list)@.len(),
        old(visitor).keeps() ==> final(visitor).keeps(),
        old(visitor).keeps() ==> stmt_views(final(list)@) == stmt_views(old(list)@),
        old(visitor).keeps() ==> went(old(visitor).seen(), stmts_steps(stmt_views(old(list)@)), final(visitor).seen(), goes_on(r)),
    decreases stmts_height(old(list)@), 12nat,
{
    let mut i: usize = 0;
    proof {
        assert(stmt_views(old(list)@).take(0) =~= Seq::empty());
        lemma_went_none(visitor.seen());
    }
    while i < list.len()
        invariant
            i <= list@.len(),
            list@.len() == old(list)@.len(),
            stmts_height(list@) <= stmts_height(old(list)@),
            !visitor.stopped(),
            visitor.failed() == old(visitor).failed(),
            old(visitor).keeps() ==> went(old(visitor).seen(), stmts_steps(stmt_views(old(list)@).take(i as int)), visitor.seen(), true),
            old(visitor).keeps() ==> visitor.keeps(),
            old(visitor).keeps() ==> stmt_views(list@) == stmt_views(old(list)@),
        decreases list@.len() - i,
    {
        let ghost before = list@;
        let ghost trail = visitor.seen();
        proof {
            lemma_stmts_member(before, i as int);
        }
        let item = &mut list[i];
        let r = traverse_stmt(item, visitor);
        proof {
            assert(list@ =~= before.update(i as int, list@[i as int]));
            lemma_stmts_update(before, i as int, list@[i as int]);
            if old(visitor).keeps() {
                lemma_stmts_step(stmt_views(old(list)@), i as int);
                lemma_stmts_split(stmt_views(old(list)@), i + 1);
                assert(stmt_views(before)[i as int] == stmt_views(old(list)@)[i as int]);
                lemma_went_on(old(visitor).seen(), stmts_steps(stmt_views(old(list)@).take(i as int)), trail, stmt_steps(stmt_views(old(list)@)[i as int]), visitor.seen(), goes_on(r));
                lemma_went_short(old(visitor).seen(), stmts_steps(stmt_views(old(list)@).take(i + 1)), stmts_steps(stmt_views(old(list)@).skip(i + 1)), visitor.seen(), goes_on(r));
                assert(stmt_views(list@) =~= stmt_views(before));
            }
        }
        let part = r;
        if !goes(&part) {
            return part;
        }
        i += 1;
    }
    proof {
        assert(stmt_views(old(list)@).take(i as int) =~= stmt_views(old(list)@));
    }
    Ok(Action::Continue)
}

/// Walks the list in order.
#[verifier::loop_isolation(false)]
pub fn traverse_patterns<E, V: ASTVisitor<E>>(list: &mut Vec<Located<Pattern>>, visitor: &mut V) -> (r: Result<Action, E>)
    requires
        !old(visitor).stopped(),
    ensures
        final(visitor).stopped() == !goes_on(r),
        final(visitor).failed() == (old(visitor).failed() || r is Err),
        patterns_height(final(list)@) <= patterns_height(old(list)@),
        final(list)@.len() == old(list)@.len(),
        old(visitor).keeps() ==> final(visitor).keeps(),
        old(visitor).keeps() ==> pattern_views(final(list)@) == pattern_views(old(list)@),
        old(visitor).keeps() ==> went(old(visitor).seen(), patterns_steps(pattern_views(old(list)@)), final(visitor).seen(), goes_on(r)),
    decreases patterns_height(old(list)@), 12nat,
{
    let mut i: usize = 0;
    proof {
        assert(pattern_views(old(list)@).take(0) =~= Seq::empty());
        lemma_went_none(visitor.seen());
    }
    while i < list.len()
        invariant
            i <= list@.len(),
            list@.len() == old(list)@.len(),
            patterns_height(list@) <= patterns_height(old(list)@),
            !visitor.stopped(),
            visitor.failed() == old(visitor).failed(),
            old(visitor).keeps() ==> went(old(visitor).seen(), patterns_steps(pattern_views(old(list)@).take(i as int)), visitor.seen(), true),
            old(visitor).keeps() ==> visitor.keeps(),
            old(visitor).keeps() ==> pattern_views(list@) == pattern_views(old(list)@),
        decreases list@.len() - i,
    {
        let ghost before = list@;
        let ghost trail = visitor.seen();
        proof {
            lemma_patterns_member(before, i as int);
        }
        let item = &mut list[i];
        let r = traverse_located_pattern(item, visitor);
        proof {
            assert(list@ =~= before.update(i as int, list@[i as int]));
            lemma_patterns_update(before, i as int, list@[i as int]);
            if old(visitor).keeps() {
                lemma_patterns_step(pattern_views(old(list)@), i as int);
                lemma_patterns_split(pattern_views(old(list)@), i + 1);
                assert(pattern_views(before)[i as int] == pattern_views(old(list)@)[i as int]);
                lemma_went_on(old(visitor).seen(), patterns_steps(pattern_views(old(list)@).take(i as int)), trail, pattern_steps(pattern_views(old(list)@)[i as int].0), visitor.seen(), goes_on(r));
                lemma_went_short(old(visitor).seen(), patterns_steps(pattern_views(old(list)@).take(i + 1)), patterns_steps(pattern_views(old(list)@).skip(i + 1)), visitor.seen(), goes_on(r));
                assert(pattern_views(list@) =~= pattern_views(before));
            }
        }
        let part = r;
        if !goes(&part) {
            return part;
        }
        i += 1;
    }
    proof {
        assert(pattern_views(old(list)@).take(i as int) =~= pattern_views(old(list)@));
    }
    Ok(Action::Continue)
}

/// Walks the list in order.
#[verifier::loop_isolation(false)]
pub fn traverse_expr_branches<E, V: ASTVisitor<E>>(list: &mut Vec<(Vec<Located<Pattern>>, Box<Expr>)>, visitor: &mut V) -> (r: Result<Action, E>)
    requires
        !old(visitor).stopped(),
    ensures
        final(visitor).stopped() == !goes_on(r),
        final(visitor).failed() == (old(visitor).failed() || r is Err),
        expr_branches_height(final(list)@) <= expr_branches_height(old(list)@),
        final(list)@.len() == old(list)@.len(),
        old(visitor).keeps() ==> final(visitor).keeps(),
        old(visitor).keeps() ==> expr_branch_views(final(list)@) == expr_branch_views(old(list)@),
        old(visitor).keeps() ==> went(old(visitor).seen(), expr_branches_steps(expr_branch_views(old(list)@)), final(visitor).seen(), goes_on(r)),
    decreases expr_branches_height(old(list)@), 14nat,
{
    let mut i: usize = 0;
    proof {
        assert(expr_branch_views(old(list)@).take(0) =~= Seq::empty());
        lemma_went_none(visitor.seen());
    }
    while i < list.len()
        invariant
            i <= list@.len(),
            list@.len() == old(list)@.len(),
            expr_branches_height(list@) <= expr_branches_height(old(list)@),
            !visitor.stopped(),
            visitor.failed() == old(visitor).failed(),
            old(visitor).keeps() ==> went(old(visitor).seen(), expr_branches_steps(expr_branch_views(old(list)@).take(i as int)), visitor.seen(), true),
            old(visitor).keeps() ==> visitor.keeps(),
            old(visitor).keeps() ==> expr_branch_views(list@) == expr_branch_views(old(list)@),
        decreases list@.len() - i,
    {
        let ghost before = list@;
        let ghost trail = visitor.seen();
        proof {
            lemma_expr_branches_member(before, i as int);
        }
        let item = &mut list[i];
        let r = traverse_expr_branch(item, visitor);
        proof {
            assert(list@ =~= before.update(i as int, list@[i as int]));
            lemma_expr_branches_update(before, i as int, list@[i as int]);
            if old(visitor).keeps() {
                lemma_expr_branches_step(expr_branch_views(old(list)@), i as int);
                lemma_expr_branches_split(expr_branch_views(old(list)@), i + 1);
                assert(expr_branch_views(before)[i as int] == expr_branch_views(old(list)@)[i as int]);
                lemma_went_on(old(visitor).seen(), expr_branches_steps(expr_branch_views(old(list)@).take(i as int)), trail, patterns_steps(expr_branch_views(old(list)@)[i as int].0) + expr_steps(expr_branch_views(old(list)@)[i as int].1), visitor.seen(), goes_on(r));
                lemma_went_short(old(visitor).seen(), expr_branches_steps(expr_branch_views(old(list)@).take(i + 1)), expr_branches_steps(expr_branch_views(old(list)@).skip(i + 1)), visitor.seen(), goes_on(r));
                assert(expr_branch_views(list@) =~= expr_branch_views(before));
            }
        }
        let part = r;
        if !goes(&part) {
            return part;
        }
        i += 1;
    }
    proof {
        assert(expr_branch_views(old(list)@).take(i as int) =~= expr_branch_views(old(list)@));
    }
    Ok(Action::Continue)
}

/// Walks the list in order.
#[verifier::loop_isolation(false)]
pub fn traverse_stmt_branches<E, V: ASTVisitor<E>>(list: &mut Vec<(Vec<Located<Pattern>>, Box<Stmt>)>, visitor: &mut V) -> (r: Result<Action, E>)
    requires
        !old(visitor).stopped(),
    ensures
        final(visitor).stopped() == !goes_on(r),
        final(visitor).failed() == (old(visitor).failed() || r is Err),
        stmt_branches_height(final(list)@) <= stmt_branches_height(old(list)@),
        final(list)@.len() == old(list)@.len(),
        old(visitor).keeps() ==> final(visitor).keeps(),
        old(visitor).keeps() ==> stmt_branch_views(final(list)@) == stmt_branch_views(old(list)@),
        old(visitor).keeps() ==> went(old(visitor).seen(), stmt_branches_steps(stmt_branch_views(old(list)@)), final(visitor).seen(), goes_on(r)),
    decreases stmt_branches_height(old(list)@), 14nat,
{
    let mut i: usize = 0;
    proof {
        assert(stmt_branch_views(old(list)@).take(0) =~= Seq::empty());
        lemma_went_none(visitor.seen());
    }
    while i < list.len()
        invariant
            i <= list@.len(),
            list@.len() == old(list)@.len(),
            stmt_branches_height(list@) <= stmt_branches_height(old(list)@),
            !visitor.stopped(),
            visitor.failed() == old(visitor).failed(),
            old(visitor).keeps() ==> went(old(visitor).seen(), stmt_branches_steps(stmt_branch_views(old(list)@).take(i as int)), visitor.seen(), true),
            old(visitor).keeps() ==> visitor.keeps(),
            old(visitor).keeps() ==> stmt_branch_views(list@) == stmt_branch_views(old(list)@),
        decreases list@.len() - i,
    {
        let ghost before = list@;
        let ghost trail = visitor.seen();
        proof {
            lemma_stmt_branches_member(before, i as int);
        }
        let item = &mut list[i];
        let r = traverse_stmt_branch(item, visitor);
        proof {
            assert(list@ =~= before.update(i as int, list@[i as int]));
            lemma_stmt_branches_update(before, i as int, list@[i as int]);
            if old(visitor).keeps() {
                lemma_stmt_branches_step(stmt_branch_views(old(list)@), i as int);
                lemma_stmt_branches_split(stmt_branch_views(old(list)@), i + 1);
                assert(stmt_branch_views(before)[i as int] == stmt_branch_views(old(list)@)[i as int]);
                lemma_went_on(old(visitor).seen(), stmt_branches_steps(stmt_branch_views(old(list)@).take(i as int)), trail, patterns_steps(stmt_branch_views(old(list)@)[i as int].0) + stmt_steps(stmt_branch_views(old(list)@)[i as int].1), visitor.seen(), goes_on(r));
                lemma_went_short(old(visitor).seen(), stmt_branches_steps(stmt_branch_views(old(list)@).take(i + 1)), stmt_branches_steps(stmt_branch_views(old(list)@).skip(i + 1)), visitor.seen(), goes_on(r));
                assert(stmt_branch_views(list@) =~= stmt_branch_views(before));
            }
        }
        let part = r;
        if !goes(&part) {
            return part;
        }
        i += 1;
    }
    proof {
        assert(stmt_branch_views(old(list)@).take(i as int) =~= stmt_branch_views(old(list)@));
    }
    Ok(Action::Continue)
}

/// Walks the list in order.
#[verifier::loop_isolation(false)]
pub fn traverse_bindings<E, V: ASTVisitor<E>>(list: &mut Vec<(Located<Pattern>, Expr)>, visitor: &mut V) -> (r: Result<Action, E>)
    requires
        !old(visitor).stopped(),
    ensures
        final(visitor).stopped() == !goes_on(r),
        final(visitor).failed() == (old(visitor).failed() || r is Err),
        bindings_height(final(list)@) <= bindings_height(old(list)@),
        final(list)@.len() == old(list)@.len(),
        old(visitor).keeps() ==> final(visitor).keeps(),
        old(visitor).keeps() ==> binding_views(final(list)@) == binding_views(old(list)@),
        old(visitor).keeps() ==> went(old(visitor).seen(), bindings_steps(binding_views(old(list)@)), final(visitor).seen(), goes_on(r)),
    decreases bindings_height(old(list)@), 14nat,
{
    let mut i: usize = 0;
    proof {
        assert(binding_views(old(list)@).take(0) =~= Seq::empty());
        lemma_went_none(visitor.seen());
    }
    while i < list.len()
        invariant
            i <= list@.len(),
            list@.len() == old(list)@.len(),
            bindings_height(list@) <= bindings_height(old(list)@),
            !visitor.stopped(),
            visitor.failed() == old(visitor).failed(),
            old(visitor).keeps() ==> went(old(visitor).seen(), bindings_steps(binding_views(old(list)@).take(i as int)), visitor.seen(), true),
            old(visitor).keeps() ==> visitor.keeps(),
            old(visitor).keeps() ==> binding_views(list@) == binding_views(old(list)@),
        decreases list@.len() - i,
    {
        let ghost before = list@;
        let ghost trail = visitor.seen();
        proof {
            lemma_bindings_member(before, i as int);
        }
        let item = &mut list[i];
        let r = traverse_binding(item, visitor);
        proof {
            assert(list@ =~= before.update(i as int, list@[i as int]));
            lemma_bindings_update(before, i as int, list@[i as int]);
            if old(visitor).keeps() {
                lemma_bindings_step(binding_views(old(list)@), i as int);
                lemma_bindings_split(binding_views(old(list)@), i + 1);
                assert(binding_views(before)[i as int] == binding_views(old(list)@)[i as int]);
                lemma_went_on(old(visitor).seen(), bindings_steps(binding_views(old(list)@).take(i as int)), trail, pattern_steps(binding_views(old(list)@)[i as int].0.0) + expr_steps(binding_views(old(list)@)[i as int].1), visitor.seen(), goes_on(r));
                lemma_went_short(old(visitor).seen(), bindings_steps(binding_views(old(list)@).take(i + 1)), bindings_steps(binding_views(old(list)@).skip(i + 1)), visitor.seen(), goes_on(r));
                assert(binding_views(list@) =~= binding_views(before));
            }
        }
        let part = r;
        if !goes(&part) {
            return part;
        }
        i += 1;
    }
    proof {
        assert(binding_views(old(list)@).take(i as int) =~= binding_views(old(list)@));
    }
    Ok(Action::Continue)
}

/// Walks the list in order.
#[verifier::loop_isolation(false)]
pub fn traverse_body_exprs<E, V: ASTVisitor<E>>(list: &mut Vec<(Vec<Located<Pattern>>, Expr)>, visitor: &mut V) -> (r: Result<Action, E>)
    requires
        !old(visitor).stopped(),
    ensures
        final(visitor).stopped() == !goes_on(r),
        final(visitor).failed() == (old(visitor).failed() || r is Err),
        body_exprs_height(final(list)@) <= body_exprs_height(old(list)@),
        final(list)@.len() == old(list)@.len(),
        old(visitor).keeps() ==> final(visitor).keeps(),
        old(visitor).keeps() ==> body_expr_views(final(list)@) == body_expr_views(old(list)@),
        old(visitor).keeps() ==> went(old(visitor).seen(), expr_branches_steps(body_expr_views(old(list)@)), final(visitor).seen(), goes_on(r)),
    decreases body_exprs_height(old(list)@), 14nat,
{
    let mut i: usize = 0;
    proof {
        assert(body_expr_views(old(list)@).take(0) =~= Seq::empty());
        lemma_went_none(visitor.seen());
    }
    while i < list.len()
        invariant
            i <= list@.len(),
            list@.len() == old(list)@.len(),
            body_exprs_height(list@) <= body_exprs_height(old(list)@),
            !visitor.stopped(),
            visitor.failed() == old(visitor).failed(),
            old(visitor).keeps() ==> went(old(visitor).seen(), expr_branches_steps(body_expr_views(old(list)@).take(i as int)), visitor.seen(), true),
            old(visitor).keeps() ==> visitor.keeps(),
            old(visitor).keeps() ==> body_expr_views(list@) == body_expr_views(old(list)@),
        decreases list@.len() - i,
    {
        let ghost before = list@;
        let ghost trail = visitor.seen();
        proof {
            lemma_body_exprs_member(before, i as int);
        }
        let item = &mut list[i];
        let r = traverse_body_expr(item, visitor);
        proof {
            assert(list@ =~= before.update(i as int, list@[i as int]));
            lemma_body_exprs_update(before, i as int, list@[i as int]);
            if old(visitor).keeps() {
                lemma_expr_branches_step(body_expr_views(old(list)@), i as int);
                lemma_expr_branches_split(body_expr_views(old(list)@), i + 1);
                assert(body_expr_views(before)[i as int] == body_expr_views(old(list)@)[i as int]);
                lemma_went_on(old(visitor).seen(), expr_branches_steps(body_expr_views(old(list)@).take(i as int)), trail, patterns_steps(body_expr_views(old(list)@)[i as int].0) + expr_steps(body_expr_views(old(list)@)[i as int].1), visitor.seen(), goes_on(r));
                lemma_went_short(old(visitor).seen(), expr_branches_steps(body_expr_views(old(list)@).take(i + 1)), expr_branches_steps(body_expr_views(old(list)@).skip(i + 1)), visitor.seen(), goes_on(r));
                assert(body_expr_views(list@) =~= body_expr_views(before));
            }
        }
        let part = r;
        if !goes(&part) {
            return part;
        }
        i += 1;
    }
    proof {
        assert(body_expr_views(old(list)@).take(i as int) =~= body_expr_views(old(list)@));
    }
    Ok(Action::Continue)
}

/// Walks the list in order.
#[verifier::loop_isolation(false)]
pub fn traverse_body_stmts<E, V: ASTVisitor<E>>(list: &mut Vec<(Vec<Located<Pattern>>, Stmt)>, visitor: &mut V) -> (r: Result<Action, E>)
    requires
        !old(visitor).stopped(),
    ensures
        final(visitor).stopped() == !goes_on(r),
        final(visitor).failed() == (old(visitor).failed() || r is Err),
        body_stmts_height(final(list)@) <= body_stmts_height(old(list)@),
        final(list)@.len() == old(list)@.len(),
        old(visitor).keeps() ==> final(visitor).keeps(),
        old(visitor).keeps() ==> body_stmt_views(final(list)@) == body_stmt_views(old(list)@),
        old(visitor).keeps() ==> went(old(visitor).seen(), stmt_branches_steps(body_stmt_views(old(list)@)), final(visitor).seen(), goes_on(r)),
    decreases body_stmts_height(old(list)@), 14nat,
{
    let mut i: usize = 0;
    proof {
        assert(body_stmt_views(old(list)@).take(0) =~= Seq::empty());
        lemma_went_none(visitor.seen());
    }
    while i < list.len()
        invariant
            i <= list@.len(),
            list@.len() == old(list)@.len(),
            body_stmts_height(list@) <= body_stmts_height(old(list)@),
            !visitor.stopped(),
            visitor.failed() == old(visitor).failed(),
            old(visitor).keeps() ==> went(old(visitor).seen(), stmt_branches_steps(body_stmt_views(old(list)@).take(i as int)), visitor.seen(), true),
            old(visitor).keeps() ==> visitor.keeps(),
            old(visitor).keeps() ==> body_stmt_views(list@) == body_stmt_views(old(list)@),
        decreases list@.len() - i,
    {
        let ghost before = list@;
        let ghost trail = visitor.seen();
        proof {
            lemma_body_stmts_member(before, i as int);
        }
        let item = &mut list[i];
        let r = traverse_body_stmt(item, visitor);
        proof {
            assert(list@ =~= before.update(i as int, list@[i as int]));
            lemma_body_stmts_update(before, i as int, list@[i as int]);
            if old(visitor).keeps() {
                lemma_stmt_branches_step(body_stmt_views(old(list)@), i as int);
                lemma_stmt_branches_split(body_stmt_views(old(list)@), i + 1);
                assert(body_stmt_views(before)[i as int] == body_stmt_views(old(list)@)[i as int]);
                lemma_went_on(old(visitor).seen(), stmt_branches_steps(body_stmt_views(old(list)@).take(i as int)), trail, patterns_steps(body_stmt_views(old(list)@)[i as int].0) + stmt_steps(body_stmt_views(old(list)@)[i as int].1), visitor.seen(), goes_on(r));
                lemma_went_short(old(visitor).seen(), stmt_branches_steps(body_stmt_views(old(list)@).take(i + 1)), stmt_branches_steps(body_stmt_views(old(list)@).skip(i + 1)), visitor.seen(), goes_on(r));
                assert(body_stmt_views(list@) =~= body_stmt_views(before));
            }
        }
        let part = r;
        if !goes(&part) {
            return part;
        }
        i += 1;
    }
    proof {
        assert(body_stmt_views(old(list)@).take(i as int) =~= body_stmt_views(old(list)@));
    }
    Ok(Action::Continue)
}

/// Walks the list in order.
#[verifier::loop_isolation(false)]
pub fn traverse_params<E, V: ASTVisitor<E>>(list: &mut Vec<Param>, visitor: &mut V) -> (r: Result<Action, E>)
    requires
        !old(visitor).stopped(),
    ensures
        final(visitor).stopped() == !goes_on(r),
        final(visitor).failed() == (old(visitor).failed() || r is Err),
        params_height(final(list)@) <= params_height(old(list)@),
        final(list)@.len() == old(list)@.len(),
        old(visitor).keeps() ==> final(visitor).keeps(),
        old(visitor).keeps() ==> param_views(final(list)@) == param_views(old(list)@),
        old(visitor).keeps() ==> went(old(visitor).seen(), params_steps(param_views(old(list)@)), final(visitor).seen(), goes_on(r)),
    decreases params_height(old(list)@), 12nat,
{
    let mut i: usize = 0;
    proof {
        assert(param_views(old(list)@).take(0) =~= Seq::empty());
        lemma_went_none(visitor.seen());
    }
    while i < list.len()
        invariant
            i <= list@.len(),
            list@.len() == old(list)@.len(),
            params_height(list@) <= params_height(old(list)@),
            !visitor.stopped(),
            visitor.failed() == old(visitor).failed(),
            old(visitor).keeps() ==> went(old(visitor).seen(), params_steps(param_views(old(list)@).take(i as int)), visitor.seen(), true),
            old(visitor).keeps() ==> visitor.keeps(),
            old(visitor).keeps() ==> param_views(list@) == param_views(old(list)@),
        decreases list@.len() - i,
    {
        let ghost before = list@;
        let ghost trail = visitor.seen();
        proof {
            lemma_params_member(before, i as int);
        }
        let item = &mut list[i];
        let r = traverse_param(item, visitor);
        proof {
            assert(list@ =~= before.update(i as int, list@[i as int]));
            lemma_params_update(before, i as int, list@[i as int]);
            if old(visitor).keeps() {
                lemma_params_step(param_views(old(list)@), i as int);
                lemma_params_split(param_views(old(list)@), i + 1);
                assert(param_views(before)[i as int] == param_views(old(list)@)[i as int]);
                lemma_went_on(old(visitor).seen(), params_steps(param_views(old(list)@).take(i as int)), trail, param_steps(param_views(old(list)@)[i as int]), visitor.seen(), goes_on(r));
                lemma_went_short(old(visitor).seen(), params_steps(param_views(old(list)@).take(i + 1)), params_steps(param_views(old(list)@).skip(i + 1)), visitor.seen(), goes_on(r));
                assert(param_views(list@) =~= param_views(before));
            }
        }
        let part = r;
        if !goes(&part) {
            return part;
        }
        i += 1;
    }
    proof {
        assert(param_views(old(list)@).take(i as int) =~= param_views(old(list)@));
    }
    Ok(Action::Continue)
}

/// Walks the list in order.
#[verifier::loop_isolation(false)]
pub fn traverse_decls<E, V: ASTVisitor<E>>(list: &mut Vec<Decl>, visitor: &mut V) -> (r: Result<Action, E>)
    requires
        !old(visitor).stopped(),
    ensures
        final(visitor).stopped() == !goes_on(r),
        final(visitor).failed() == (old(visitor).failed() || r is Err),
        decls_height(final(list)@) <= decls_height(old(list)@),
        final(list)@.len() == old(list)@.len(),
        old(visitor).keeps() ==> final(visitor).keeps(),
        old(visitor).keeps() ==> decl_views(final(list)@) == decl_views(old(list)@),
        old(visitor).keeps() ==> went(old(visitor).seen(), decls_steps(decl_views(old(list)@)), final(visitor).seen(), goes_on(r)),
    decreases decls_height(old(list)@), 12nat,
{
    let mut i: usize = 0;
    proof {
        assert(decl_views(old(list)@).take(0) =~= Seq::empty());
        lemma_went_none(visitor.seen());
    }
    while i < list.len()
        invariant
            i <= list@.len(),
            list@.len() == old(list)@.len(),
            decls_height(list@) <= decls_height(old(list)@),
            !visitor.stopped(),
            visitor.failed() == old(visitor).failed(),
            old(visitor).keeps() ==> went(old(visitor).seen(), decls_steps(decl_views(old(list)@).take(i as int)), visitor.seen(), true),
            old(visitor).keeps() ==> visitor.keeps(),
            old(visitor).keeps() ==> decl_views(list@) == decl_views(old(list)@),
        decreases list@.len() - i,
    {
        let ghost before = list@;
        let ghost trail = visitor.seen();
        proof {
            lemma_decls_member(before, i as int);
        }
        let item = &mut list[i];
        let r = traverse_decl(item, visitor);
        proof {
            assert(list@ =~= before.update(i as int, list@[i as int]));
            lemma_decls_update(before, i as int, list@[i as int]);
            if old(visitor).keeps() {
                lemma_decls_step(decl_views(old(list)@), i as int);
                lemma_decls_split(decl_views(old(list)@), i + 1);
                assert(decl_views(before)[i as int] == decl_views(old(list)@)[i as int]);
                lemma_went_on(old(visitor).seen(), decls_steps(decl_views(old(list)@).take(i as int)), trail, decl_steps(decl_views(old(list)@)[i as int]), visitor.seen(), goes_on(r));
                lemma_went_short(old(visitor).seen(), decls_steps(decl_views(old(list)@).take(i + 1)), decls_steps(decl_views(old(list)@).skip(i + 1)), visitor.seen(), goes_on(r));
                assert(decl_views(list@) =~= decl_views(before));
            }
        }
        let part = r;
        if !goes(&part) {
            return part;
        }
        i += 1;
    }
    proof {
        assert(decl_views(old(list)@).take(i as int) =~= decl_views(old(list)@));
    }
    Ok(Action::Continue)
}

/// Walks the list in order.
#[verifier::loop_isolation(false)]
pub fn traverse_sections<E, V: ASTVisitor<E>>(list: &mut Vec<Section>, visitor: &mut V) -> (r: Result<Action, E>)
    requires
        !old(visitor).stopped(),
    ensures
        final(visitor).stopped() == !goes_on(r),
        final(visitor).failed() == (old(visitor).failed() || r is Err),
        sections_height(final(list)@) <= sections_height(old(list)@),
        final(list)@.len() == old(list)@.len(),
        old(visitor).keeps() ==> final(visitor).keeps(),
        old(visitor).keeps() ==> section_views(final(list)@) == section_views(old(list)@),
        old(visitor).keeps() ==> went(old(visitor).seen(), sections_steps(section_views(old(list)@)), final(visitor).seen(), goes_on(r)),
    decreases sections_height(old(list)@), 12nat,
{
    let mut i: usize = 0;
    proof {
        assert(section_views(old(list)@).take(0) =~= Seq::empty());
        lemma_went_none(visitor.seen());
    }
    while i < list.len()
        invariant
            i <= list@.len(),
            list@.len() == old(list)@.len(),
            sections_height(list@) <= sections_height(old(list)@),
            !visitor.stopped(),
            visitor.failed() == old(visitor).failed(),
            old(visitor).keeps() ==> went(old(visitor).seen(), sections_steps(section_views(old(list)@).take(i as int)), visitor.seen(), true),
            old(visitor).keeps() ==> visitor.keeps(),
            old(visitor).keeps() ==> section_views(list@) == section_views(old(list)@),
        decreases list@.len() - i,
    {
        let ghost before = list@;
        let ghost trail = visitor.seen();
        proof {
            lemma_sections_member(before, i as int);
        }
        let item = &mut list[i];
        let r = traverse_section(item, visitor);
        proof {
            assert(list@ =~= before.update(i as int, list@[i as int]));
            lemma_sections_update(before, i as int, list@[i as int]);
            if old(visitor).keeps() {
                lemma_sections_step(section_views(old(list)@), i as int);
                lemma_sections_split(section_views(old(list)@), i + 1);
                assert(section_views(before)[i as int] == section_views(old(list)@)[i as int]);
                lemma_went_on(old(visitor).seen(), sections_steps(section_views(old(list)@).take(i as int)), trail, section_steps(section_views(old(list)@)[i as int]), visitor.seen(), goes_on(r));
                lemma_went_short(old(visitor).seen(), sections_steps(section_views(old(list)@).take(i + 1)), sections_steps(section_views(old(list)@).skip(i + 1)), visitor.seen(), goes_on(r));
                assert(section_views(list@) =~= section_views(before));
            }
        }
        let part = r;
        if !goes(&part) {
            return part;
        }
        i += 1;
    }
    proof {
        assert(section_views(old(list)@).take(i as int) =~= section_views(old(list)@));
    }
    Ok(Action::Continue)
}

/// Walks a pattern.
pub fn traverse_located_pattern<E, V: ASTVisitor<E>>(node: &mut Located<Pattern>, visitor: &mut V) -> (r: Result<Action, E>)
    requires
        !old(visitor).stopped(),
    ensures
        final(visitor).stopped() == !goes_on(r),
        final(visitor).failed() == (old(visitor).failed() || r is Err),
        pattern_height(final(node).inner) <= pattern_height(old(node).inner),
        old(visitor).keeps() ==> final(visitor).keeps(),
        old(visitor).keeps() ==> final(node).inner.view() == old(node).inner.view(),
        old(visitor).keeps() ==> final(node).loc == old(node).loc,
        old(visitor).keeps() ==> went(old(visitor).seen(), pattern_steps(old(node).inner.view()), final(visitor).seen(), goes_on(r)),
    decreases pattern_height(old(node).inner), 11nat,
{
    proof {
        broadcast use {lemma_went_none, lemma_went_short, lemma_went_on, lemma_went_less};
    }
    traverse_pattern(&mut node.inner, visitor)
}

/// Walks the patterns of a branch, then its body.
pub fn traverse_expr_branch<E, V: ASTVisitor<E>>(node: &mut (Vec<Located<Pattern>>, Box<Expr>), visitor: &mut V) -> (r: Result<Action, E>)
    requires
        !old(visitor).stopped(),
    ensures
        final(visitor).stopped() == !goes_on(r),
        final(visitor).failed() == (old(visitor).failed() || r is Err),
        patterns_height(final(node).0@) <= patterns_height(old(node).0@),
        expr_height(*final(node).1) <= expr_height(*old(node).1),
        old(visitor).keeps() ==> final(visitor).keeps(),
        old(visitor).keeps() ==> pattern_views(final(node).0@) == pattern_views(old(node).0@),
        old(visitor).keeps() ==> final(node).1.view() == old(node).1.view(),
        old(visitor).keeps() ==> went(old(visitor).seen(), patterns_steps(pattern_views(old(node).0@)) + expr_steps(old(node).1.view()), final(visitor).seen(), goes_on(r)),
    decreases hmax(patterns_height(old(node).0@), expr_height(*old(node).1)), 13nat,
{
    proof {
        broadcast use {lemma_went_none, lemma_went_short, lemma_went_on, lemma_went_less};
    }
    let part = traverse_patterns(&mut node.0, visitor);
    if !goes(&part) {
        return part;
    }
    traverse_expr(&mut node.1, visitor)
}

/// Walks the patterns of a branch, then its body.
pub fn traverse_stmt_branch<E, V: ASTVisitor<E>>(node: &mut (Vec<Located<Pattern>>, Box<Stmt>), visitor: &mut V) -> (r: Result<Action, E>)
    requires
        !old(visitor).stopped(),
    ensures
        final(visitor).stopped() == !goes_on(r),
        final(visitor).failed() == (old(visitor).failed() || r is Err),
        patterns_height(final(node).0@) <= patterns_height(old(node).0@),
        stmt_height(*final(node).1) <= stmt_height(*old(node).1),
        old(visitor).keeps() ==> final(visitor).keeps(),
        old(visitor).keeps() ==> pattern_views(final(node).0@) == pattern_views(old(node).0@),
        old(visitor).keeps() ==> final(node).1.view() == old(node).1.view(),
        old(visitor).keeps() ==> went(old(visitor).seen(), patterns_steps(pattern_views(old(node).0@)) + stmt_steps(old(node).1.view()), final(visitor).seen(), goes_on(r)),
    decreases hmax(patterns_height(old(node).0@), stmt_height(*old(node).1)), 13nat,
{
    proof {
        broadcast use {lemma_went_none, lemma_went_short, lemma_went_on, lemma_went_less};
    }
    let part = traverse_patterns(&mut node.0, visitor);
    if !goes(&part) {
        return part;
    }
    traverse_stmt(&mut node.1, visitor)
}

/// Walks the patterns of a branch, then its body.
pub fn traverse_body_expr<E, V: ASTVisitor<E>>(node: &mut (Vec<Located<Pattern>>, Expr), visitor: &mut V) -> (r: Result<Action, E>)
    requires
        !old(visitor).stopped(),
    ensures
        final(visitor).stopped() == !goes_on(r),
        final(visitor).failed() == (old(visitor).failed() || r is Err),
        patterns_height(final(node).0@) <= patterns_height(old(node).0@),
        expr_height(final(node).1) <= expr_height(old(node).1),
        old(visitor).keeps() ==> final(visitor).keeps(),
        old(visitor).keeps() ==> pattern_views(final(node).0@) == pattern_views(old(node).0@),
        old(visitor).keeps() ==> final(node).1.view() == old(node).1.view(),
        old(visitor).keeps() ==> went(old(visitor).seen(), patterns_steps(pattern_views(old(node).0@)) + expr_steps(old(node).1.view()), final(visitor).seen(), goes_on(r)),
    decreases hmax(patterns_height(old(node).0@), expr_height(old(node).1)), 13nat,
{
    proof {
        broadcast use {lemma_went_none, lemma_went_short, lemma_went_on, lemma_went_less};
    }
    let part = traverse_patterns(&mut node.0, visitor);
    if !goes(&part) {
        return part;
    }
    traverse_expr(&mut node.1, visitor)
}

/// Walks the patterns of a branch, then its body.
pub fn traverse_body_stmt<E, V: ASTVisitor<E>>(node: &mut (Vec<Located<Pattern>>, Stmt), visitor: &mut V) -> (r: Result<Action, E>)
    requires
        !old(visitor).stopped(),
    ensures
        final(visitor).stopped() == !goes_on(r),
        final(visitor).failed() == (old(visitor).failed() || r is Err),
        patterns_height(final(node).0@) <= patterns_height(old(node).0@),
        stmt_height(final(node).1) <= stmt_height(old(node).1),
        old(visitor).keeps() ==> final(visitor).keeps(),
        old(visitor).keeps() ==> pattern_views(final(node).0@) == pattern_views(old(node).0@),
        old(visitor).keeps() ==> final(node).1.view() == old(node).1.view(),
        old(visitor).keeps() ==> went(old(visitor).seen(), patterns_steps(pattern_views(old(node).0@)) + stmt_steps(old(node).1.view()), final(visitor).seen(), goes_on(r)),
    decreases hmax(patterns_height(old(node).0@), stmt_height(old(node).1)), 13nat,
{
    proof {
        broadcast use {lemma_went_none, lemma_went_short, lemma_went_on, lemma_went_less};
    }
    let part = traverse_patterns(&mut node.0, visitor);
    if !goes(&part) {
        return part;
    }
    traverse_stmt(&mut node.1, visitor)
}

/// Walks the pattern of a binding, then its expression.
pub fn traverse_binding<E, V: ASTVisitor<E>>(node: &mut (Located<Pattern>, Expr), visitor: &mut V) -> (r: Result<Action, E>)
    requires
        !old(visitor).stopped(),
    ensures
        final(visitor).stopped() == !goes_on(r),
        final(visitor).failed() == (old(visitor).failed() || r is Err),
        pattern_height(final(node).0.inner) <= pattern_height(old(node).0.inner),
        expr_height(final(node).1) <= expr_height(old(node).1),
        old(visitor).keeps() ==> final(visitor).keeps(),
        old(visitor).keeps() ==> final(node).0.inner.view() == old(node).0.inner.view(),
        old(visitor).keeps() ==> final(node).0.loc == old(node).0.loc,
        old(visitor).keeps() ==> final(node).1.view() == old(node).1.view(),
        old(visitor).keeps() ==> went(old(visitor).seen(), pattern_steps(old(node).0.inner.view()) + expr_steps(old(node).1.view()), final(visitor).seen(), goes_on(r)),
    decreases hmax(pattern_height(old(node).0.inner), expr_height(old(node).1)), 13nat,
{
    proof {
        broadcast use {lemma_went_none, lemma_went_short, lemma_went_on, lemma_went_less};
    }
    let part = traverse_pattern(&mut node.0.inner, visitor);
    if !goes(&part) {
        return part;
    }
    traverse_expr(&mut node.1, visitor)
}

/// Walks a declaration: a function is walked, a constant is passed over.
pub fn traverse_decl<E, V: ASTVisitor<E>>(node: &mut Decl, visitor: &mut V) -> (r: Result<Action, E>)
    requires
        !old(visitor).stopped(),
    ensures
        final(visitor).stopped() == !goes_on(r),
        final(visitor).failed() == (old(visitor).failed() || r is Err),
        decl_height(*final(node)) <= decl_height(*old(node)),
        old(visitor).keeps() ==> final(visitor).keeps(),
        old(visitor).keeps() ==> final(node).view() == old(node).view(),
        old(visitor).keeps() ==> went(old(visitor).seen(), decl_steps(old(node).view()), final(visitor).seen(), goes_on(r)),
    decreases decl_height(*old(node)), 11nat,
{
    proof {
        broadcast use {lemma_went_none, lemma_went_short, lemma_went_on, lemma_went_less};
    }
    match node {
        Decl::Function(f) => traverse_function(f, visitor),
        Decl::Manifest(_) => Ok(Action::Continue),
    }
}

/// Walks two expressions in order.
pub fn traverse_two_exprs<E, V: ASTVisitor<E>>(first: &mut Expr, second: &mut Expr, visitor: &mut V) -> (r: Result<Action, E>)
    requires
        !old(visitor).stopped(),
    ensures
        final(visitor).stopped() == !goes_on(r),
        final(visitor).failed() == (old(visitor).failed() || r is Err),
        expr_height(*final(first)) <= expr_height(*old(first)),
        expr_height(*final(second)) <= expr_height(*old(second)),
        old(visitor).keeps() ==> final(visitor).keeps(),
        old(visitor).keeps() ==> final(first).view() == old(first).view(),
        old(visitor).keeps() ==> final(second).view() == old(second).view(),
        old(visitor).keeps() ==> went(old(visitor).seen(), expr_steps(old(first).view()) + expr_steps(old(second).view()), final(visitor).seen(), goes_on(r)),
    decreases hmax(expr_height(*old(first)), expr_height(*old(second))), 15nat,
{
    proof {
        broadcast use {lemma_went_none, lemma_went_short, lemma_went_on, lemma_went_less};
    }
    let part = traverse_expr(first, visitor);
    if !goes(&part) {
        return part;
    }
    traverse_expr(second, visitor)
}

/// Walks three expressions in order.
pub fn traverse_three_exprs<E, V: ASTVisitor<E>>(first: &mut Expr, second: &mut Expr, third: &mut Expr, visitor: &mut V) -> (r: Result<Action, E>)
    requires
        !old(visitor).stopped(),
    ensures
        final(visitor).stopped() == !goes_on(r),
        final(visitor).failed() == (old(visitor).failed() || r is Err),
        expr_height(*final(first)) <= expr_height(*old(first)),
        expr_height(*final(second)) <= expr_height(*old(second)),
        expr_height(*final(third)) <= expr_height(*old(third)),
        old(visitor).keeps() ==> final(visitor).keeps(),
        old(visitor).keeps() ==> final(first).view() == old(first).view(),
        old(visitor).keeps() ==> final(second).view() == old(second).view(),
        old(visitor).keeps() ==> final(third).view() == old(third).view(),
        old(visitor).keeps() ==> went(old(visitor).seen(), (expr_steps(old(first).view()) + expr_steps(old(second).view())) + expr_steps(old(third).view()), final(visitor).seen(), goes_on(r)),
    decreases hmax(expr_height(*old(first)), hmax(expr_height(*old(second)), expr_height(*old(third)))), 15nat,
{
    proof {
        broadcast use {lemma_went_none, lemma_went_short, lemma_went_on, lemma_went_less};
    }
    let part = traverse_expr(first, visitor);
    if !goes(&part) {
        return part;
    }
    let part = traverse_expr(second, visitor);
    if !goes(&part) {
        return part;
    }
    traverse_expr(third, visitor)
}

/// Walks a condition, then the statement that it guards.
pub fn traverse_guarded<E, V: ASTVisitor<E>>(condition: &mut Expr, body: &mut Stmt, visitor: &mut V) -> (r: Result<Action, E>)
    requires
        !old(visitor).stopped(),
    ensures
        final(visitor).stopped() == !goes_on(r),
        final(visitor).failed() == (old(visitor).failed() || r is Err),
        expr_height(*final(condition)) <= expr_height(*old(condition)),
        stmt_height(*final(body)) <= stmt_height(*old(body)),
        old(visitor).keeps() ==> final(visitor).keeps(),
        old(visitor).keeps() ==> final(condition).view() == old(condition).view(),
        old(visitor).keeps() ==> final(body).view() == old(body).view(),
        old(visitor).keeps() ==> went(old(visitor).seen(), expr_steps(old(condition).view()) + stmt_steps(old(body).view()), final(visitor).seen(), goes_on(r)),
    decreases hmax(expr_height(*old(condition)), stmt_height(*old(body))), 15nat,
{
    proof {
        broadcast use {lemma_went_none, lemma_went_short, lemma_went_on, lemma_went_less};
    }
    let part = traverse_expr(condition, visitor);
    if !goes(&part) {
        return part;
    }
    traverse_stmt(body, visitor)
}

/// Walks two patterns in order.
pub fn traverse_two_patterns<E, V: ASTVisitor<E>>(first: &mut Located<Pattern>, second: &mut Located<Pattern>, visitor: &mut V) -> (r: Result<Action, E>)
    requires
        !old(visitor).stopped(),
    ensures
        final(visitor).stopped() == !goes_on(r),
        final(visitor).failed() == (old(visitor).failed() || r is Err),
        pattern_height(final(first).inner) <= pattern_height(old(first).inner),
        pattern_height(final(second).inner) <= pattern_height(old(second).inner),
        old(visitor).keeps() ==> final(visitor).keeps(),
        old(visitor).keeps() ==> final(first).inner.view() == old(first).inner.view(),
        old(visitor).keeps() ==> final(first).loc == old(first).loc,
        old(visitor).keeps() ==> final(second).inner.view() == old(second).inner.view(),
        old(visitor).keeps() ==> final(second).loc == old(second).loc,
        old(visitor).keeps() ==> went(old(visitor).seen(), pattern_steps(old(first).inner.view()) + pattern_steps(old(second).inner.view()), final(visitor).seen(), goes_on(r)),
    decreases hmax(pattern_height(old(first).inner), pattern_height(old(second).inner)), 15nat,
{
    proof {
        broadcast use {lemma_went_none, lemma_went_short, lemma_went_on, lemma_went_less};
    }
    let part = traverse_located_pattern(first, visitor);
    if !goes(&part) {
        return part;
    }
    traverse_located_pattern(second, visitor)
}

/// Walks the callee of a call, then its arguments.
pub fn traverse_call<E, V: ASTVisitor<E>>(callee: &mut Expr, args: &mut Vec<Expr>, visitor: &mut V) -> (r: Result<Action, E>)
    requires
        !old(visitor).stopped(),
    ensures
        final(visitor).stopped() == !goes_on(r),
        final(visitor).failed() == (old(visitor).failed() || r is Err),
        expr_height(*final(callee)) <= expr_height(*old(callee)),
        exprs_height(final(args)@) <= exprs_height(old(args)@),
        old(visitor).keeps() ==> final(visitor).keeps(),
        old(visitor).keeps() ==> final(callee).view() == old(callee).view(),
        old(visitor).keeps() ==> expr_views(final(args)@) == expr_views(old(args)@),
        old(visitor).keeps() ==> went(old(visitor).seen(), expr_steps(old(callee).view()) + exprs_steps(expr_views(old(args)@)), final(visitor).seen(), goes_on(r)),
    decreases hmax(expr_height(*old(callee)), exprs_height(old(args)@)), 15nat,
{
    proof {
        broadcast use {lemma_went_none, lemma_went_short, lemma_went_on, lemma_went_less};
    }
    let part = traverse_expr(callee, visitor);
    if !goes(&part) {
        return part;
    }
    traverse_exprs(args, visitor)
}

/// Walks the values of a `match` expression, then its branches.
pub fn traverse_match_expr<E, V: ASTVisitor<E>>(values: &mut Vec<Expr>, branches: &mut Vec<(Vec<Located<Pattern>>, Box<Expr>)>, visitor: &mut V) -> (r: Result<Action, E>)
    requires
        !old(visitor).stopped(),
    ensures
        final(visitor).stopped() == !goes_on(r),
        final(visitor).failed() == (old(visitor).failed() || r is Err),
        exprs_height(final(values)@) <= exprs_height(old(values)@),
        expr_branches_height(final(branches)@) <= expr_branches_height(old(branches)@),
        old(visitor).keeps() ==> final(visitor).keeps(),
        old(visitor).keeps() ==> expr_views(final(values)@) == expr_views(old(values)@),
        old(visitor).keeps() ==> expr_branch_views(final(branches)@) == expr_branch_views(old(branches)@),
        old(visitor).keeps() ==> went(old(visitor).seen(), exprs_steps(expr_views(old(values)@)) + expr_branches_steps(expr_branch_views(old(branches)@)), final(visitor).seen(), goes_on(r)),
    decreases hmax(exprs_height(old(values)@), expr_branches_height(old(branches)@)), 15nat,
{
    proof {
        broadcast use {lemma_went_none, lemma_went_short, lemma_went_on, lemma_went_less};
    }
    let part = traverse_exprs(values, visitor);
    if !goes(&part) {
        return part;
    }
    traverse_expr_branches(branches, visitor)
}

/// Walks the values of a `match` statement, then its branches.
pub fn traverse_match_stmt<E, V: ASTVisitor<E>>(values: &mut Vec<Expr>, branches: &mut Vec<(Vec<Located<Pattern>>, Box<Stmt>)>, visitor: &mut V) -> (r: Result<Action, E>)
    requires
        !old(visitor).stopped(),
    ensures
        final(visitor).stopped() == !goes_on(r),
        final(visitor).failed() == (old(visitor).failed() || r is Err),
        exprs_height(final(values)@) <= exprs_height(old(values)@),
        stmt_branches_height(final(branches)@) <= stmt_branches_height(old(branches)@),
        old(visitor).keeps() ==> final(visitor).keeps(),
        old(visitor).keeps() ==> expr_views(final(values)@) == expr_views(old(values)@),
        old(visitor).keeps() ==> stmt_branch_views(final(branches)@) == stmt_branch_views(old(branches)@),
        old(visitor).keeps() ==> went(old(visitor).seen(), exprs_steps(expr_views(old(values)@)) + stmt_branches_steps(stmt_branch_views(old(branches)@)), final(visitor).seen(), goes_on(r)),
    decreases hmax(exprs_height(old(values)@), stmt_branches_height(old(branches)@)), 15nat,
{
    proof {
        broadcast use {lemma_went_none, lemma_went_short, lemma_went_on, lemma_went_less};
    }
    let part = traverse_exprs(values, visitor);
    if !goes(&part) {
        return part;
    }
    traverse_stmt_branches(branches, visitor)
}

/// The height of an optional expression.
pub open spec fn opt_expr_height(e: Option<Box<Expr>>) -> nat {
    match e {
        Some(x) => expr_height(*x),
        None => 0,
    }
}

/// The height of an optional statement.
pub open spec fn opt_stmt_height(s: Option<Box<Stmt>>) -> nat {
    match s {
        Some(x) => stmt_height(*x),
        None => 0,
    }
}

/// Walks an expression that may be missing.
pub fn traverse_opt_expr<E, V: ASTVisitor<E>>(node: &mut Option<Box<Expr>>, visitor: &mut V) -> (r: Result<Action, E>)
    requires
        !old(visitor).stopped(),
    ensures
        final(visitor).stopped() == !goes_on(r),
        final(visitor).failed() == (old(visitor).failed() || r is Err),
        opt_expr_height(*final(node)) <= opt_expr_height(*old(node)),
        old(visitor).keeps() ==> final(visitor).keeps(),
        old(visitor).keeps() ==> opt_expr_view(*final(node)) == opt_expr_view(*old(node)),
        old(visitor).keeps() ==> went(old(visitor).seen(), opt_expr_steps(opt_expr_view(*old(node))), final(visitor).seen(), goes_on(r)),
    decreases opt_expr_height(*old(node)), 15nat,
{
    proof {
        broadcast use {lemma_went_none, lemma_went_short, lemma_went_on, lemma_went_less};
    }
    match node {
        Some(expr) => traverse_expr(expr, visitor),
        None => Ok(Action::Continue),
    }
}

/// Walks a statement that may be missing.
pub fn traverse_opt_stmt<E, V: ASTVisitor<E>>(node: &mut Option<Box<Stmt>>, visitor: &mut V) -> (r: Result<Action, E>)
    requires
        !old(visitor).stopped(),
    ensures
        final(visitor).stopped() == !goes_on(r),
        final(visitor).failed() == (old(visitor).failed() || r is Err),
        opt_stmt_height(*final(node)) <= opt_stmt_height(*old(node)),
        old(visitor).keeps() ==> final(visitor).keeps(),
        old(visitor).keeps() ==> opt_stmt_view(*final(node)) == opt_stmt_view(*old(node)),
        old(visitor).keeps() ==> went(old(visitor).seen(), opt_stmt_steps(opt_stmt_view(*old(node))), final(visitor).seen(), goes_on(r)),
    decreases opt_stmt_height(*old(node)), 15nat,
{
    proof {
        broadcast use {lemma_went_none, lemma_went_short, lemma_went_on, lemma_went_less};
    }
    match node {
        Some(stmt) => traverse_stmt(stmt, visitor),
        None => Ok(Action::Continue),
    }
}

/// Walks the condition of an `if`, then its branches.
pub fn traverse_if<E, V: ASTVisitor<E>>(condition: &mut Expr, if_branch: &mut Stmt, else_branch: &mut Option<Box<Stmt>>, visitor: &mut V) -> (r: Result<Action, E>)
    requires
        !old(visitor).stopped(),
    ensures
        final(visitor).stopped() == !goes_on(r),
        final(visitor).failed() == (old(visitor).failed() || r is Err),
        expr_height(*final(condition)) <= expr_height(*old(condition)),
        stmt_height(*final(if_branch)) <= stmt_height(*old(if_branch)),
        opt_stmt_height(*final(else_branch)) <= opt_stmt_height(*old(else_branch)),
        old(visitor).keeps() ==> final(visitor).keeps(),
        old(visitor).keeps() ==> final(condition).view() == old(condition).view(),
        old(visitor).keeps() ==> final(if_branch).view() == old(if_branch).view(),
        old(visitor).keeps() ==> opt_stmt_view(*final(else_branch)) == opt_stmt_view(*old(else_branch)),
        old(visitor).keeps() ==> went(old(visitor).seen(), (expr_steps(old(condition).view()) + stmt_steps(old(if_branch).view())) + opt_stmt_steps(opt_stmt_view(*old(else_branch))), final(visitor).seen(), goes_on(r)),
    decreases hmax(expr_height(*old(condition)), hmax(stmt_height(*old(if_branch)), opt_stmt_height(*old(else_branch)))), 16nat,
{
    proof {
        broadcast use {lemma_went_none, lemma_went_short, lemma_went_on, lemma_went_less};
    }
    let part = traverse_expr(condition, visitor);
    if !goes(&part) {
        return part;
    }
    let part = traverse_stmt(if_branch, visitor);
    if !goes(&part) {
        return part;
    }
    traverse_opt_stmt(else_branch, visitor)
}

/// Walks the iterator of a `for`, its initial value, its bound and its step.
pub fn traverse_for_head<E, V: ASTVisitor<E>>(iter: &mut Pattern, init: &mut Expr, bound: &mut Option<Box<Expr>>, step: &mut Option<Box<Expr>>, visitor: &mut V) -> (r: Result<Action, E>)
    requires
        !old(visitor).stopped(),
    ensures
        final(visitor).stopped() == !goes_on(r),
        final(visitor).failed() == (old(visitor).failed() || r is Err),
        pattern_height(*final(iter)) <= pattern_height(*old(iter)),
        expr_height(*final(init)) <= expr_height(*old(init)),
        opt_expr_height(*final(bound)) <= opt_expr_height(*old(bound)),
        opt_expr_height(*final(step)) <= opt_expr_height(*old(step)),
        old(visitor).keeps() ==> final(visitor).keeps(),
        old(visitor).keeps() ==> final(iter).view() == old(iter).view(),
        old(visitor).keeps() ==> final(init).view() == old(init).view(),
        old(visitor).keeps() ==> opt_expr_view(*final(bound)) == opt_expr_view(*old(bound)),
        old(visitor).keeps() ==> opt_expr_view(*final(step)) == opt_expr_view(*old(step)),
        old(visitor).keeps() ==> went(old(visitor).seen(), ((pattern_steps(old(iter).view()) + expr_steps(old(init).view())) + opt_expr_steps(opt_expr_view(*old(bound)))) + opt_expr_steps(opt_expr_view(*old(step))), final(visitor).seen(), goes_on(r)),
    decreases hmax(pattern_height(*old(iter)), hmax(expr_height(*old(init)), hmax(opt_expr_height(*old(bound)), opt_expr_height(*old(step))))), 16nat,
{
    proof {
        broadcast use {lemma_went_none, lemma_went_short, lemma_went_on, lemma_went_less};
    }
    let part = traverse_pattern(iter, visitor);
    if !goes(&part) {
        return part;
    }
    let part = traverse_expr(init, visitor);
    if !goes(&part) {
        return part;
    }
    let part = traverse_opt_expr(bound, visitor);
    if !goes(&part) {
        return part;
    }
    traverse_opt_expr(step, visitor)
}

/// An expression that stands in for one that was taken out of its place.
pub fn placeholder() -> (e: Expr)
    ensures
        expr_height(e) == 1,
{
    Expr::new(
        Location { source_file_id: 0, line: 0, column: 0, width: 0 },
        None,
        ExprKind::True,
    )
}

/// Walks the expressions of a pattern term. The two ends of a range are taken out of the term and put back, so that each is borrowed by itself.
pub fn traverse_term<E, V: ASTVisitor<E>>(term: &mut PatternTerm, visitor: &mut V) -> (r: Result<Action, E>)
    requires
        !old(visitor).stopped(),
    ensures
        final(visitor).stopped() == !goes_on(r),
        final(visitor).failed() == (old(visitor).failed() || r is Err),
        term_height(*final(term)) <= term_height(*old(term)),
        old(visitor).keeps() ==> final(visitor).keeps(),
        old(visitor).keeps() ==> final(term).view() == old(term).view(),
        old(visitor).keeps() ==> went(old(visitor).seen(), term_steps(old(term).view()), final(visitor).seen(), goes_on(r)),
    decreases term_height(*old(term)), 16nat,
{
    proof {
        broadcast use {lemma_went_none, lemma_went_short, lemma_went_on, lemma_went_less};
    }
    match term {
        PatternTerm::Basic(expr) => {
            return traverse_expr(expr, visitor);
        },
        PatternTerm::Lt(expr) => {
            return traverse_expr(expr, visitor);
        },
        PatternTerm::Le(expr) => {
            return traverse_expr(expr, visitor);
        },
        PatternTerm::Gt(expr) => {
            return traverse_expr(expr, visitor);
        },
        PatternTerm::Ge(expr) => {
            return traverse_expr(expr, visitor);
        },
        PatternTerm::Ne(expr) => {
            return traverse_expr(expr, visitor);
        },
        PatternTerm::Eq(expr) => {
            return traverse_expr(expr, visitor);
        },
        _ => {},
    }
    let mut taken = PatternTerm::Basic(placeholder());
    core::mem::swap(term, &mut taken);
    match taken {
        PatternTerm::Range(mut lhs, mut rhs) => {
            let r = traverse_two_exprs(&mut lhs, &mut rhs, visitor);
            *term = PatternTerm::Range(lhs, rhs);
            r
        },
        other => {
            *term = other;
            Ok(Action::Continue)
        },
    }
}

/// Walks the body of a function.
pub fn traverse_body<E, V: ASTVisitor<E>>(body: &mut FunctionBody, visitor: &mut V) -> (r: Result<Action, E>)
    requires
        !old(visitor).stopped(),
    ensures
        final(visitor).stopped() == !goes_on(r),
        final(visitor).failed() == (old(visitor).failed() || r is Err),
        body_height(*final(body)) <= body_height(*old(body)),
        old(visitor).keeps() ==> final(visitor).keeps(),
        old(visitor).keeps() ==> final(body).view() == old(body).view(),
        old(visitor).keeps() ==> went(old(visitor).seen(), body_steps(old(body).view()), final(visitor).seen(), goes_on(r)),
    decreases body_height(*old(body)), 15nat,
{
    proof {
        broadcast use {lemma_went_none, lemma_went_short, lemma_went_on, lemma_went_less};
    }
    match body {
        FunctionBody::Expr(expr) => traverse_expr(expr, visitor),
        FunctionBody::Stmt(stmt) => traverse_stmt(stmt, visitor),
        FunctionBody::PatternMatchedExpr(branches) => traverse_body_exprs(branches, visitor),
        FunctionBody::PatternMatchedStmt(branches) => traverse_body_stmts(branches, visitor),
    }
}

/// Walks the sections of a program in order.
pub fn traverse_program_children<E, V: ASTVisitor<E>>(node: &mut Program, visitor: &mut V) -> (r: Result<Action, E>)
    requires
        !old(visitor).stopped(),
    ensures
        final(visitor).stopped() == !goes_on(r),
        final(visitor).failed() == (old(visitor).failed() || r is Err),
        program_height(*final(node)) <= program_height(*old(node)),
        old(visitor).keeps() ==> final(visitor).keeps(),
        old(visitor).keeps() ==> final(node).same(old(node)),
        old(visitor).keeps() ==> went(old(visitor).seen(), sections_steps(old(node).section_list()), final(visitor).seen(), goes_on(r)),
    decreases program_height(*old(node)), 9nat,
{
    proof {
        broadcast use {lemma_went_none, lemma_went_short, lemma_went_on, lemma_went_less};
    }
    traverse_sections(&mut node.sections, visitor)
}

/// Walks a program: the hook before, its sections in order, the hook after.
pub fn traverse_program<E, V: ASTVisitor<E>>(node: &mut Program, visitor: &mut V) -> (r: Result<Action, E>)
    requires
        !old(visitor).stopped(),
    ensures
        final(visitor).stopped() == !goes_on(r),
        final(visitor).failed() == (old(visitor).failed() || r is Err),
        program_height(*final(node)) <= program_height(*old(node)),
        old(visitor).keeps() ==> final(visitor).keeps(),
        old(visitor).keeps() ==> final(node).same(old(node)),
        old(visitor).keeps() ==> went(old(visitor).seen(), program_steps(old(node).section_list()), final(visitor).seen(), goes_on(r)),
    decreases program_height(*old(node)), 10nat,
{
    proof {
        broadcast use {lemma_went_none, lemma_went_short, lemma_went_on, lemma_went_less};
    }
    let part = Visitor::<Program, E>::visit_before(visitor, node);
    if !goes(&part) {
        return part;
    }
    let part = traverse_program_children(node, visitor);
    if !goes(&part) {
        return part;
    }
    Visitor::<Program, E>::visit(visitor, node)
}

/// Walks the declarations of a section in order.
pub fn traverse_section_children<E, V: ASTVisitor<E>>(node: &mut Section, visitor: &mut V) -> (r: Result<Action, E>)
    requires
        !old(visitor).stopped(),
    ensures
        final(visitor).stopped() == !goes_on(r),
        final(visitor).failed() == (old(visitor).failed() || r is Err),
        section_height(*final(node)) <= section_height(*old(node)),
        old(visitor).keeps() ==> final(visitor).keeps(),
        old(visitor).keeps() ==> final(node).view() == old(node).view(),
        old(visitor).keeps() ==> went(old(visitor).seen(), decls_steps(old(node).view().declarations), final(visitor).seen(), goes_on(r)),
    decreases section_height(*old(node)), 9nat,
{
    proof {
        broadcast use {lemma_went_none, lemma_went_short, lemma_went_on, lemma_went_less};
    }
    traverse_decls(&mut node.declarations, visitor)
}

/// Walks a section: the hook before, its declarations in order, the hook after.
pub fn traverse_section<E, V: ASTVisitor<E>>(node: &mut Section, visitor: &mut V) -> (r: Result<Action, E>)
    requires
        !old(visitor).stopped(),
    ensures
        final(visitor).stopped() == !goes_on(r),
        final(visitor).failed() == (old(visitor).failed() || r is Err),
        section_height(*final(node)) <= section_height(*old(node)),
        old(visitor).keeps() ==> final(visitor).keeps(),
        old(visitor).keeps() ==> final(node).view() == old(node).view(),
        old(visitor).keeps() ==> went(old(visitor).seen(), section_steps(old(node).view()), final(visitor).seen(), goes_on(r)),
    decreases section_height(*old(node)), 10nat,
{
    proof {
        broadcast use {lemma_went_none, lemma_went_short, lemma_went_on, lemma_went_less};
    }
    let part = Visitor::<Section, E>::visit_before(visitor, node);
    if !goes(&part) {
        return part;
    }
    let part = traverse_section_children(node, visitor);
    if !goes(&part) {
        return part;
    }
    Visitor::<Section, E>::visit(visitor, node)
}

/// Walks the parameters of a function, then its body.
pub fn traverse_function_children<E, V: ASTVisitor<E>>(node: &mut Function, visitor: &mut V) -> (r: Result<Action, E>)
    requires
        !old(visitor).stopped(),
    ensures
        final(visitor).stopped() == !goes_on(r),
        final(visitor).failed() == (old(visitor).failed() || r is Err),
        function_height(*final(node)) <= function_height(*old(node)),
        old(visitor).keeps() ==> final(visitor).keeps(),
        old(visitor).keeps() ==> final(node).view() == old(node).view(),
        old(visitor).keeps() ==> went(old(visitor).seen(), function_parts(old(node).view()), final(visitor).seen(), goes_on(r)),
    decreases function_height(*old(node)), 9nat,
{
    proof {
        broadcast use {lemma_went_none, lemma_went_short, lemma_went_on, lemma_went_less};
    }
    let part = traverse_params(&mut node.params, visitor);
    if !goes(&part) {
        return part;
    }
    traverse_body(&mut node.body, visitor)
}

/// Walks a function: the hook before, its parameters and its body, the hook after.
pub fn traverse_function<E, V: ASTVisitor<E>>(node: &mut Function, visitor: &mut V) -> (r: Result<Action, E>)
    requires
        !old(visitor).stopped(),
    ensures
        final(visitor).stopped() == !goes_on(r),
        final(visitor).failed() == (old(visitor).failed() || r is Err),
        function_height(*final(node)) <= function_height(*old(node)),
        old(visitor).keeps() ==> final(visitor).keeps(),
        old(visitor).keeps() ==> final(node).view() == old(node).view(),
        old(visitor).keeps() ==> went(old(visitor).seen(), function_steps(old(node).view()), final(visitor).seen(), goes_on(r)),
    decreases function_height(*old(node)), 10nat,
{
    proof {
        broadcast use {lemma_went_none, lemma_went_short, lemma_went_on, lemma_went_less};
    }
    let part = Visitor::<Function, E>::visit_before(visitor, node);
    if !goes(&part) {
        return part;
    }
    let part = traverse_function_children(node, visitor);
    if !goes(&part) {
        return part;
    }
    Visitor::<Function, E>::visit(visitor, node)
}

/// Walks the pattern of a parameter, then its default value.
pub fn traverse_param_children<E, V: ASTVisitor<E>>(node: &mut Param, visitor: &mut V) -> (r: Result<Action, E>)
    requires
        !old(visitor).stopped(),
    ensures
        final(visitor).stopped() == !goes_on(r),
        final(visitor).failed() == (old(visitor).failed() || r is Err),
        param_height(*final(node)) <= param_height(*old(node)),
        old(visitor).keeps() ==> final(visitor).keeps(),
        old(visitor).keeps() ==> final(node).view() == old(node).view(),
        old(visitor).keeps() ==> went(old(visitor).seen(), param_parts(old(node).view()), final(visitor).seen(), goes_on(r)),
    decreases param_height(*old(node)), 9nat,
{
    proof {
        broadcast use {lemma_went_none, lemma_went_short, lemma_went_on, lemma_went_less};
    }
    let part = traverse_pattern(&mut node.ident.inner, visitor);
    if !goes(&part) {
        return part;
    }
    match &mut node.default_value {
        Some(value) => traverse_expr(value, visitor),
        None => Ok(Action::Continue),
    }
}

/// Walks a parameter: the hook before, its pattern and its default value, the hook after.
pub fn traverse_param<E, V: ASTVisitor<E>>(node: &mut Param, visitor: &mut V) -> (r: Result<Action, E>)
    requires
        !old(visitor).stopped(),
    ensures
        final(visitor).stopped() == !goes_on(r),
        final(visitor).failed() == (old(visitor).failed() || r is Err),
        param_height(*final(node)) <= param_height(*old(node)),
        old(visitor).keeps() ==> final(visitor).keeps(),
        old(visitor).keeps() ==> final(node).view() == old(node).view(),
        old(visitor).keeps() ==> went(old(visitor).seen(), param_steps(old(node).view()), final(visitor).seen(), goes_on(r)),
    decreases param_height(*old(node)), 10nat,
{
    proof {
        broadcast use {lemma_went_none, lemma_went_short, lemma_went_on, lemma_went_less};
    }
    let part = Visitor::<Param, E>::visit_before(visitor, node);
    if !goes(&part) {
        return part;
    }
    let part = traverse_param_children(node, visitor);
    if !goes(&part) {
        return part;
    }
    Visitor::<Param, E>::visit(visitor, node)
}

/// Walks the expressions and statements of a statement in the order in which they are written.
pub fn traverse_stmt_children<E, V: ASTVisitor<E>>(node: &mut Stmt, visitor: &mut V) -> (r: Result<Action, E>)
    requires
        !old(visitor).stopped(),
    ensures
        final(visitor).stopped() == !goes_on(r),
        final(visitor).failed() == (old(visitor).failed() || r is Err),
        stmt_height(*final(node)) <= stmt_height(*old(node)),
        old(visitor).keeps() ==> final(visitor).keeps(),
        old(visitor).keeps() ==> final(node).view() == old(node).view(),
        old(visitor).keeps() ==> went(old(visitor).seen(), stmt_parts(old(node).view()), final(visitor).seen(), goes_on(r)),
    decreases stmt_height(*old(node)), 9nat,
{
    proof {
        broadcast use {lemma_went_none, lemma_went_short, lemma_went_on, lemma_went_less};
    }
    match &mut node.kind {
        StmtKind::Expr(expr) => traverse_expr(expr, visitor),
        StmtKind::ResultIs(expr) => traverse_expr(expr, visitor),
        StmtKind::Case(expr) => traverse_expr(expr, visitor),
        StmtKind::Block(stmts) => traverse_stmts(stmts, visitor),
        StmtKind::If(cond, if_branch, else_branch) => traverse_if(
            cond,
            if_branch,
            else_branch,
            visitor,
        ),
        StmtKind::Unless(cond, body) => traverse_guarded(cond, body, visitor),
        StmtKind::SwitchOn(cond, body) => traverse_guarded(cond, body, visitor),
        StmtKind::While(cond, body) => traverse_guarded(cond, body, visitor),
        StmtKind::Until(cond, body) => traverse_guarded(cond, body, visitor),
        StmtKind::For(iter, init, bound, step, body) => {
            let part = traverse_for_head(&mut iter.inner, init, bound, step, visitor);
            if !goes(&part) {
                return part;
            }
            traverse_stmt(body, visitor)
        },
        StmtKind::Match(cond, branches) => traverse_match_stmt(cond, branches, visitor),
        StmtKind::Every(cond, branches) => traverse_match_stmt(cond, branches, visitor),
        StmtKind::Binding(pairs) => traverse_bindings(pairs, visitor),
        _ => Ok(Action::Continue),
    }
}

/// Walks a statement: the hook before, its parts in order, the hook after.
pub fn traverse_stmt<E, V: ASTVisitor<E>>(node: &mut Stmt, visitor: &mut V) -> (r: Result<Action, E>)
    requires
        !old(visitor).stopped(),
    ensures
        final(visitor).stopped() == !goes_on(r),
        final(visitor).failed() == (old(visitor).failed() || r is Err),
        stmt_height(*final(node)) <= stmt_height(*old(node)),
        old(visitor).keeps() ==> final(visitor).keeps(),
        old(visitor).keeps() ==> final(node).view() == old(node).view(),
        old(visitor).keeps() ==> went(old(visitor).seen(), stmt_steps(old(node).view()), final(visitor).seen(), goes_on(r)),
    decreases stmt_height(*old(node)), 10nat,
{
    proof {
        broadcast use {lemma_went_none, lemma_went_short, lemma_went_on, lemma_went_less};
    }
    let part = Visitor::<Stmt, E>::visit_before(visitor, node);
    if !goes(&part) {
        return part;
    }
    let part = traverse_stmt_children(node, visitor);
    if !goes(&part) {
        return part;
    }
    Visitor::<Stmt, E>::visit(visitor, node)
}

/// Walks the operands of an expression in the order in which they are written.
pub fn traverse_expr_children<E, V: ASTVisitor<E>>(node: &mut Expr, visitor: &mut V) -> (r: Result<Action, E>)
    requires
        !old(visitor).stopped(),
    ensures
        final(visitor).stopped() == !goes_on(r),
        final(visitor).failed() == (old(visitor).failed() || r is Err),
        expr_height(*final(node)) <= expr_height(*old(node)),
        old(visitor).keeps() ==> final(visitor).keeps(),
        old(visitor).keeps() ==> final(node).view() == old(node).view(),
        old(visitor).keeps() ==> went(old(visitor).seen(), expr_parts(old(node).view()), final(visitor).seen(), goes_on(r)),
    decreases expr_height(*old(node)), 9nat,
{
    proof {
        broadcast use {lemma_went_none, lemma_went_short, lemma_went_on, lemma_went_less};
    }
    match &mut node.kind {
        ExprKind::Abs(expr) => traverse_expr(expr, visitor),
        ExprKind::Not(expr) => traverse_expr(expr, visitor),
        ExprKind::Ref(expr) => traverse_expr(expr, visitor),
        ExprKind::Deref(expr) => traverse_expr(expr, visitor),
        ExprKind::Cast(expr) => traverse_expr(expr, visitor),
        ExprKind::ImplicitCast(expr) => traverse_expr(expr, visitor),
        ExprKind::Add(lhs, rhs) => traverse_two_exprs(lhs, rhs, visitor),
        ExprKind::Sub(lhs, rhs) => traverse_two_exprs(lhs, rhs, visitor),
        ExprKind::Mul(lhs, rhs) => traverse_two_exprs(lhs, rhs, visitor),
        ExprKind::Div(lhs, rhs) => traverse_two_exprs(lhs, rhs, visitor),
        ExprKind::Mod(lhs, rhs) => traverse_two_exprs(lhs, rhs, visitor),
        ExprKind::And(lhs, rhs) => traverse_two_exprs(lhs, rhs, visitor),
        ExprKind::Or(lhs, rhs) => traverse_two_exprs(lhs, rhs, visitor),
        ExprKind::XOr(lhs, rhs) => traverse_two_exprs(lhs, rhs, visitor),
        ExprKind::Eq(lhs, rhs) => traverse_two_exprs(lhs, rhs, visitor),
        ExprKind::Ne(lhs, rhs) => traverse_two_exprs(lhs, rhs, visitor),
        ExprKind::Gt(lhs, rhs) => traverse_two_exprs(lhs, rhs, visitor),
        ExprKind::Ge(lhs, rhs) => traverse_two_exprs(lhs, rhs, visitor),
        ExprKind::Lt(lhs, rhs) => traverse_two_exprs(lhs, rhs, visitor),
        ExprKind::Le(lhs, rhs) => traverse_two_exprs(lhs, rhs, visitor),
        ExprKind::LShift(lhs, rhs) => traverse_two_exprs(lhs, rhs, visitor),
        ExprKind::RShift(lhs, rhs) => traverse_two_exprs(lhs, rhs, visitor),
        ExprKind::Conditional(lhs, mhs, rhs) => traverse_three_exprs(lhs, mhs, rhs, visitor),
        ExprKind::ValOf(stmt) => traverse_stmt(stmt, visitor),
        ExprKind::FuncCall(callee, args) => traverse_call(callee, args, visitor),
        ExprKind::Match(cond, branches) => traverse_match_expr(cond, branches, visitor),
        ExprKind::Every(cond, branches) => traverse_match_expr(cond, branches, visitor),
        _ => Ok(Action::Continue),
    }
}

/// Walks an expression: the hook before, its operands in order, the hook after.
pub fn traverse_expr<E, V: ASTVisitor<E>>(node: &mut Expr, visitor: &mut V) -> (r: Result<Action, E>)
    requires
        !old(visitor).stopped(),
    ensures
        final(visitor).stopped() == !goes_on(r),
        final(visitor).failed() == (old(visitor).failed() || r is Err),
        expr_height(*final(node)) <= expr_height(*old(node)),
        old(visitor).keeps() ==> final(visitor).keeps(),
        old(visitor).keeps() ==> final(node).view() == old(node).view(),
        old(visitor).keeps() ==> went(old(visitor).seen(), expr_steps(old(node).view()), final(visitor).seen(), goes_on(r)),
    decreases expr_height(*old(node)), 10nat,
{
    proof {
        broadcast use {lemma_went_none, lemma_went_short, lemma_went_on, lemma_went_less};
    }
    let part = Visitor::<Expr, E>::visit_before(visitor, node);
    if !goes(&part) {
        return part;
    }
    let part = traverse_expr_children(node, visitor);
    if !goes(&part) {
        return part;
    }
    Visitor::<Expr, E>::visit(visitor, node)
}

/// Walks the expressions and patterns of a pattern in the order in which they are written. The two sides of `|` and `&` are taken out of the pattern and put back, so that each is borrowed by itself.
pub fn traverse_pattern_children<E, V: ASTVisitor<E>>(node: &mut Pattern, visitor: &mut V) -> (r: Result<Action, E>)
    requires
        !old(visitor).stopped(),
    ensures
        final(visitor).stopped() == !goes_on(r),
        final(visitor).failed() == (old(visitor).failed() || r is Err),
        pattern_height(*final(node)) <= pattern_height(*old(node)),
        old(visitor).keeps() ==> final(visitor).keeps(),
        old(visitor).keeps() ==> final(node).view() == old(node).view(),
        old(visitor).keeps() ==> went(old(visitor).seen(), pattern_parts(old(node).view()), final(visitor).seen(), goes_on(r)),
    decreases pattern_height(*old(node)), 9nat,
{
    proof {
        broadcast use {lemma_went_none, lemma_went_short, lemma_went_on, lemma_went_less};
    }
    match node {
        Pattern::Term(term) => {
            return traverse_term(term, visitor);
        },
        Pattern::Variant(_, args) => {
            return traverse_patterns(args, visitor);
        },
        Pattern::List(args) => {
            return traverse_patterns(args, visitor);
        },
        _ => {},
    }
    let mut taken = Pattern::Any;
    core::mem::swap(node, &mut taken);
    match taken {
        Pattern::Or(mut lhs, mut rhs) => {
            let r = traverse_two_patterns(&mut lhs, &mut rhs, visitor);
            *node = Pattern::Or(lhs, rhs);
            r
        },
        Pattern::And(mut lhs, mut rhs) => {
            let r = traverse_two_patterns(&mut lhs, &mut rhs, visitor);
            *node = Pattern::And(lhs, rhs);
            r
        },
        other => {
            *node = other;
            Ok(Action::Continue)
        },
    }
}

/// Walks a pattern: the hook before, its parts in order, the hook after.
pub fn traverse_pattern<E, V: ASTVisitor<E>>(node: &mut Pattern, visitor: &mut V) -> (r: Result<Action, E>)
    requires
        !old(visitor).stopped(),
    ensures
        final(visitor).stopped() == !goes_on(r),
        final(visitor).failed() == (old(visitor).failed() || r is Err),
        pattern_height(*final(node)) <= pattern_height(*old(node)),
        old(visitor).keeps() ==> final(visitor).keeps(),
        old(visitor).keeps() ==> final(node).view() == old(node).view(),
        old(visitor).keeps() ==> went(old(visitor).seen(), pattern_steps(old(node).view()), final(visitor).seen(), goes_on(r)),
    decreases pattern_height(*old(node)), 10nat,
{
    proof {
        broadcast use {lemma_went_none, lemma_went_short, lemma_went_on, lemma_went_less};
    }
    let part = Visitor::<Pattern, E>::visit_before(visitor, node);
    if !goes(&part) {
        return part;
    }
    let part = traverse_pattern_children(node, visitor);
    if !goes(&part) {
        return part;
    }
    Visitor::<Pattern, E>::visit(visitor, node)
}

} // verus!
