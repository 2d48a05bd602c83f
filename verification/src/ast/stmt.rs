//! Statements.

use vstd::prelude::*;
use crate::source_file::{Located, Location};
use crate::ast::expr::{Expr, ExprView, expr_views, exprs_equal};
use crate::ast::shape::{
    bare_bindings, bare_expr, bare_opt_expr, bare_opt_stmt, bare_pattern, bare_patterns, bare_stmt,
    bare_stmt_branches, bare_stmt_kind, bare_stmts,
};
use crate::ast::pattern::{Pattern, PatternView, patterns_equal, pattern_views};

verus! {

#[derive(Debug)]
pub struct Stmt {
    pub loc: Location,
    pub kind: StmtKind,
}

#[derive(Debug)]
pub enum StmtKind {
    Nop,
    Expr(Box<Expr>),
    Block(Vec<Stmt>),
    ResultIs(Box<Expr>),
    Return,
    If(Box<Expr>, Box<Stmt>, Option<Box<Stmt>>),
    Unless(Box<Expr>, Box<Stmt>),
    While(Box<Expr>, Box<Stmt>),
    Until(Box<Expr>, Box<Stmt>),
    /// Iterator, initial value, bound, step, body.
    For(Located<Pattern>, Box<Expr>, Option<Box<Expr>>, Option<Box<Expr>>, Box<Stmt>),
    SwitchOn(Box<Expr>, Box<Stmt>),
    Case(Box<Expr>),
    DefaultCase,
    Break,
    Next,
    Match(Vec<Expr>, Vec<(Vec<Located<Pattern>>, Box<Stmt>)>),
    Every(Vec<Expr>, Vec<(Vec<Located<Pattern>>, Box<Stmt>)>),
    Binding(Vec<(Located<Pattern>, Expr)>),
}

pub ghost struct StmtView {
    pub loc: Location,
    pub kind: StmtKindView,
}

pub ghost enum StmtKindView {
    Nop,
    Expr(Box<ExprView>),
    Block(Seq<StmtView>),
    ResultIs(Box<ExprView>),
    Return,
    If(Box<ExprView>, Box<StmtView>, Option<Box<StmtView>>),
    Unless(Box<ExprView>, Box<StmtView>),
    While(Box<ExprView>, Box<StmtView>),
    Until(Box<ExprView>, Box<StmtView>),
    For(
        (PatternView, Location),
        Box<ExprView>,
        Option<Box<ExprView>>,
        Option<Box<ExprView>>,
        Box<StmtView>,
    ),
    SwitchOn(Box<ExprView>, Box<StmtView>),
    Case(Box<ExprView>),
    DefaultCase,
    Break,
    Next,
    Match(Seq<ExprView>, Seq<(Seq<(PatternView, Location)>, StmtView)>),
    Every(Seq<ExprView>, Seq<(Seq<(PatternView, Location)>, StmtView)>),
    Binding(Seq<((PatternView, Location), ExprView)>),
}

pub open spec fn stmt_views(s: Seq<Stmt>) -> Seq<StmtView>
    decreases s,
{
    Seq::new(
        s.len(),
        |i: int|
            if 0 <= i < s.len() {
                s[i].view()
            } else {
                arbitrary()
            },
    )
}

pub open spec fn stmt_branch_views(s: Seq<(Vec<Located<Pattern>>, Box<Stmt>)>) -> Seq<
    (Seq<(PatternView, Location)>, StmtView),
>
    decreases s,
{
    Seq::new(
        s.len(),
        |i: int|
            if 0 <= i < s.len() {
                (pattern_views(s[i].0@), s[i].1.view())
            } else {
                arbitrary()
            },
    )
}

pub open spec fn binding_views(s: Seq<(Located<Pattern>, Expr)>) -> Seq<((PatternView, Location), ExprView)>
    decreases s,
{
    Seq::new(
        s.len(),
        |i: int|
            if 0 <= i < s.len() {
                ((s[i].0.inner.view(), s[i].0.loc), s[i].1.view())
            } else {
                arbitrary()
            },
    )
}

/// The views of a list with one more statement.
pub proof fn lemma_stmt_views_push(s: Seq<Stmt>, x: Stmt)
    ensures
        stmt_views(s.push(x)) == stmt_views(s).push(x.view()),
{
    assert(stmt_views(s.push(x)) =~= stmt_views(s).push(x.view()));
}

/// The views of a list with one more branch.
pub proof fn lemma_stmt_branch_views_push(
    s: Seq<(Vec<Located<Pattern>>, Box<Stmt>)>,
    b: (Vec<Located<Pattern>>, Box<Stmt>),
)
    ensures
        stmt_branch_views(s.push(b)) == stmt_branch_views(s).push(
            (pattern_views(b.0@), b.1.view()),
        ),
{
    assert(stmt_branch_views(s.push(b)) =~= stmt_branch_views(s).push(
        (pattern_views(b.0@), b.1.view()),
    ));
}

pub open spec fn opt_expr_view(e: Option<Box<Expr>>) -> Option<Box<ExprView>>
    decreases e,
{
    match e {
        Some(x) => Some(Box::new(x.view())),
        None => None,
    }
}

pub open spec fn opt_stmt_view(s: Option<Box<Stmt>>) -> Option<Box<StmtView>>
    decreases s,
{
    match s {
        Some(x) => Some(Box::new(x.view())),
        None => None,
    }
}

pub fn opt_exprs_equal(a: &Option<Box<Expr>>, b: &Option<Box<Expr>>) -> (r: bool)
    ensures
        r == (bare_opt_expr(opt_expr_view(*a)) == bare_opt_expr(opt_expr_view(*b))),
    decreases a,
{
    match (a, b) {
        (Some(x), Some(y)) => x.equals(y),
        (None, None) => true,
        _ => false,
    }
}

pub fn opt_stmts_equal(a: &Option<Box<Stmt>>, b: &Option<Box<Stmt>>) -> (r: bool)
    ensures
        r == (bare_opt_stmt(opt_stmt_view(*a)) == bare_opt_stmt(opt_stmt_view(*b))),
    decreases a,
{
    match (a, b) {
        (Some(x), Some(y)) => x.equals(y),
        (None, None) => true,
        _ => false,
    }
}

impl StmtKind {
    pub open spec fn view(&self) -> StmtKindView
        decreases self,
    {
        match self {
            StmtKind::Nop => StmtKindView::Nop,
            StmtKind::Expr(e) => StmtKindView::Expr(Box::new(e.view())),
            StmtKind::Block(b) => StmtKindView::Block(stmt_views(b@)),
            StmtKind::ResultIs(e) => StmtKindView::ResultIs(Box::new(e.view())),
            StmtKind::Return => StmtKindView::Return,
            StmtKind::If(c, a, b) => StmtKindView::If(
                Box::new(c.view()),
                Box::new(a.view()),
                opt_stmt_view(*b),
            ),
            StmtKind::Unless(c, b) => StmtKindView::Unless(Box::new(c.view()), Box::new(b.view())),
            StmtKind::While(c, b) => StmtKindView::While(Box::new(c.view()), Box::new(b.view())),
            StmtKind::Until(c, b) => StmtKindView::Until(Box::new(c.view()), Box::new(b.view())),
            StmtKind::For(it, init, bound, step, body) => StmtKindView::For(
                (it.inner.view(), it.loc),
                Box::new(init.view()),
                opt_expr_view(*bound),
                opt_expr_view(*step),
                Box::new(body.view()),
            ),
            StmtKind::SwitchOn(c, b) => StmtKindView::SwitchOn(
                Box::new(c.view()),
                Box::new(b.view()),
            ),
            StmtKind::Case(e) => StmtKindView::Case(Box::new(e.view())),
            StmtKind::DefaultCase => StmtKindView::DefaultCase,
            StmtKind::Break => StmtKindView::Break,
            StmtKind::Next => StmtKindView::Next,
            StmtKind::Match(args, branches) => StmtKindView::Match(
                expr_views(args@),
                stmt_branch_views(branches@),
            ),
            StmtKind::Every(args, branches) => StmtKindView::Every(
                expr_views(args@),
                stmt_branch_views(branches@),
            ),
            StmtKind::Binding(pairs) => StmtKindView::Binding(binding_views(pairs@)),
        }
    }

    /// Structural equality.
    pub fn equals(&self, other: &StmtKind) -> (r: bool)
        ensures
            r == (bare_stmt_kind(self.view()) == bare_stmt_kind(other.view())),
        decreases self,
    {
        match (self, other) {
            (StmtKind::Nop, StmtKind::Nop) => true,
            (StmtKind::Expr(a), StmtKind::Expr(b)) => a.equals(b),
            (StmtKind::Block(a), StmtKind::Block(b)) => stmts_equal(a, b),
            (StmtKind::ResultIs(a), StmtKind::ResultIs(b)) => a.equals(b),
            (StmtKind::Return, StmtKind::Return) => true,
            (StmtKind::If(c1, a1, b1), StmtKind::If(c2, a2, b2)) => c1.equals(c2) && a1.equals(a2)
                && opt_stmts_equal(b1, b2),
            (StmtKind::Unless(c1, b1), StmtKind::Unless(c2, b2)) => c1.equals(c2) && b1.equals(b2),
            (StmtKind::While(c1, b1), StmtKind::While(c2, b2)) => c1.equals(c2) && b1.equals(b2),
            (StmtKind::Until(c1, b1), StmtKind::Until(c2, b2)) => c1.equals(c2) && b1.equals(b2),
            (StmtKind::For(i1, n1, l1, s1, b1), StmtKind::For(i2, n2, l2, s2, b2)) => i1.inner.equals(
                &i2.inner,
            ) && n1.equals(n2) && opt_exprs_equal(l1, l2) && opt_exprs_equal(s1, s2) && b1.equals(
                b2,
            ),
            (StmtKind::SwitchOn(c1, b1), StmtKind::SwitchOn(c2, b2)) => c1.equals(c2) && b1.equals(
                b2,
            ),
            (StmtKind::Case(a), StmtKind::Case(b)) => a.equals(b),
            (StmtKind::DefaultCase, StmtKind::DefaultCase) => true,
            (StmtKind::Break, StmtKind::Break) => true,
            (StmtKind::Next, StmtKind::Next) => true,
            (StmtKind::Match(a1, b1), StmtKind::Match(a2, b2)) => exprs_equal(a1, a2)
                && stmt_branches_equal(b1, b2),
            (StmtKind::Every(a1, b1), StmtKind::Every(a2, b2)) => exprs_equal(a1, a2)
                && stmt_branches_equal(b1, b2),
            (StmtKind::Binding(a), StmtKind::Binding(b)) => bindings_equal(a, b),
            _ => false,
        }
    }
}

pub fn stmts_equal(a: &Vec<Stmt>, b: &Vec<Stmt>) -> (r: bool)
    ensures
        r == (bare_stmts(stmt_views(a@)) == bare_stmts(stmt_views(b@))),
    decreases a,
{
    if a.len() != b.len() {
        assert(bare_stmts(stmt_views(a@)).len() != bare_stmts(stmt_views(b@)).len());
        return false;
    }
    let mut i: usize = 0;
    while i < a.len()
        invariant
            i <= a.len(),
            a.len() == b.len(),
            forall|j: int| 0 <= j < i ==> bare_stmt(a@[j].view()) == bare_stmt(b@[j].view()),
        decreases a.len() - i,
    {
        if !a[i].equals(&b[i]) {
            assert(bare_stmts(stmt_views(a@))[i as int] != bare_stmts(stmt_views(b@))[i as int]);
            return false;
        }
        i += 1;
    }
    assert(bare_stmts(stmt_views(a@)) =~= bare_stmts(stmt_views(b@)));
    true
}

pub fn stmt_branches_equal(
    a: &Vec<(Vec<Located<Pattern>>, Box<Stmt>)>,
    b: &Vec<(Vec<Located<Pattern>>, Box<Stmt>)>,
) -> (r: bool)
    ensures
        r == (bare_stmt_branches(stmt_branch_views(a@)) == bare_stmt_branches(stmt_branch_views(b@))),
    decreases a,
{
    if a.len() != b.len() {
        assert(bare_stmt_branches(stmt_branch_views(a@)).len() != bare_stmt_branches(stmt_branch_views(b@)).len());
        return false;
    }
    let mut i: usize = 0;
    while i < a.len()
        invariant
            i <= a.len(),
            a.len() == b.len(),
            forall|j: int|
                0 <= j < i ==> bare_patterns(pattern_views(a@[j].0@)) == bare_patterns(
                    pattern_views(b@[j].0@),
                ) && bare_stmt(a@[j].1.view()) == bare_stmt(b@[j].1.view()),
        decreases a.len() - i,
    {
        if !patterns_equal(&a[i].0, &b[i].0) || !a[i].1.equals(&b[i].1) {
            assert(bare_stmt_branches(stmt_branch_views(a@))[i as int] != bare_stmt_branches(stmt_branch_views(b@))[i as int]);
            return false;
        }
        i += 1;
    }
    assert(bare_stmt_branches(stmt_branch_views(a@)) =~= bare_stmt_branches(stmt_branch_views(b@)));
    true
}

pub fn bindings_equal(a: &Vec<(Located<Pattern>, Expr)>, b: &Vec<(Located<Pattern>, Expr)>) -> (r:
    bool)
    ensures
        r == (bare_bindings(binding_views(a@)) == bare_bindings(binding_views(b@))),
    decreases a,
{
    if a.len() != b.len() {
        assert(bare_bindings(binding_views(a@)).len() != bare_bindings(binding_views(b@)).len());
        return false;
    }
    let mut i: usize = 0;
    while i < a.len()
        invariant
            i <= a.len(),
            a.len() == b.len(),
            forall|j: int|
                0 <= j < i ==> bare_pattern(a@[j].0.inner.view()) == bare_pattern(
                    b@[j].0.inner.view(),
                ) && bare_expr(a@[j].1.view()) == bare_expr(b@[j].1.view()),
        decreases a.len() - i,
    {
        if !a[i].0.inner.equals(&b[i].0.inner) || !a[i].1.equals(&b[i].1) {
            assert(bare_bindings(binding_views(a@))[i as int] != bare_bindings(binding_views(b@))[i as int]);
            return false;
        }
        i += 1;
    }
    assert(bare_bindings(binding_views(a@)) =~= bare_bindings(binding_views(b@)));
    true
}

impl Stmt {
    pub open spec fn view(&self) -> StmtView
        decreases self,
    {
        StmtView { loc: self.loc, kind: self.kind.view() }
    }

    pub fn new(loc: Location, kind: StmtKind) -> (s: Self)
        ensures
            s == (Stmt { loc, kind }),
            s.view() == (StmtView { loc, kind: kind.view() }),
    {
        Stmt { loc, kind }
    }

    /// The statement `if cond then [else other]` at `loc`.
    pub fn conditional(loc: Location, cond: Expr, then: Stmt, other: Option<Stmt>) -> (s: Self)
        ensures
            s.loc == loc,
            s.kind is If,
            s.view() == (StmtView {
                loc,
                kind: StmtKindView::If(
                    Box::new(cond.view()),
                    Box::new(then.view()),
                    match other {
                        Some(x) => Some(Box::new(x.view())),
                        None => None,
                    },
                ),
            }),
    {
        let other = match other {
            Some(x) => Some(Box::new(x)),
            None => None,
        };
        assert(opt_stmt_view(other) == (match other {
            Some(x) => Some(Box::new(x.view())),
            None => None::<Box<StmtView>>,
        }));
        let kind = StmtKind::If(Box::new(cond), Box::new(then), other);
        assert(kind.view() == StmtKindView::If(
            Box::new(cond.view()),
            Box::new(then.view()),
            opt_stmt_view(other),
        ));
        Stmt::new(loc, kind)
    }

    /// The statement `for iter = init [to bound] [by step] do body` at
    /// `loc`.
    pub fn counted(
        loc: Location,
        iter: Located<Pattern>,
        init: Expr,
        bound: Option<Box<Expr>>,
        step: Option<Box<Expr>>,
        body: Stmt,
    ) -> (s: Self)
        ensures
            s.loc == loc,
            s.kind is For,
            s.view() == (StmtView {
                loc,
                kind: StmtKindView::For(
                    (iter.inner.view(), iter.loc),
                    Box::new(init.view()),
                    opt_expr_view(bound),
                    opt_expr_view(step),
                    Box::new(body.view()),
                ),
            }),
    {
        let kind = StmtKind::For(iter, Box::new(init), bound, step, Box::new(body));
        assert(kind.view() == StmtKindView::For(
            (iter.inner.view(), iter.loc),
            Box::new(init.view()),
            opt_expr_view(bound),
            opt_expr_view(step),
            Box::new(body.view()),
        ));
        Stmt::new(loc, kind)
    }

    pub fn location(&self) -> (r: &Location)
        ensures
            *r == self.loc,
    {
        &self.loc
    }

    pub fn kind(&self) -> (r: &StmtKind)
        ensures
            *r == self.kind,
    {
        &self.kind
    }

    pub fn kind_mut(&mut self) -> (r: &mut StmtKind)
        ensures
            *r == old(self).kind,
            *final(self) == (Stmt { loc: old(self).loc, kind: *final(r) }),
    {
        &mut self.kind
    }

    /// Structural equality.
    pub fn equals(&self, other: &Stmt) -> (r: bool)
        ensures
            r == (bare_stmt(self.view()) == bare_stmt(other.view())),
        decreases self,
    {
        self.loc == other.loc && self.kind.equals(&other.kind)
    }
}

} // verus!
