//! Patterns.

use vstd::prelude::*;
use crate::source_file::{Located, Location, WithLocation};
use crate::ast::expr::{Expr, ExprView};
use crate::ast::shape::{bare_pattern, bare_patterns, bare_term};

verus! {

#[derive(Debug)]
pub enum Pattern {
    /// `?`
    Any,
    /// An identifier, which binds what it matches.
    Query(String),
    /// An expression, a range, or a comparison against an expression.
    Term(PatternTerm),
    /// `A | B`
    Or(Box<Located<Pattern>>, Box<Located<Pattern>>),
    /// `A & B`
    And(Box<Located<Pattern>>, Box<Located<Pattern>>),
    /// `Foo(Bar, Baz, ...)`
    Variant(String, Vec<Located<Pattern>>),
    /// `[A, B, C, ...]`
    List(Vec<Located<Pattern>>),
    /// `..`
    Remaining,
}

#[derive(Debug)]
pub enum PatternTerm {
    Basic(Expr),
    Lt(Expr),
    Le(Expr),
    Gt(Expr),
    Ge(Expr),
    Ne(Expr),
    Eq(Expr),
    Range(Expr, Expr),
}

/// The mathematical value of a pattern. A nested pattern stands in it with
/// its place.
pub ghost enum PatternView {
    Any,
    Query(Seq<char>),
    Term(PatternTermView),
    Or(Box<(PatternView, Location)>, Box<(PatternView, Location)>),
    And(Box<(PatternView, Location)>, Box<(PatternView, Location)>),
    Variant(Seq<char>, Seq<(PatternView, Location)>),
    List(Seq<(PatternView, Location)>),
    Remaining,
}

pub ghost enum PatternTermView {
    Basic(ExprView),
    Lt(ExprView),
    Le(ExprView),
    Gt(ExprView),
    Ge(ExprView),
    Ne(ExprView),
    Eq(ExprView),
    Range(ExprView, ExprView),
}

/// The patterns of a list, each with its place.
pub open spec fn pattern_views(s: Seq<Located<Pattern>>) -> Seq<(PatternView, Location)>
    decreases s,
{
    Seq::new(
        s.len(),
        |i: int|
            if 0 <= i < s.len() {
                (s[i].inner.view(), s[i].loc)
            } else {
                arbitrary()
            },
    )
}

/// The views of a list with one more pattern.
pub proof fn lemma_pattern_views_push(s: Seq<Located<Pattern>>, p: Located<Pattern>)
    ensures
        pattern_views(s.push(p)) == pattern_views(s).push((p.inner.view(), p.loc)),
{
    assert(pattern_views(s.push(p)) =~= pattern_views(s).push((p.inner.view(), p.loc)));
}

/// The comparison that opens a pattern term.
#[derive(Clone, Copy, Debug, PartialEq, Eq, Structural)]
pub enum TermOp {
    Lt,
    Le,
    Gt,
    Ge,
    Ne,
    Eq,
}

impl TermOp {
    pub open spec fn apply(self, e: Expr) -> PatternTerm {
        match self {
            TermOp::Lt => PatternTerm::Lt(e),
            TermOp::Le => PatternTerm::Le(e),
            TermOp::Gt => PatternTerm::Gt(e),
            TermOp::Ge => PatternTerm::Ge(e),
            TermOp::Ne => PatternTerm::Ne(e),
            TermOp::Eq => PatternTerm::Eq(e),
        }
    }

    pub fn build(self, e: Expr) -> (r: PatternTerm)
        ensures
            r == self.apply(e),
            r.view() == crate::grammar::pattern::compared(self, e.view()),
    {
        match self {
            TermOp::Lt => PatternTerm::Lt(e),
            TermOp::Le => PatternTerm::Le(e),
            TermOp::Gt => PatternTerm::Gt(e),
            TermOp::Ge => PatternTerm::Ge(e),
            TermOp::Ne => PatternTerm::Ne(e),
            TermOp::Eq => PatternTerm::Eq(e),
        }
    }
}

impl PatternTerm {
    pub open spec fn view(&self) -> PatternTermView
        decreases self,
    {
        match self {
            PatternTerm::Basic(e) => PatternTermView::Basic(e.view()),
            PatternTerm::Lt(e) => PatternTermView::Lt(e.view()),
            PatternTerm::Le(e) => PatternTermView::Le(e.view()),
            PatternTerm::Gt(e) => PatternTermView::Gt(e.view()),
            PatternTerm::Ge(e) => PatternTermView::Ge(e.view()),
            PatternTerm::Ne(e) => PatternTermView::Ne(e.view()),
            PatternTerm::Eq(e) => PatternTermView::Eq(e.view()),
            PatternTerm::Range(a, b) => PatternTermView::Range(a.view(), b.view()),
        }
    }

    /// Structural equality.
    pub fn equals(&self, other: &PatternTerm) -> (r: bool)
        ensures
            r == (bare_term(self.view()) == bare_term(other.view())),
        decreases self,
    {
        match (self, other) {
            (PatternTerm::Basic(a), PatternTerm::Basic(b)) => a.equals(b),
            (PatternTerm::Lt(a), PatternTerm::Lt(b)) => a.equals(b),
            (PatternTerm::Le(a), PatternTerm::Le(b)) => a.equals(b),
            (PatternTerm::Gt(a), PatternTerm::Gt(b)) => a.equals(b),
            (PatternTerm::Ge(a), PatternTerm::Ge(b)) => a.equals(b),
            (PatternTerm::Ne(a), PatternTerm::Ne(b)) => a.equals(b),
            (PatternTerm::Eq(a), PatternTerm::Eq(b)) => a.equals(b),
            (PatternTerm::Range(a1, b1), PatternTerm::Range(a2, b2)) => a1.equals(a2) && b1.equals(
                b2,
            ),
            _ => false,
        }
    }
}

impl Pattern {
    pub open spec fn view(&self) -> PatternView
        decreases self,
    {
        match self {
            Pattern::Any => PatternView::Any,
            Pattern::Query(s) => PatternView::Query(s@),
            Pattern::Term(t) => PatternView::Term(t.view()),
            Pattern::Or(a, b) => PatternView::Or(
                Box::new((a.inner.view(), a.loc)),
                Box::new((b.inner.view(), b.loc)),
            ),
            Pattern::And(a, b) => PatternView::And(
                Box::new((a.inner.view(), a.loc)),
                Box::new((b.inner.view(), b.loc)),
            ),
            Pattern::Variant(name, args) => PatternView::Variant(name@, pattern_views(args@)),
            Pattern::List(args) => PatternView::List(pattern_views(args@)),
            Pattern::Remaining => PatternView::Remaining,
        }
    }

    /// Structural equality; where a nested pattern stands does not count.
    pub fn equals(&self, other: &Pattern) -> (r: bool)
        ensures
            r == (bare_pattern(self.view()) == bare_pattern(other.view())),
        decreases self,
    {
        match (self, other) {
            (Pattern::Any, Pattern::Any) => true,
            (Pattern::Query(a), Pattern::Query(b)) => *a == *b,
            (Pattern::Term(a), Pattern::Term(b)) => a.equals(b),
            (Pattern::Or(a1, b1), Pattern::Or(a2, b2)) => a1.inner.equals(&a2.inner)
                && b1.inner.equals(&b2.inner),
            (Pattern::And(a1, b1), Pattern::And(a2, b2)) => a1.inner.equals(&a2.inner)
                && b1.inner.equals(&b2.inner),
            (Pattern::Variant(n1, a1), Pattern::Variant(n2, a2)) => *n1 == *n2 && patterns_equal(
                a1,
                a2,
            ),
            (Pattern::List(a), Pattern::List(b)) => patterns_equal(a, b),
            (Pattern::Remaining, Pattern::Remaining) => true,
            _ => false,
        }
    }
}

pub fn patterns_equal(a: &Vec<Located<Pattern>>, b: &Vec<Located<Pattern>>) -> (r: bool)
    ensures
        r == (bare_patterns(pattern_views(a@)) == bare_patterns(pattern_views(b@))),
    decreases a,
{
    if a.len() != b.len() {
        assert(bare_patterns(pattern_views(a@)).len() != bare_patterns(pattern_views(b@)).len());
        return false;
    }
    let mut i: usize = 0;
    while i < a.len()
        invariant
            i <= a.len(),
            a.len() == b.len(),
            forall|j: int|
                0 <= j < i ==> bare_pattern(a@[j].inner.view()) == bare_pattern(b@[j].inner.view()),
        decreases a.len() - i,
    {
        if !a[i].inner.equals(&b[i].inner) {
            assert(bare_patterns(pattern_views(a@))[i as int] != bare_patterns(pattern_views(b@))[i as int]);
            return false;
        }
        i += 1;
    }
    assert(bare_patterns(pattern_views(a@)) =~= bare_patterns(pattern_views(b@)));
    true
}

impl WithLocation for Pattern {
    fn with_location(self, loc: Location) -> (r: Located<Self>) {
        Located::with_location(self, loc)
    }
}

} // verus!
