//! Expressions.

use vstd::prelude::*;
use crate::ast::shape::{bare_expr, bare_expr_branches, bare_expr_kind, bare_exprs, bare_patterns};
use crate::text::opt_text;
use crate::source_file::{Located, Location};
use crate::ast::types::TypeIndex;
use crate::ast::stmt::{Stmt, StmtView};
use crate::ast::pattern::{Pattern, PatternView, patterns_equal, pattern_views};

verus! {

pub type AtomIndex = u32;

/// An expression: where it stands, its type once known, and what it is.
#[derive(Debug)]
pub struct Expr {
    pub loc: Location,
    pub typ: Option<TypeIndex>,
    pub kind: ExprKind,
}

#[derive(Debug)]
pub enum ExprKind {
    Ident(String),
    Atom(AtomIndex),
    IntLit(u64),
    /// A floating-point literal, kept as written: mantissa and exponent.
    FloatLit(String, Option<String>),
    CharLit(char),
    StringLit(String),
    True,
    False,
    Add(Box<Expr>, Box<Expr>),
    Sub(Box<Expr>, Box<Expr>),
    Mul(Box<Expr>, Box<Expr>),
    Div(Box<Expr>, Box<Expr>),
    Mod(Box<Expr>, Box<Expr>),
    And(Box<Expr>, Box<Expr>),
    Or(Box<Expr>, Box<Expr>),
    XOr(Box<Expr>, Box<Expr>),
    Eq(Box<Expr>, Box<Expr>),
    Ne(Box<Expr>, Box<Expr>),
    Gt(Box<Expr>, Box<Expr>),
    Ge(Box<Expr>, Box<Expr>),
    Lt(Box<Expr>, Box<Expr>),
    Le(Box<Expr>, Box<Expr>),
    LShift(Box<Expr>, Box<Expr>),
    RShift(Box<Expr>, Box<Expr>),
    Abs(Box<Expr>),
    Not(Box<Expr>),
    Ref(Box<Expr>),
    Deref(Box<Expr>),
    Cast(Box<Expr>),
    ImplicitCast(Box<Expr>),
    ValOf(Box<Stmt>),
    FuncCall(Box<Expr>, Vec<Expr>),
    Conditional(Box<Expr>, Box<Expr>, Box<Expr>),
    Match(Vec<Expr>, Vec<(Vec<Located<Pattern>>, Box<Expr>)>),
    Every(Vec<Expr>, Vec<(Vec<Located<Pattern>>, Box<Expr>)>),
}

/// The mathematical value of an expression: texts as character sequences,
/// lists as sequences. Two expressions are structurally equal when their
/// views are equal.
pub ghost struct ExprView {
    pub loc: Location,
    pub typ: Option<TypeIndex>,
    pub kind: ExprKindView,
}

pub ghost enum ExprKindView {
    Ident(Seq<char>),
    Atom(AtomIndex),
    IntLit(u64),
    FloatLit(Seq<char>, Option<Seq<char>>),
    CharLit(char),
    StringLit(Seq<char>),
    True,
    False,
    Add(Box<ExprView>, Box<ExprView>),
    Sub(Box<ExprView>, Box<ExprView>),
    Mul(Box<ExprView>, Box<ExprView>),
    Div(Box<ExprView>, Box<ExprView>),
    Mod(Box<ExprView>, Box<ExprView>),
    And(Box<ExprView>, Box<ExprView>),
    Or(Box<ExprView>, Box<ExprView>),
    XOr(Box<ExprView>, Box<ExprView>),
    Eq(Box<ExprView>, Box<ExprView>),
    Ne(Box<ExprView>, Box<ExprView>),
    Gt(Box<ExprView>, Box<ExprView>),
    Ge(Box<ExprView>, Box<ExprView>),
    Lt(Box<ExprView>, Box<ExprView>),
    Le(Box<ExprView>, Box<ExprView>),
    LShift(Box<ExprView>, Box<ExprView>),
    RShift(Box<ExprView>, Box<ExprView>),
    Abs(Box<ExprView>),
    Not(Box<ExprView>),
    Ref(Box<ExprView>),
    Deref(Box<ExprView>),
    Cast(Box<ExprView>),
    ImplicitCast(Box<ExprView>),
    ValOf(Box<StmtView>),
    FuncCall(Box<ExprView>, Seq<ExprView>),
    Conditional(Box<ExprView>, Box<ExprView>, Box<ExprView>),
    Match(Seq<ExprView>, Seq<(Seq<(PatternView, Location)>, ExprView)>),
    Every(Seq<ExprView>, Seq<(Seq<(PatternView, Location)>, ExprView)>),
}

/// The views of a list of expressions.
pub open spec fn expr_views(s: Seq<Expr>) -> Seq<ExprView>
    decreases s,
{
    Seq::new(
        s.len(),
        |i: int|
            if 0 <= i < s.len() {
                s[i].view()
            } else {
                arbitrary()
            },
    )
}

/// The views of the branches of a `match` or `every` expression.
pub open spec fn expr_branch_views(s: Seq<(Vec<Located<Pattern>>, Box<Expr>)>) -> Seq<
    (Seq<(PatternView, Location)>, ExprView),
>
    decreases s,
{
    Seq::new(
        s.len(),
        |i: int|
            if 0 <= i < s.len() {
                (pattern_views(s[i].0@), s[i].1.view())
            } else {
                arbitrary()
            },
    )
}

/// The views of a list with one more expression.
pub proof fn lemma_expr_views_push(s: Seq<Expr>, e: Expr)
    ensures
        expr_views(s.push(e)) == expr_views(s).push(e.view()),
{
    assert(expr_views(s.push(e)) =~= expr_views(s).push(e.view()));
}

/// The views of a list with one more branch.
pub proof fn lemma_expr_branch_views_push(
    s: Seq<(Vec<Located<Pattern>>, Box<Expr>)>,
    b: (Vec<Located<Pattern>>, Box<Expr>),
)
    ensures
        expr_branch_views(s.push(b)) == expr_branch_views(s).push(
            (pattern_views(b.0@), b.1.view()),
        ),
{
    assert(expr_branch_views(s.push(b)) =~= expr_branch_views(s).push(
        (pattern_views(b.0@), b.1.view()),
    ));
}

/// Whether two optional texts are the same.
pub fn opt_text_equal(a: &Option<String>, b: &Option<String>) -> (r: bool)
    ensures
        r == (opt_text(*a) == opt_text(*b)),
{
    match (a, b) {
        (Some(x), Some(y)) => *x == *y,
        (None, None) => true,
        _ => false,
    }
}

pub fn opt_index_equal(a: &Option<u32>, b: &Option<u32>) -> (r: bool)
    ensures
        r == (*a == *b),
{
    match (a, b) {
        (Some(x), Some(y)) => *x == *y,
        (None, None) => true,
        _ => false,
    }
}

impl ExprKind {
    pub open spec fn view(&self) -> ExprKindView
        decreases self,
    {
        match self {
            ExprKind::Ident(s) => ExprKindView::Ident(s@),
            ExprKind::Atom(a) => ExprKindView::Atom(*a),
            ExprKind::IntLit(v) => ExprKindView::IntLit(*v),
            ExprKind::FloatLit(m, e) => ExprKindView::FloatLit(m@, opt_text(*e)),
            ExprKind::CharLit(c) => ExprKindView::CharLit(*c),
            ExprKind::StringLit(s) => ExprKindView::StringLit(s@),
            ExprKind::True => ExprKindView::True,
            ExprKind::False => ExprKindView::False,
            ExprKind::Add(l, r) => ExprKindView::Add(Box::new(l.view()), Box::new(r.view())),
            ExprKind::Sub(l, r) => ExprKindView::Sub(Box::new(l.view()), Box::new(r.view())),
            ExprKind::Mul(l, r) => ExprKindView::Mul(Box::new(l.view()), Box::new(r.view())),
            ExprKind::Div(l, r) => ExprKindView::Div(Box::new(l.view()), Box::new(r.view())),
            ExprKind::Mod(l, r) => ExprKindView::Mod(Box::new(l.view()), Box::new(r.view())),
            ExprKind::And(l, r) => ExprKindView::And(Box::new(l.view()), Box::new(r.view())),
            ExprKind::Or(l, r) => ExprKindView::Or(Box::new(l.view()), Box::new(r.view())),
            ExprKind::XOr(l, r) => ExprKindView::XOr(Box::new(l.view()), Box::new(r.view())),
            ExprKind::Eq(l, r) => ExprKindView::Eq(Box::new(l.view()), Box::new(r.view())),
            ExprKind::Ne(l, r) => ExprKindView::Ne(Box::new(l.view()), Box::new(r.view())),
            ExprKind::Gt(l, r) => ExprKindView::Gt(Box::new(l.view()), Box::new(r.view())),
            ExprKind::Ge(l, r) => ExprKindView::Ge(Box::new(l.view()), Box::new(r.view())),
            ExprKind::Lt(l, r) => ExprKindView::Lt(Box::new(l.view()), Box::new(r.view())),
            ExprKind::Le(l, r) => ExprKindView::Le(Box::new(l.view()), Box::new(r.view())),
            ExprKind::LShift(l, r) => ExprKindView::LShift(Box::new(l.view()), Box::new(r.view())),
            ExprKind::RShift(l, r) => ExprKindView::RShift(Box::new(l.view()), Box::new(r.view())),
            ExprKind::Abs(e) => ExprKindView::Abs(Box::new(e.view())),
            ExprKind::Not(e) => ExprKindView::Not(Box::new(e.view())),
            ExprKind::Ref(e) => ExprKindView::Ref(Box::new(e.view())),
            ExprKind::Deref(e) => ExprKindView::Deref(Box::new(e.view())),
            ExprKind::Cast(e) => ExprKindView::Cast(Box::new(e.view())),
            ExprKind::ImplicitCast(e) => ExprKindView::ImplicitCast(Box::new(e.view())),
            ExprKind::ValOf(s) => ExprKindView::ValOf(Box::new(s.view())),
            ExprKind::FuncCall(c, args) => ExprKindView::FuncCall(
                Box::new(c.view()),
                expr_views(args@),
            ),
            ExprKind::Conditional(c, a, b) => ExprKindView::Conditional(
                Box::new(c.view()),
                Box::new(a.view()),
                Box::new(b.view()),
            ),
            ExprKind::Match(args, branches) => ExprKindView::Match(
                expr_views(args@),
                expr_branch_views(branches@),
            ),
            ExprKind::Every(args, branches) => ExprKindView::Every(
                expr_views(args@),
                expr_branch_views(branches@),
            ),
        }
    }

    /// Structural equality; where a pattern stands does not count.
    pub fn equals(&self, other: &ExprKind) -> (r: bool)
        ensures
            r == (bare_expr_kind(self.view()) == bare_expr_kind(other.view())),
        decreases self,
    {
        match (self, other) {
            (ExprKind::Ident(a), ExprKind::Ident(b)) => *a == *b,
            (ExprKind::Atom(a), ExprKind::Atom(b)) => *a == *b,
            (ExprKind::IntLit(a), ExprKind::IntLit(b)) => *a == *b,
            (ExprKind::FloatLit(a, x), ExprKind::FloatLit(b, y)) => *a == *b && opt_text_equal(
                x,
                y,
            ),
            (ExprKind::CharLit(a), ExprKind::CharLit(b)) => *a == *b,
            (ExprKind::StringLit(a), ExprKind::StringLit(b)) => *a == *b,
            (ExprKind::True, ExprKind::True) => true,
            (ExprKind::False, ExprKind::False) => true,
            (ExprKind::Add(l1, r1), ExprKind::Add(l2, r2)) => l1.equals(l2) && r1.equals(r2),
            (ExprKind::Sub(l1, r1), ExprKind::Sub(l2, r2)) => l1.equals(l2) && r1.equals(r2),
            (ExprKind::Mul(l1, r1), ExprKind::Mul(l2, r2)) => l1.equals(l2) && r1.equals(r2),
            (ExprKind::Div(l1, r1), ExprKind::Div(l2, r2)) => l1.equals(l2) && r1.equals(r2),
            (ExprKind::Mod(l1, r1), ExprKind::Mod(l2, r2)) => l1.equals(l2) && r1.equals(r2),
            (ExprKind::And(l1, r1), ExprKind::And(l2, r2)) => l1.equals(l2) && r1.equals(r2),
            (ExprKind::Or(l1, r1), ExprKind::Or(l2, r2)) => l1.equals(l2) && r1.equals(r2),
            (ExprKind::XOr(l1, r1), ExprKind::XOr(l2, r2)) => l1.equals(l2) && r1.equals(r2),
            (ExprKind::Eq(l1, r1), ExprKind::Eq(l2, r2)) => l1.equals(l2) && r1.equals(r2),
            (ExprKind::Ne(l1, r1), ExprKind::Ne(l2, r2)) => l1.equals(l2) && r1.equals(r2),
            (ExprKind::Gt(l1, r1), ExprKind::Gt(l2, r2)) => l1.equals(l2) && r1.equals(r2),
            (ExprKind::Ge(l1, r1), ExprKind::Ge(l2, r2)) => l1.equals(l2) && r1.equals(r2),
            (ExprKind::Lt(l1, r1), ExprKind::Lt(l2, r2)) => l1.equals(l2) && r1.equals(r2),
            (ExprKind::Le(l1, r1), ExprKind::Le(l2, r2)) => l1.equals(l2) && r1.equals(r2),
            (ExprKind::LShift(l1, r1), ExprKind::LShift(l2, r2)) => l1.equals(l2) && r1.equals(r2),
            (ExprKind::RShift(l1, r1), ExprKind::RShift(l2, r2)) => l1.equals(l2) && r1.equals(r2),
            (ExprKind::Abs(a), ExprKind::Abs(b)) => a.equals(b),
            (ExprKind::Not(a), ExprKind::Not(b)) => a.equals(b),
            (ExprKind::Ref(a), ExprKind::Ref(b)) => a.equals(b),
            (ExprKind::Deref(a), ExprKind::Deref(b)) => a.equals(b),
            (ExprKind::Cast(a), ExprKind::Cast(b)) => a.equals(b),
            (ExprKind::ImplicitCast(a), ExprKind::ImplicitCast(b)) => a.equals(b),
            (ExprKind::ValOf(a), ExprKind::ValOf(b)) => a.equals(b),
            (ExprKind::FuncCall(c1, a1), ExprKind::FuncCall(c2, a2)) => c1.equals(c2)
                && exprs_equal(a1, a2),
            (ExprKind::Conditional(c1, a1, b1), ExprKind::Conditional(c2, a2, b2)) => c1.equals(c2)
                && a1.equals(a2) && b1.equals(b2),
            (ExprKind::Match(a1, b1), ExprKind::Match(a2, b2)) => exprs_equal(a1, a2)
                && expr_branches_equal(b1, b2),
            (ExprKind::Every(a1, b1), ExprKind::Every(a2, b2)) => exprs_equal(a1, a2)
                && expr_branches_equal(b1, b2),
            _ => false,
        }
    }
}

/// Structural equality of two lists of expressions.
pub fn exprs_equal(a: &Vec<Expr>, b: &Vec<Expr>) -> (r: bool)
    ensures
        r == (bare_exprs(expr_views(a@)) == bare_exprs(expr_views(b@))),
    decreases a,
{
    if a.len() != b.len() {
        assert(bare_exprs(expr_views(a@)).len() != bare_exprs(expr_views(b@)).len());
        return false;
    }
    let mut i: usize = 0;
    while i < a.len()
        invariant
            i <= a.len(),
            a.len() == b.len(),
            forall|j: int| 0 <= j < i ==> bare_expr(a@[j].view()) == bare_expr(b@[j].view()),
        decreases a.len() - i,
    {
        if !a[i].equals(&b[i]) {
            assert(bare_exprs(expr_views(a@))[i as int] != bare_exprs(expr_views(b@))[i as int]);
            return false;
        }
        i += 1;
    }
    assert(bare_exprs(expr_views(a@)) =~= bare_exprs(expr_views(b@)));
    true
}

/// Structural equality of the branches of two `match` expressions.
pub fn expr_branches_equal(
    a: &Vec<(Vec<Located<Pattern>>, Box<Expr>)>,
    b: &Vec<(Vec<Located<Pattern>>, Box<Expr>)>,
) -> (r: bool)
    ensures
        r == (bare_expr_branches(expr_branch_views(a@)) == bare_expr_branches(expr_branch_views(b@))),
    decreases a,
{
    if a.len() != b.len() {
        assert(bare_expr_branches(expr_branch_views(a@)).len() != bare_expr_branches(expr_branch_views(b@)).len());
        return false;
    }
    let mut i: usize = 0;
    while i < a.len()
        invariant
            i <= a.len(),
            a.len() == b.len(),
            forall|j: int|
                0 <= j < i ==> bare_patterns(pattern_views(a@[j].0@)) == bare_patterns(
                    pattern_views(b@[j].0@),
                ) && bare_expr(a@[j].1.view()) == bare_expr(b@[j].1.view()),
        decreases a.len() - i,
    {
        if !patterns_equal(&a[i].0, &b[i].0) || !a[i].1.equals(&b[i].1) {
            assert(bare_expr_branches(expr_branch_views(a@))[i as int] != bare_expr_branches(expr_branch_views(b@))[i as int]);
            return false;
        }
        i += 1;
    }
    assert(bare_expr_branches(expr_branch_views(a@)) =~= bare_expr_branches(expr_branch_views(b@)));
    true
}

/// The binary operators.
#[derive(Clone, Copy, Debug, PartialEq, Eq, Structural)]
pub enum BinaryOp {
    Add,
    Sub,
    Mul,
    Div,
    Mod,
    And,
    Or,
    XOr,
    Eq,
    Ne,
    Gt,
    Ge,
    Lt,
    Le,
    LShift,
    RShift,
}

impl BinaryOp {
    /// The comparison operators, whose result is a truth value.
    pub open spec fn is_comparison(self) -> bool {
        self is Eq || self is Ne || self is Gt || self is Ge || self is Lt || self is Le
    }

    pub fn comparison(&self) -> (r: bool)
        ensures
            r == self.is_comparison(),
    {
        match self {
            BinaryOp::Eq | BinaryOp::Ne | BinaryOp::Gt | BinaryOp::Ge | BinaryOp::Lt
            | BinaryOp::Le => true,
            _ => false,
        }
    }

    /// The expression kind of this operator applied to `left` and `right`.
    pub open spec fn apply(self, left: Box<Expr>, right: Box<Expr>) -> ExprKind {
        match self {
            BinaryOp::Add => ExprKind::Add(left, right),
            BinaryOp::Sub => ExprKind::Sub(left, right),
            BinaryOp::Mul => ExprKind::Mul(left, right),
            BinaryOp::Div => ExprKind::Div(left, right),
            BinaryOp::Mod => ExprKind::Mod(left, right),
            BinaryOp::And => ExprKind::And(left, right),
            BinaryOp::Or => ExprKind::Or(left, right),
            BinaryOp::XOr => ExprKind::XOr(left, right),
            BinaryOp::Eq => ExprKind::Eq(left, right),
            BinaryOp::Ne => ExprKind::Ne(left, right),
            BinaryOp::Gt => ExprKind::Gt(left, right),
            BinaryOp::Ge => ExprKind::Ge(left, right),
            BinaryOp::Lt => ExprKind::Lt(left, right),
            BinaryOp::Le => ExprKind::Le(left, right),
            BinaryOp::LShift => ExprKind::LShift(left, right),
            BinaryOp::RShift => ExprKind::RShift(left, right),
        }
    }

    pub fn build(self, left: Box<Expr>, right: Box<Expr>) -> (r: ExprKind)
        ensures
            r == self.apply(left, right),
            r.view() == crate::grammar::expr::applied(self, left.view(), right.view()),
    {
        match self {
            BinaryOp::Add => ExprKind::Add(left, right),
            BinaryOp::Sub => ExprKind::Sub(left, right),
            BinaryOp::Mul => ExprKind::Mul(left, right),
            BinaryOp::Div => ExprKind::Div(left, right),
            BinaryOp::Mod => ExprKind::Mod(left, right),
            BinaryOp::And => ExprKind::And(left, right),
            BinaryOp::Or => ExprKind::Or(left, right),
            BinaryOp::XOr => ExprKind::XOr(left, right),
            BinaryOp::Eq => ExprKind::Eq(left, right),
            BinaryOp::Ne => ExprKind::Ne(left, right),
            BinaryOp::Gt => ExprKind::Gt(left, right),
            BinaryOp::Ge => ExprKind::Ge(left, right),
            BinaryOp::Lt => ExprKind::Lt(left, right),
            BinaryOp::Le => ExprKind::Le(left, right),
            BinaryOp::LShift => ExprKind::LShift(left, right),
            BinaryOp::RShift => ExprKind::RShift(left, right),
        }
    }
}

/// The prefix operators that keep their operand's type.
#[derive(Clone, Copy, Debug, PartialEq, Eq, Structural)]
pub enum UnaryOp {
    Abs,
    Not,
}

impl UnaryOp {
    pub open spec fn apply(self, operand: Box<Expr>) -> ExprKind {
        match self {
            UnaryOp::Abs => ExprKind::Abs(operand),
            UnaryOp::Not => ExprKind::Not(operand),
        }
    }

    pub fn build(self, operand: Box<Expr>) -> (r: ExprKind)
        ensures
            r == self.apply(operand),
            r.view() == crate::grammar::expr::prefixed(self, operand.view()),
    {
        match self {
            UnaryOp::Abs => ExprKind::Abs(operand),
            UnaryOp::Not => ExprKind::Not(operand),
        }
    }
}

/// The two pattern-matching constructs.
#[derive(Clone, Copy, Debug, PartialEq, Eq, Structural)]
pub enum MatchKind {
    Match,
    Every,
}

impl Expr {
    pub open spec fn view(&self) -> ExprView
        decreases self,
    {
        ExprView { loc: self.loc, typ: self.typ, kind: self.kind.view() }
    }

    pub fn new(loc: Location, typ: Option<TypeIndex>, kind: ExprKind) -> (e: Self)
        ensures
            e == (Expr { loc, typ, kind }),
            e.view() == (ExprView { loc, typ, kind: kind.view() }),
    {
        Expr { loc, typ, kind }
    }

    /// This expression under an implicit cast to `typ`.
    pub open spec fn cast_to(self, typ: TypeIndex) -> Expr {
        Expr { loc: self.loc, typ: Some(typ), kind: ExprKind::ImplicitCast(Box::new(self)) }
    }

    pub fn implicit_cast(self, typ: TypeIndex) -> (e: Self)
        ensures
            e == self.cast_to(typ),
            e.view() == crate::grammar::expr::cast_to(self.view(), typ),
    {
        let loc = self.loc;
        Expr { loc, typ: Some(typ), kind: ExprKind::ImplicitCast(Box::new(self)) }
    }

    /// This expression made to have the type `target`, where one is asked
    /// for: unchanged when it has that type already, else under an implicit
    /// cast to it.
    pub open spec fn coerced(self, target: Option<TypeIndex>) -> Expr {
        match target {
            Some(t) => if self.typ == Some(t) {
                self
            } else {
                self.cast_to(t)
            },
            None => self,
        }
    }

    pub fn coerce(self, target: Option<TypeIndex>) -> (e: Self)
        ensures
            e == self.coerced(target),
            e.view() == crate::grammar::expr::coerced(self.view(), target),
    {
        match target {
            Some(t) => {
                if opt_index_equal(&self.typ, &Some(t)) {
                    self
                } else {
                    self.implicit_cast(t)
                }
            },
            None => self,
        }
    }

    /// The node of a binary operator other than a comparison: the left
    /// operand's type decides, and the right operand is coerced to it.
    pub open spec fn binary_node(op: BinaryOp, loc: Location, left: Expr, right: Expr) -> Expr {
        Expr {
            loc,
            typ: left.typ,
            kind: op.apply(Box::new(left), Box::new(right.coerced(left.typ))),
        }
    }

    pub fn binary(op: BinaryOp, loc: Location, left: Expr, right: Expr) -> (e: Self)
        ensures
            e == Expr::binary_node(op, loc, left, right),
            e.view() == crate::grammar::expr::binary_node(op, loc, left.view(), right.view()),
    {
        let typ = left.typ;
        let right = right.coerce(typ);
        Expr { loc, typ, kind: op.build(Box::new(left), Box::new(right)) }
    }

    /// The node of a comparison: operands as for any binary operator, the
    /// result of type `bool_typ`.
    pub open spec fn comparison_node(
        op: BinaryOp,
        loc: Location,
        left: Expr,
        right: Expr,
        bool_typ: TypeIndex,
    ) -> Expr {
        Expr { typ: Some(bool_typ), ..Expr::binary_node(op, loc, left, right) }
    }

    pub fn comparison(op: BinaryOp, loc: Location, left: Expr, right: Expr, bool_typ: TypeIndex) -> (e:
        Self)
        ensures
            e == Expr::comparison_node(op, loc, left, right, bool_typ),
            bool_typ == crate::ast::types::BOOL_TYPE ==> e.view()
                == crate::grammar::expr::comparison_node(op, loc, left.view(), right.view()),
    {
        let mut e = Expr::binary(op, loc, left, right);
        e.set_typ(bool_typ);
        e
    }

    /// The node of `cond -> a, b`: the condition coerced to `bool_typ`, `b`
    /// coerced to the type of `a`, which is the type of the whole.
    pub open spec fn conditional_node(
        loc: Location,
        cond: Expr,
        if_branch: Expr,
        else_branch: Expr,
        bool_typ: TypeIndex,
    ) -> Expr {
        Expr {
            loc,
            typ: if_branch.typ,
            kind: ExprKind::Conditional(
                Box::new(cond.coerced(Some(bool_typ))),
                Box::new(if_branch),
                Box::new(else_branch.coerced(if_branch.typ)),
            ),
        }
    }

    pub fn conditional(
        loc: Location,
        cond: Expr,
        if_branch: Expr,
        else_branch: Expr,
        bool_typ: TypeIndex,
    ) -> (e: Self)
        ensures
            e == Expr::conditional_node(loc, cond, if_branch, else_branch, bool_typ),
            bool_typ == crate::ast::types::BOOL_TYPE ==> e.view()
                == crate::grammar::expr::conditional_node(
                loc,
                cond.view(),
                if_branch.view(),
                else_branch.view(),
            ),
    {
        let typ = if_branch.typ;
        let cond = cond.coerce(Some(bool_typ));
        let else_branch = else_branch.coerce(typ);
        Expr {
            loc,
            typ,
            kind: ExprKind::Conditional(Box::new(cond), Box::new(if_branch), Box::new(else_branch)),
        }
    }

    pub fn location(&self) -> (r: &Location)
        ensures
            *r == self.loc,
    {
        &self.loc
    }

    pub fn typ(&self) -> (r: &Option<TypeIndex>)
        ensures
            *r == self.typ,
    {
        &self.typ
    }

    pub fn kind(&self) -> (r: &ExprKind)
        ensures
            *r == self.kind,
    {
        &self.kind
    }

    pub fn set_typ(&mut self, typ: TypeIndex)
        ensures
            *final(self) == (Expr { typ: Some(typ), ..*old(self) }),
    {
        self.typ = Some(typ)
    }

    /// Whether evaluating the expression can have an effect: a `valof`, a
    /// call, or a cast of one.
    pub open spec fn effectful(&self) -> bool
        decreases self,
    {
        match &self.kind {
            ExprKind::Cast(e) => e.effectful(),
            ExprKind::ImplicitCast(e) => e.effectful(),
            ExprKind::ValOf(_) => true,
            ExprKind::FuncCall(_, _) => true,
            _ => false,
        }
    }

    pub fn has_sideeffect(&self) -> (r: bool)
        ensures
            r == self.effectful(),
            r == crate::grammar::expr::effectful(self.view()),
        decreases self,
    {
        match &self.kind {
            ExprKind::Cast(e) => e.has_sideeffect(),
            ExprKind::ImplicitCast(e) => e.has_sideeffect(),
            ExprKind::ValOf(_) => true,
            ExprKind::FuncCall(_, _) => true,
            _ => false,
        }
    }

    /// Structural equality: the same place, type and kind, all the way
    /// down; where a pattern stands does not count.
    pub fn equals(&self, other: &Expr) -> (r: bool)
        ensures
            r == (bare_expr(self.view()) == bare_expr(other.view())),
        decreases self,
    {
        self.loc == other.loc && opt_index_equal(&self.typ, &other.typ) && self.kind.equals(
            &other.kind,
        )
    }
}

} // verus!
