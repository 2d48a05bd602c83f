//! The calls of hooks that a walk of the tree makes.

use vstd::prelude::*;
use crate::ast::expr::ExprView;
use crate::ast::pattern::PatternView;
use crate::ast::stmt::StmtView;
use crate::ast::{FunctionView, ParamView, SectionView};

verus! {

/// A node as a hook is given it.
pub ghost enum Mark {
    Program(Seq<SectionView>),
    Section(SectionView),
    Function(FunctionView),
    Param(ParamView),
    Stmt(StmtView),
    Expr(ExprView),
    Pattern(PatternView),
}

/// One call of a hook: of the hook before the children of a node or of the
/// hook after them, and the node that it was given.
pub ghost struct Step {
    pub after: bool,
    pub node: Mark,
}

/// The calls of hooks that a visitor has had, the first first.
pub type Trail = Seq<Step>;

/// The call of the hook before the children of `node`.
pub open spec fn before(node: Mark) -> Seq<Step> {
    seq![Step { after: false, node }]
}

/// The call of the hook after the children of `node`.
pub open spec fn after(node: Mark) -> Seq<Step> {
    seq![Step { after: true, node }]
}

/// Whether a walk that owes the calls `steps` has led from the trail
/// `start` to the trail `end`: the calls made are the first of `steps`, in
/// their order and none else, and all of them where the walk was `whole`.
#[verifier::opaque]
pub open spec fn went(start: Seq<Step>, steps: Seq<Step>, end: Seq<Step>, whole: bool) -> bool {
    exists|k: int|
        0 <= k <= steps.len() && end == start + #[trigger] steps.take(k) && (whole ==> k
            == steps.len())
}

/// One call is a whole walk of one step.
pub proof fn lemma_went_one(start: Seq<Step>, step: Step, end: Seq<Step>)
    requires
        end == start.push(step),
    ensures
        went(start, seq![step], end, true),
{
    reveal(went);
    assert(seq![step].take(1) =~= seq![step]);
    assert(end =~= start + seq![step].take(1));
}

/// No call is a whole walk of no step.
pub broadcast proof fn lemma_went_none(start: Seq<Step>)
    ensures
        #[trigger] went(start, Seq::empty(), start, true),
{
    reveal(went);
    assert(start =~= start + Seq::<Step>::empty().take(0));
}

/// A walk of the first steps is the beginning of a walk of more steps.
pub broadcast proof fn lemma_went_short(
    start: Seq<Step>,
    steps: Seq<Step>,
    more: Seq<Step>,
    end: Seq<Step>,
    whole: bool,
)
    requires
        #[trigger] went(start, steps, end, whole),
    ensures
        went(start, #[trigger] steps.add(more), end, false),
{
    reveal(went);
    let k = choose|k: int|
        0 <= k <= steps.len() && end == start + #[trigger] steps.take(k) && (whole ==> k
            == steps.len());
    assert(steps.add(more).take(k) =~= steps.take(k));
}

/// A whole walk and a walk behind it are one walk.
pub broadcast proof fn lemma_went_on(
    start: Seq<Step>,
    steps: Seq<Step>,
    mid: Seq<Step>,
    more: Seq<Step>,
    end: Seq<Step>,
    whole: bool,
)
    requires
        #[trigger] went(start, steps, mid, true),
        #[trigger] went(mid, more, end, whole),
    ensures
        went(start, steps.add(more), end, whole),
{
    reveal(went);
    let i = choose|k: int|
        0 <= k <= steps.len() && mid == start + #[trigger] steps.take(k) && k == steps.len();
    let j = choose|k: int|
        0 <= k <= more.len() && end == mid + #[trigger] more.take(k) && (whole ==> k
            == more.len());
    assert(steps.take(i) =~= steps);
    assert(steps.add(more).take(i + j) =~= steps + more.take(j));
    assert(end =~= start + steps.add(more).take(i + j));
}

/// A whole walk is a walk.
pub broadcast proof fn lemma_went_less(
    start: Seq<Step>,
    steps: Seq<Step>,
    end: Seq<Step>,
    whole: bool,
)
    requires
        went(start, steps, end, true),
    ensures
        #[trigger] went(start, steps, end, whole),
{
    reveal(went);
}

} // verus!
