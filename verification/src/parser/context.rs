//! The chain of constructs that a statement is parsed inside.

use vstd::prelude::*;
use crate::ast::expr::{Expr, ExprKind, opt_index_equal};
use crate::ast::types::TypeIndex;
use crate::source_file::Location;

verus! {

/// One construct around the statement that is being parsed.
#[derive(Clone, Copy, Debug)]
pub enum Frame {
    /// A `valof`, with the type of its result: unset until the first
    /// `resultis`, which may itself have no known type.
    ValOf(Option<Option<TypeIndex>>),
    /// Between braces.
    Block,
    /// In a chain of statements joined by `<>`.
    NoBlock,
    /// The body of a function with the given number of parameters.
    Function(usize),
    Loop,
    /// A `switchon`, with the place of its `default:` once seen, and the
    /// type of the value that it switches on.
    SwitchOn(Option<Location>, Option<TypeIndex>),
    Match,
    /// Outside of every construct.
    Empty,
}

impl Frame {
    /// The frames that start a chain.
    pub open spec fn is_root(self) -> bool {
        self is Function || self is Empty
    }

    /// The frame without what is filled in while its body is parsed.
    pub open spec fn erased(self) -> Frame {
        match self {
            Frame::ValOf(_) => Frame::ValOf(None),
            Frame::SwitchOn(_, t) => Frame::SwitchOn(None, t),
            _ => self,
        }
    }
}

/// The frames without what is filled in while their bodies are parsed.
pub open spec fn shape(frames: Seq<Frame>) -> Seq<Frame> {
    Seq::new(frames.len(), |i: int| frames[i].erased())
}

/// The index of the nearest enclosing `valof`.
pub open spec fn valof_frame(frames: Seq<Frame>) -> Option<int>
    decreases frames.len(),
{
    if frames.len() == 0 {
        None
    } else {
        match frames.last() {
            Frame::ValOf(_) => Some(frames.len() - 1),
            Frame::Function(_) => None,
            Frame::Empty => None,
            _ => valof_frame(frames.drop_last()),
        }
    }
}

/// The number of parameters of the enclosing function.
pub open spec fn function_arity(frames: Seq<Frame>) -> Option<usize>
    decreases frames.len(),
{
    if frames.len() == 0 {
        None
    } else {
        match frames.last() {
            Frame::Function(n) => Some(n),
            Frame::Empty => None,
            _ => function_arity(frames.drop_last()),
        }
    }
}

/// Whether a statement here ends in a semicolon: directly between braces,
/// or as the body of a loop or a `switchon` that stands so.
pub open spec fn needs_semicolon(frames: Seq<Frame>) -> bool
    decreases frames.len(),
{
    if frames.len() == 0 {
        false
    } else {
        match frames.last() {
            Frame::Block => true,
            Frame::Loop => needs_semicolon(frames.drop_last()),
            Frame::SwitchOn(_, _) => needs_semicolon(frames.drop_last()),
            _ => false,
        }
    }
}

/// Whether a loop encloses this place.
pub open spec fn inside_loop(frames: Seq<Frame>) -> bool
    decreases frames.len(),
{
    if frames.len() == 0 {
        false
    } else {
        match frames.last() {
            Frame::Loop => true,
            Frame::Function(_) => false,
            Frame::Empty => false,
            _ => inside_loop(frames.drop_last()),
        }
    }
}

/// The index of the nearest enclosing `switchon`.
pub open spec fn switch_frame(frames: Seq<Frame>) -> Option<int>
    decreases frames.len(),
{
    if frames.len() == 0 {
        None
    } else {
        match frames.last() {
            Frame::SwitchOn(_, _) => Some(frames.len() - 1),
            Frame::Function(_) => None,
            Frame::Empty => None,
            _ => switch_frame(frames.drop_last()),
        }
    }
}

/// Whether a `match` or `every` encloses this place.
pub open spec fn inside_match(frames: Seq<Frame>) -> bool
    decreases frames.len(),
{
    if frames.len() == 0 {
        false
    } else {
        match frames.last() {
            Frame::Match => true,
            Frame::Function(_) => false,
            Frame::Empty => false,
            _ => inside_match(frames.drop_last()),
        }
    }
}

/// Whether `break` and `next` may stand here: inside a loop, a `match` or
/// `every`, or a `switchon`.
pub open spec fn may_jump(frames: Seq<Frame>) -> bool {
    inside_loop(frames) || inside_match(frames) || switch_frame(frames) is Some
}

/// What is known of a chain after a frame was pushed, a nested parse has
/// kept the shape, and the frame is popped again.
pub proof fn lemma_shape_restored(before: Seq<Frame>, frame: Frame, after: Seq<Frame>)
    requires
        shape(after) == shape(before.push(frame)),
    ensures
        after.len() == before.len() + 1,
        shape(after.drop_last()) == shape(before),
        after.last().erased() == frame.erased(),
{
    let pushed = before.push(frame);
    assert(shape(after).len() == shape(pushed).len());
    assert(shape(after)[after.len() - 1] == shape(pushed)[pushed.len() - 1]);
    assert(shape(after.drop_last()) =~= shape(before)) by {
        assert forall|i: int| 0 <= i < before.len() implies shape(after.drop_last())[i] == shape(
            before,
        )[i] by {
            assert(shape(after)[i] == shape(pushed)[i]);
        }
    }
}

pub proof fn lemma_valof_frame(frames: Seq<Frame>)
    ensures
        valof_frame(frames) matches Some(i) ==> 0 <= i < frames.len() && frames[i] is ValOf,
    decreases frames.len(),
{
    if frames.len() > 0 {
        lemma_valof_frame(frames.drop_last());
    }
}

pub proof fn lemma_switch_frame(frames: Seq<Frame>)
    ensures
        switch_frame(frames) matches Some(i) ==> 0 <= i < frames.len() && frames[i] is SwitchOn,
    decreases frames.len(),
{
    if frames.len() > 0 {
        lemma_switch_frame(frames.drop_last());
    }
}

/// The expression of a `resultis` at `loc` in a `valof` whose result type
/// is `cell`: under an implicit cast where the type is set and differs,
/// else as it is.
pub open spec fn result_expr(cell: Option<Option<TypeIndex>>, loc: Location, expr: Expr) -> Expr {
    match cell {
        Some(vt) => if vt != expr.typ {
            Expr { loc, typ: vt, kind: ExprKind::ImplicitCast(Box::new(expr)) }
        } else {
            expr
        },
        None => expr,
    }
}

/// The result type of a `valof` after a `resultis` of an expression of type
/// `typ`: the first one sets it.
pub open spec fn result_cell(cell: Option<Option<TypeIndex>>, typ: Option<TypeIndex>) -> Option<
    Option<TypeIndex>,
> {
    match cell {
        Some(vt) => Some(vt),
        None => Some(typ),
    }
}

/// The nearest `switchon` of a chain stands where it stood as long as the
/// shape of the chain is kept.
pub proof fn lemma_switch_same(before: Seq<Frame>, after: Seq<Frame>)
    requires
        shape(before) == shape(after),
    ensures
        switch_frame(before) == switch_frame(after),
    decreases before.len(),
{
    assert(before.len() == shape(before).len());
    assert(after.len() == shape(after).len());
    if before.len() > 0 {
        assert(before.drop_last().push(before.last()) =~= before);
        lemma_shape_restored(before.drop_last(), before.last(), after);
        lemma_switch_same(before.drop_last(), after.drop_last());
    }
}

/// The chain of constructs around the statement that is being parsed, the
/// outermost first.
#[derive(Debug)]
pub struct StmtContext {
    pub frames: Vec<Frame>,
}

impl StmtContext {
    pub open spec fn view(&self) -> Seq<Frame> {
        self.frames@
    }

    /// The chain starts with a function or with nothing, and holds neither
    /// further up.
    pub open spec fn wf(&self) -> bool {
        &&& self@.len() >= 1
        &&& self@[0].is_root()
        &&& forall|i: int| 1 <= i < self@.len() ==> !(#[trigger] self@[i]).is_root()
    }

    /// What a nested parse keeps of the chain: its frames, but for what a
    /// `resultis` or a `default:` fills in.
    pub open spec fn follows(&self, before: &StmtContext) -> bool {
        self.wf() && shape(self@) == shape(before@)
    }

    /// The chain outside of every construct.
    pub fn empty() -> (c: Self)
        ensures
            c.wf(),
            c@ == seq![Frame::Empty],
    {
        let mut frames: Vec<Frame> = Vec::new();
        frames.push(Frame::Empty);
        StmtContext { frames }
    }

    /// The chain at the start of the body of a function with `arity`
    /// parameters.
    pub fn function(arity: usize) -> (c: Self)
        ensures
            c.wf(),
            c@ == seq![Frame::Function(arity)],
    {
        let mut frames: Vec<Frame> = Vec::new();
        frames.push(Frame::Function(arity));
        StmtContext { frames }
    }

    /// Enters a construct.
    pub fn push(&mut self, frame: Frame)
        requires
            old(self).wf(),
            !frame.is_root(),
        ensures
            final(self).wf(),
            final(self)@ == old(self)@.push(frame),
    {
        self.frames.push(frame);
    }

    /// Leaves the innermost construct.
    pub fn pop(&mut self) -> (frame: Frame)
        requires
            old(self).wf(),
            old(self)@.len() > 1,
        ensures
            final(self).wf(),
            final(self)@ == old(self)@.drop_last(),
            frame == old(self)@.last(),
    {
        match self.frames.pop() {
            Some(frame) => frame,
            None => Frame::Empty,
        }
    }

    /// The result type of the nearest enclosing `valof`, if there is one.
    pub fn last_valof_type(&self) -> (r: Option<Option<Option<TypeIndex>>>)
        ensures
            match valof_frame(self@) {
                Some(i) => 0 <= i < self@.len() && self@[i] is ValOf && r == Some(
                    self@[i]->ValOf_0,
                ),
                None => r is None,
            },
    {
        proof {
            lemma_valof_frame(self@);
        }
        let mut i: usize = self.frames.len();
        assert(self@.take(i as int) =~= self@);
        while i > 0
            invariant
                i <= self@.len(),
                valof_frame(self@) == valof_frame(self@.take(i as int)),
            decreases i,
        {
            let ghost part = self@.take(i as int);
            assert(part.drop_last() =~= self@.take(i - 1));
            assert(part.last() == self@[i - 1]);
            match self.frames[i - 1] {
                Frame::ValOf(cell) => {
                    return Some(cell);
                },
                Frame::Function(_) => {
                    return None;
                },
                Frame::Empty => {
                    return None;
                },
                _ => {},
            }
            i -= 1;
        }
        None
    }

    /// The number of parameters of the enclosing function, if there is one.
    pub fn in_function(&self) -> (r: Option<usize>)
        ensures
            r == function_arity(self@),
    {
        let mut i: usize = self.frames.len();
        assert(self@.take(i as int) =~= self@);
        while i > 0
            invariant
                i <= self@.len(),
                function_arity(self@) == function_arity(self@.take(i as int)),
            decreases i,
        {
            let ghost part = self@.take(i as int);
            assert(part.drop_last() =~= self@.take(i - 1));
            assert(part.last() == self@[i - 1]);
            match self.frames[i - 1] {
                Frame::Function(n) => {
                    return Some(n);
                },
                Frame::Empty => {
                    return None;
                },
                _ => {},
            }
            i -= 1;
        }
        None
    }

    pub fn require_semicolon(&self) -> (r: bool)
        ensures
            r == needs_semicolon(self@),
    {
        let mut i: usize = self.frames.len();
        assert(self@.take(i as int) =~= self@);
        while i > 0
            invariant
                i <= self@.len(),
                needs_semicolon(self@) == needs_semicolon(self@.take(i as int)),
            decreases i,
        {
            let ghost part = self@.take(i as int);
            assert(part.drop_last() =~= self@.take(i - 1));
            assert(part.last() == self@[i - 1]);
            match self.frames[i - 1] {
                Frame::Block => {
                    return true;
                },
                Frame::Loop => {},
                Frame::SwitchOn(_, _) => {},
                _ => {
                    return false;
                },
            }
            i -= 1;
        }
        false
    }

    pub fn in_loop(&self) -> (r: bool)
        ensures
            r == inside_loop(self@),
    {
        let mut i: usize = self.frames.len();
        assert(self@.take(i as int) =~= self@);
        while i > 0
            invariant
                i <= self@.len(),
                inside_loop(self@) == inside_loop(self@.take(i as int)),
            decreases i,
        {
            let ghost part = self@.take(i as int);
            assert(part.drop_last() =~= self@.take(i - 1));
            assert(part.last() == self@[i - 1]);
            match self.frames[i - 1] {
                Frame::Loop => {
                    return true;
                },
                Frame::Function(_) => {
                    return false;
                },
                Frame::Empty => {
                    return false;
                },
                _ => {},
            }
            i -= 1;
        }
        false
    }

    /// The place of the `default:` and the type of the value of the nearest
    /// enclosing `switchon`, if there is one.
    pub fn in_switchon(&self) -> (r: Option<(Option<Location>, Option<TypeIndex>)>)
        ensures
            match switch_frame(self@) {
                Some(i) => 0 <= i < self@.len() && self@[i] is SwitchOn && r == Some(
                    (self@[i]->SwitchOn_0, self@[i]->SwitchOn_1),
                ),
                None => r is None,
            },
    {
        proof {
            lemma_switch_frame(self@);
        }
        let mut i: usize = self.frames.len();
        assert(self@.take(i as int) =~= self@);
        while i > 0
            invariant
                i <= self@.len(),
                switch_frame(self@) == switch_frame(self@.take(i as int)),
            decreases i,
        {
            let ghost part = self@.take(i as int);
            assert(part.drop_last() =~= self@.take(i - 1));
            assert(part.last() == self@[i - 1]);
            match self.frames[i - 1] {
                Frame::SwitchOn(default_case, typ) => {
                    return Some((default_case, typ));
                },
                Frame::Function(_) => {
                    return None;
                },
                Frame::Empty => {
                    return None;
                },
                _ => {},
            }
            i -= 1;
        }
        None
    }

    pub fn in_match(&self) -> (r: bool)
        ensures
            r == inside_match(self@),
    {
        let mut i: usize = self.frames.len();
        assert(self@.take(i as int) =~= self@);
        while i > 0
            invariant
                i <= self@.len(),
                inside_match(self@) == inside_match(self@.take(i as int)),
            decreases i,
        {
            let ghost part = self@.take(i as int);
            assert(part.drop_last() =~= self@.take(i - 1));
            assert(part.last() == self@[i - 1]);
            match self.frames[i - 1] {
                Frame::Match => {
                    return true;
                },
                Frame::Function(_) => {
                    return false;
                },
                Frame::Empty => {
                    return false;
                },
                _ => {},
            }
            i -= 1;
        }
        false
    }

    /// The index of the nearest enclosing frame of the kind that `valof` is
    /// `true` for a `valof`, `false` for a `switchon`.
    fn nearest(&self, valof: bool) -> (r: Option<usize>)
        ensures
            valof ==> (match r {
                Some(k) => valof_frame(self@) == Some(k as int) && k < self@.len()
                    && self@[k as int] is ValOf,
                None => valof_frame(self@) is None,
            }),
            !valof ==> (match r {
                Some(k) => switch_frame(self@) == Some(k as int) && k < self@.len()
                    && self@[k as int] is SwitchOn,
                None => switch_frame(self@) is None,
            }),
    {
        proof {
            lemma_valof_frame(self@);
            lemma_switch_frame(self@);
        }
        let mut i: usize = self.frames.len();
        assert(self@.take(i as int) =~= self@);
        while i > 0
            invariant
                i <= self@.len(),
                valof ==> valof_frame(self@) == valof_frame(self@.take(i as int)),
                !valof ==> switch_frame(self@) == switch_frame(self@.take(i as int)),
            decreases i,
        {
            let ghost part = self@.take(i as int);
            assert(part.drop_last() =~= self@.take(i - 1));
            assert(part.last() == self@[i - 1]);
            match self.frames[i - 1] {
                Frame::ValOf(_) => {
                    if valof {
                        return Some(i - 1);
                    }
                },
                Frame::SwitchOn(_, _) => {
                    if !valof {
                        return Some(i - 1);
                    }
                },
                Frame::Function(_) => {
                    return None;
                },
                Frame::Empty => {
                    return None;
                },
                _ => {},
            }
            i -= 1;
        }
        None
    }

    /// Takes note of a `resultis` at `loc` with the expression `expr`: the
    /// first one in a `valof` sets the type of its result, each later one
    /// is coerced to it. `Err` gives the expression back where no `valof`
    /// encloses this place.
    pub fn note_result(&mut self, loc: Location, expr: Expr) -> (r: Result<Expr, Expr>)
        requires
            old(self).wf(),
        ensures
            final(self).follows(old(self)),
            match valof_frame(old(self)@) {
                Some(i) => 0 <= i < old(self)@.len() && old(self)@[i] is ValOf && r == Ok::<
                    Expr,
                    Expr,
                >(result_expr(old(self)@[i]->ValOf_0, loc, expr)) && r->Ok_0.view()
                    == crate::grammar::stmt::result_view(
                    old(self)@[i]->ValOf_0,
                    loc,
                    expr.view(),
                ) && final(self)@ == old(self)@.update(
                    i,
                    Frame::ValOf(result_cell(old(self)@[i]->ValOf_0, expr.typ)),
                ),
                None => r == Err::<Expr, Expr>(expr) && final(self)@ == old(self)@,
            },
    {
        match self.nearest(true) {
            Some(i) => {
                let cell = match self.frames[i] {
                    Frame::ValOf(cell) => cell,
                    _ => None,
                };
                match cell {
                    Some(vt) => {
                        assert(self@.update(i as int, Frame::ValOf(Some(vt))) =~= self@);
                        if !opt_index_equal(&vt, &expr.typ) {
                            Ok(Expr::new(loc, vt, ExprKind::ImplicitCast(Box::new(expr))))
                        } else {
                            Ok(expr)
                        }
                    },
                    None => {
                        self.frames.set(i, Frame::ValOf(Some(expr.typ)));
                        assert(shape(self@) =~= shape(old(self)@));
                        Ok(expr)
                    },
                }
            },
            None => Err(expr),
        }
    }

    /// Takes note of a `default:` at `loc`. `Err(Some(first))` where the
    /// enclosing `switchon` has a `default:` at `first` already, and
    /// `Err(None)` where no `switchon` encloses this place.
    pub fn note_default(&mut self, loc: Location) -> (r: Result<(), Option<Location>>)
        requires
            old(self).wf(),
        ensures
            final(self).follows(old(self)),
            match switch_frame(old(self)@) {
                Some(i) => 0 <= i < old(self)@.len() && old(self)@[i] is SwitchOn && (match old(
                    self,
                )@[i]->SwitchOn_0 {
                    Some(first) => r == Err::<(), Option<Location>>(Some(first)) && final(self)@
                        == old(self)@,
                    None => r is Ok && final(self)@ == old(self)@.update(
                        i,
                        Frame::SwitchOn(Some(loc), old(self)@[i]->SwitchOn_1),
                    ),
                }),
                None => r == Err::<(), Option<Location>>(None) && final(self)@ == old(self)@,
            },
    {
        match self.nearest(false) {
            Some(i) => {
                match self.frames[i] {
                    Frame::SwitchOn(Some(first), _) => Err(Some(first)),
                    Frame::SwitchOn(None, typ) => {
                        self.frames.set(i, Frame::SwitchOn(Some(loc), typ));
                        assert(shape(self@) =~= shape(old(self)@));
                        Ok(())
                    },
                    _ => Err(None),
                }
            },
            None => Err(None),
        }
    }
}

} // verus!
