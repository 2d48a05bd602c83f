//! The pass after the parser. It walks the tree and changes nothing yet.

use vstd::prelude::*;
use crate::ast::expr::Expr;
use crate::ast::pattern::Pattern;
use crate::ast::stmt::Stmt;
use crate::ast::trail::{lemma_went_one, went, Step, Trail};
use crate::ast::visitor::{Action, Measured, Traversable, Visitor, Walker};
use crate::ast::{Function, Param, Program, Section};
use crate::source_file::Located;
use crate::typechecker::scope::Scope;

pub mod scope;

verus! {

/// What the type checker can find wrong. It checks nothing yet, and raises
/// no error.
#[derive(Debug)]
pub enum TypeCheckError {
    /// The program has what the type checker cannot deal with.
    Unsupported,
}

pub struct TypeChecker {
    pub scope: Scope,
    /// The calls of hooks that the type checker has had.
    pub trail: Ghost<Trail>,
}

impl TypeChecker {
    pub fn new(scope: Scope) -> (t: Self)
        ensures
            t.scope == scope,
            t.trail@ == Seq::<Step>::empty(),
    {
        TypeChecker { scope, trail: Ghost(Seq::empty()) }
    }

    /// Takes note of the call of a hook.
    fn note(&mut self, step: Ghost<Step>)
        ensures
            final(self).scope == old(self).scope,
            final(self).trail@ == old(self).trail@.push(step@),
            went(old(self).trail@, seq![step@], final(self).trail@, true),
    {
        proof {
            lemma_went_one(self.trail@, step@, self.trail@.push(step@));
        }
        self.trail = Ghost(self.trail@.push(step@));
    }
}

impl Walker for TypeChecker {
    /// The type checker never asks for the walk to end.
    open spec fn stopped(&self) -> bool {
        false
    }

    /// The type checker raises no error.
    open spec fn failed(&self) -> bool {
        false
    }

    /// The type checker leaves the tree as it is.
    open spec fn keeps(&self) -> bool {
        true
    }

    open spec fn seen(&self) -> Trail {
        self.trail@
    }
}

impl Visitor<Program, Located<TypeCheckError>> for TypeChecker {
    fn visit(&mut self, node: &mut Program) -> (r: Result<Action, Located<TypeCheckError>>) {
        self.note(Ghost(Step { after: true, node: node.mark() }));
        Ok(Action::Continue)
    }

    fn visit_before(&mut self, node: &mut Program) -> (r: Result<Action, Located<TypeCheckError>>) {
        self.note(Ghost(Step { after: false, node: node.mark() }));
        Ok(Action::Continue)
    }
}

impl Visitor<Section, Located<TypeCheckError>> for TypeChecker {
    fn visit(&mut self, node: &mut Section) -> (r: Result<Action, Located<TypeCheckError>>) {
        self.note(Ghost(Step { after: true, node: node.mark() }));
        Ok(Action::Continue)
    }

    fn visit_before(&mut self, node: &mut Section) -> (r: Result<Action, Located<TypeCheckError>>) {
        self.note(Ghost(Step { after: false, node: node.mark() }));
        Ok(Action::Continue)
    }
}

impl Visitor<Function, Located<TypeCheckError>> for TypeChecker {
    fn visit(&mut self, node: &mut Function) -> (r: Result<Action, Located<TypeCheckError>>) {
        self.note(Ghost(Step { after: true, node: node.mark() }));
        Ok(Action::Continue)
    }

    fn visit_before(&mut self, node: &mut Function) -> (r: Result<Action, Located<TypeCheckError>>) {
        self.note(Ghost(Step { after: false, node: node.mark() }));
        Ok(Action::Continue)
    }
}

impl Visitor<Param, Located<TypeCheckError>> for TypeChecker {
    fn visit(&mut self, node: &mut Param) -> (r: Result<Action, Located<TypeCheckError>>) {
        self.note(Ghost(Step { after: true, node: node.mark() }));
        Ok(Action::Continue)
    }

    fn visit_before(&mut self, node: &mut Param) -> (r: Result<Action, Located<TypeCheckError>>) {
        self.note(Ghost(Step { after: false, node: node.mark() }));
        Ok(Action::Continue)
    }
}

impl Visitor<Stmt, Located<TypeCheckError>> for TypeChecker {
    fn visit(&mut self, node: &mut Stmt) -> (r: Result<Action, Located<TypeCheckError>>) {
        self.note(Ghost(Step { after: true, node: node.mark() }));
        Ok(Action::Continue)
    }

    fn visit_before(&mut self, node: &mut Stmt) -> (r: Result<Action, Located<TypeCheckError>>) {
        self.note(Ghost(Step { after: false, node: node.mark() }));
        Ok(Action::Continue)
    }
}

impl Visitor<Expr, Located<TypeCheckError>> for TypeChecker {
    fn visit(&mut self, node: &mut Expr) -> (r: Result<Action, Located<TypeCheckError>>) {
        self.note(Ghost(Step { after: true, node: node.mark() }));
        Ok(Action::Continue)
    }

    fn visit_before(&mut self, node: &mut Expr) -> (r: Result<Action, Located<TypeCheckError>>) {
        self.note(Ghost(Step { after: false, node: node.mark() }));
        Ok(Action::Continue)
    }
}

impl Visitor<Pattern, Located<TypeCheckError>> for TypeChecker {
    fn visit(&mut self, node: &mut Pattern) -> (r: Result<Action, Located<TypeCheckError>>) {
        self.note(Ghost(Step { after: true, node: node.mark() }));
        Ok(Action::Continue)
    }

    fn visit_before(&mut self, node: &mut Pattern) -> (r: Result<Action, Located<TypeCheckError>>) {
        self.note(Ghost(Step { after: false, node: node.mark() }));
        Ok(Action::Continue)
    }
}

/// Walks the program with a type checker whose outermost scope knows the
/// aliases of the program. The walk comes to its end without an error, and
/// leaves the program as it was.
pub fn typecheck_ast(ast: &mut Program) -> (r: Result<(), Located<TypeCheckError>>)
    requires
        old(ast).wf(),
    ensures
        r is Ok,
        final(ast).wf(),
        final(ast).section_list() == old(ast).section_list(),
        final(ast).types@ == old(ast).types@,
        final(ast).atom_names() == old(ast).atom_names(),
{
    let mut typechecker = TypeChecker::new(Scope::toplevel(ast));
    match ast.traverse(&mut typechecker) {
        Ok(_) => Ok(()),
        Err(e) => Err(e),
    }
}

} // verus!
