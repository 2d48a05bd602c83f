//! Scopes: what a name stands for at a place of the program.

use vstd::prelude::*;
use crate::ast::types::{TypeIndex, TypeKind, TypeKindView, TypeView};
use crate::ast::Program;

verus! {

/// The aliases among the first `end` types, each with its index, in the
/// order of the table.
pub open spec fn aliases_of(types: Seq<TypeView>, end: int) -> Seq<(Seq<char>, TypeIndex)>
    decreases end,
{
    if end <= 0 {
        Seq::empty()
    } else {
        match types[end - 1].kind {
            TypeKindView::Alias(name, _) => aliases_of(types, end - 1).push(
                (name, (end - 1) as TypeIndex),
            ),
            _ => aliases_of(types, end - 1),
        }
    }
}

/// The names of a scope, each with its index.
pub open spec fn named(list: Seq<(String, TypeIndex)>) -> Seq<(Seq<char>, TypeIndex)> {
    Seq::new(list.len(), |i: int| (list[i].0@, list[i].1))
}

/// A scope: the names of types and of declarations that are known in it,
/// and the scope around it.
#[derive(Debug)]
pub struct Scope {
    /// The declarations of the scope, by name.
    pub bindings: Vec<(String, TypeIndex)>,
    /// The aliases of the scope: name and index in the type table.
    pub types: Vec<(String, TypeIndex)>,
    pub outer: Option<Box<Scope>>,
}

impl Scope {
    /// An empty scope inside `outer`.
    pub fn new(outer: Option<Box<Scope>>) -> (s: Self)
        ensures
            s.bindings@.len() == 0,
            s.types@.len() == 0,
            s.outer == outer,
    {
        Scope { bindings: Vec::new(), types: Vec::new(), outer }
    }

    /// The outermost scope of a program: it knows the aliases of the type
    /// table, each by its name.
    pub fn toplevel(ast: &Program) -> (s: Self)
        requires
            ast.wf(),
        ensures
            s.bindings@.len() == 0,
            s.outer is None,
            named(s.types@) == aliases_of(ast.types@, ast.types@.len() as int),
    {
        let mut types: Vec<(String, TypeIndex)> = Vec::new();
        assert(named(types@) =~= Seq::empty());
        let table = ast.types();
        let mut i: usize = 0;
        while i < table.len()
            invariant
                i <= table@.len(),
                table@.len() <= u32::MAX,
                named(types@) == aliases_of(table@, i as int),
            decreases table@.len() - i,
        {
            match table.get(i as u32) {
                Some(typ) => match typ.kind() {
                    TypeKind::Alias(id, _) => {
                        let ghost before = named(types@);
                        types.push((id.clone(), i as u32));
                        assert(named(types@) =~= before.push((id@, i as u32)));
                    },
                    _ => {},
                },
                None => {},
            }
            i += 1;
        }
        Scope { bindings: Vec::new(), types, outer: None }
    }
}

} // verus!
