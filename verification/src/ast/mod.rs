//! The syntax tree: programs, sections, declarations and parameters.

use vstd::prelude::*;
use crate::source_file::{low32, low_u32, Located, Location};
use crate::ast::types::{TypeIndex, TypeList};
use crate::ast::expr::{AtomIndex, Expr, ExprView};
use crate::ast::stmt::{Stmt, StmtView};
use crate::ast::pattern::{Pattern, PatternView, pattern_views};
use crate::text::{index_of_name, lemma_first_name, lemma_index_of_name};

pub mod types;
pub mod expr;
pub mod stmt;
pub mod pattern;
pub mod shape;
pub mod trail;
pub mod visitor;

verus! {

/// A parameter of a function: the pattern that names it, its declared type
/// and its default value. At least one of the two is given.
#[derive(Debug)]
pub struct Param {
    pub loc: Location,
    pub ident: Located<Pattern>,
    pub typ: Option<TypeIndex>,
    pub default_value: Option<Expr>,
}

/// The mathematical value of a parameter.
pub ghost struct ParamView {
    pub loc: Location,
    pub ident: PatternView,
    pub ident_loc: Location,
    pub typ: Option<TypeIndex>,
    pub default_value: Option<ExprView>,
}

/// The view of an optional expression.
pub open spec fn value_view(e: Option<Expr>) -> Option<ExprView> {
    match e {
        Some(x) => Some(x.view()),
        None => None,
    }
}

/// The views of a list of parameters.
pub open spec fn param_views(params: Seq<Param>) -> Seq<ParamView> {
    Seq::new(params.len(), |i: int| params[i].view())
}

impl ParamView {
    /// The parameter that a declaration `ident [:: typ] [= value]` makes:
    /// none where both type and default are missing; where both are given,
    /// the default is coerced to the declared type.
    pub open spec fn declared(
        loc: Location,
        name: Seq<char>,
        typ: Option<TypeIndex>,
        value: Option<ExprView>,
    ) -> Option<ParamView> {
        match (typ, value) {
            (None, None) => None,
            (Some(t), Some(v)) => Some(
                ParamView {
                    loc,
                    ident: PatternView::Query(name),
                    ident_loc: loc,
                    typ,
                    default_value: Some(crate::grammar::expr::coerced(v, Some(t))),
                },
            ),
            _ => Some(
                ParamView {
                    loc,
                    ident: PatternView::Query(name),
                    ident_loc: loc,
                    typ,
                    default_value: value,
                },
            ),
        }
    }
}

impl Param {
    pub open spec fn view(&self) -> ParamView {
        ParamView {
            loc: self.loc,
            ident: self.ident.inner.view(),
            ident_loc: self.ident.loc,
            typ: self.typ,
            default_value: value_view(self.default_value),
        }
    }

    pub fn new(
        loc: Location,
        ident: Located<Pattern>,
        typ: Option<TypeIndex>,
        default_value: Option<Expr>,
    ) -> (p: Self)
        ensures
            p == (Param { loc, ident, typ, default_value }),
    {
        Param { loc, ident, typ, default_value }
    }

    /// The parameter that a declaration `ident [:: typ] [= value]` makes:
    /// none where both type and default are missing; where both are given,
    /// the default is coerced to the declared type.
    pub open spec fn declared(
        loc: Location,
        ident: Located<Pattern>,
        typ: Option<TypeIndex>,
        value: Option<Expr>,
    ) -> Option<Param> {
        match (typ, value) {
            (None, None) => None,
            (Some(t), Some(v)) => Some(
                Param { loc, ident, typ, default_value: Some(v.coerced(Some(t))) },
            ),
            _ => Some(Param { loc, ident, typ, default_value: value }),
        }
    }

    pub fn declare(
        loc: Location,
        ident: Located<Pattern>,
        typ: Option<TypeIndex>,
        value: Option<Expr>,
    ) -> (p: Option<Self>)
        ensures
            p == Param::declared(loc, ident, typ, value),
    {
        match (typ, value) {
            (None, None) => None,
            (Some(t), Some(v)) => Some(Param::new(loc, ident, Some(t), Some(v.coerce(Some(t))))),
            (typ, value) => Some(Param::new(loc, ident, typ, value)),
        }
    }

    /// The parameter of the declaration `name [:: typ] [= value]` at
    /// `loc`, if the declaration makes one.
    pub fn named(loc: Location, name: String, typ: Option<TypeIndex>, value: Option<Expr>) -> (p:
        Option<Self>)
        ensures
            match p {
                Some(x) => ParamView::declared(loc, name@, typ, value_view(value)) == Some(
                    x.view(),
                ),
                None => ParamView::declared(loc, name@, typ, value_view(value)) is None,
            },
    {
        let pattern = Pattern::Query(name);
        assert(pattern.view() == PatternView::Query(name@));
        Param::declare(loc, Located::with_location(pattern, loc), typ, value)
    }

    pub fn location(&self) -> (r: &Location)
        ensures
            *r == self.loc,
    {
        &self.loc
    }

    pub fn ident(&self) -> (r: &Located<Pattern>)
        ensures
            *r == self.ident,
    {
        &self.ident
    }

    pub fn typ(&self) -> (r: &Option<TypeIndex>)
        ensures
            *r == self.typ,
    {
        &self.typ
    }

    pub fn default_value(&self) -> (r: &Option<Expr>)
        ensures
            *r == self.default_value,
    {
        &self.default_value
    }
}

/// The body of a function without patterns.
#[derive(Debug)]
pub enum BasicFunctionBody {
    Expr(Expr),
    Stmt(Stmt),
}

impl BasicFunctionBody {
    pub open spec fn view(&self) -> FunctionBodyView {
        match self {
            BasicFunctionBody::Expr(e) => FunctionBodyView::Expr(e.view()),
            BasicFunctionBody::Stmt(s) => FunctionBodyView::Stmt(s.view()),
        }
    }
}

/// The body of a function.
#[derive(Debug)]
pub enum FunctionBody {
    Expr(Expr),
    Stmt(Stmt),
    PatternMatchedExpr(Vec<(Vec<Located<Pattern>>, Expr)>),
    PatternMatchedStmt(Vec<(Vec<Located<Pattern>>, Stmt)>),
}

/// The mathematical value of the body of a function.
pub ghost enum FunctionBodyView {
    Expr(ExprView),
    Stmt(StmtView),
    PatternMatchedExpr(Seq<(Seq<(PatternView, Location)>, ExprView)>),
    PatternMatchedStmt(Seq<(Seq<(PatternView, Location)>, StmtView)>),
}

/// The views of the branches of a body of expressions.
pub open spec fn body_expr_views(s: Seq<(Vec<Located<Pattern>>, Expr)>) -> Seq<
    (Seq<(PatternView, Location)>, ExprView),
> {
    Seq::new(s.len(), |i: int| (pattern_views(s[i].0@), s[i].1.view()))
}

/// The views of the branches of a body of statements.
pub open spec fn body_stmt_views(s: Seq<(Vec<Located<Pattern>>, Stmt)>) -> Seq<
    (Seq<(PatternView, Location)>, StmtView),
> {
    Seq::new(s.len(), |i: int| (pattern_views(s[i].0@), s[i].1.view()))
}

impl FunctionBodyView {
    /// The type that the body gives its function, `unit` being the index of
    /// the type `Unit`: the type of an expression body, that of the first
    /// branch of a body of expression branches, and `Unit` for statements.
    pub open spec fn result_type(self, unit: TypeIndex) -> Option<TypeIndex> {
        match self {
            FunctionBodyView::Expr(e) => e.typ,
            FunctionBodyView::PatternMatchedExpr(branches) => if branches.len() > 0 {
                branches[0].1.typ
            } else {
                None
            },
            FunctionBodyView::Stmt(_) => Some(unit),
            FunctionBodyView::PatternMatchedStmt(_) => Some(unit),
        }
    }
}

impl FunctionBody {
    pub open spec fn view(&self) -> FunctionBodyView {
        match self {
            FunctionBody::Expr(e) => FunctionBodyView::Expr(e.view()),
            FunctionBody::Stmt(s) => FunctionBodyView::Stmt(s.view()),
            FunctionBody::PatternMatchedExpr(b) => FunctionBodyView::PatternMatchedExpr(
                body_expr_views(b@),
            ),
            FunctionBody::PatternMatchedStmt(b) => FunctionBodyView::PatternMatchedStmt(
                body_stmt_views(b@),
            ),
        }
    }

    pub fn from(value: BasicFunctionBody) -> (r: Self)
        ensures
            r == (match value {
                BasicFunctionBody::Expr(e) => FunctionBody::Expr(e),
                BasicFunctionBody::Stmt(s) => FunctionBody::Stmt(s),
            }),
            r.view() == value.view(),
    {
        match value {
            BasicFunctionBody::Expr(expr) => FunctionBody::Expr(expr),
            BasicFunctionBody::Stmt(stmt) => FunctionBody::Stmt(stmt),
        }
    }

    pub fn return_type(&self, unit: TypeIndex) -> (r: Option<TypeIndex>)
        ensures
            r == self.view().result_type(unit),
    {
        match self {
            FunctionBody::Expr(e) => e.typ,
            FunctionBody::PatternMatchedExpr(branches) => if branches.len() > 0 {
                branches[0].1.typ
            } else {
                None
            },
            FunctionBody::Stmt(_) => Some(unit),
            FunctionBody::PatternMatchedStmt(_) => Some(unit),
        }
    }
}

/// The views of a list with one more parameter.
pub proof fn lemma_param_views_push(s: Seq<Param>, p: Param)
    ensures
        param_views(s.push(p)) == param_views(s).push(p.view()),
{
    assert(param_views(s.push(p)) =~= param_views(s).push(p.view()));
}

/// The views of a list with one more branch.
pub proof fn lemma_body_expr_views_push(
    s: Seq<(Vec<Located<Pattern>>, Expr)>,
    b: (Vec<Located<Pattern>>, Expr),
)
    ensures
        body_expr_views(s.push(b)) == body_expr_views(s).push((pattern_views(b.0@), b.1.view())),
{
    assert(body_expr_views(s.push(b)) =~= body_expr_views(s).push(
        (pattern_views(b.0@), b.1.view()),
    ));
}

/// The views of a list with one more branch.
pub proof fn lemma_body_stmt_views_push(
    s: Seq<(Vec<Located<Pattern>>, Stmt)>,
    b: (Vec<Located<Pattern>>, Stmt),
)
    ensures
        body_stmt_views(s.push(b)) == body_stmt_views(s).push((pattern_views(b.0@), b.1.view())),
{
    assert(body_stmt_views(s.push(b)) =~= body_stmt_views(s).push(
        (pattern_views(b.0@), b.1.view()),
    ));
}

/// The number of parameters that a call has to give: the index of the
/// first parameter with a default value, or the number of parameters where
/// none has one.
pub open spec fn required_count(params: Seq<ParamView>) -> int
    decreases params.len(),
{
    if params.len() == 0 {
        0
    } else if params[0].default_value is Some {
        0
    } else {
        1 + required_count(params.drop_first())
    }
}

pub proof fn lemma_required_count(params: Seq<ParamView>, i: int)
    requires
        0 <= i <= params.len(),
        forall|j: int| 0 <= j < i ==> (#[trigger] params[j]).default_value is None,
        i < params.len() ==> params[i].default_value is Some,
    ensures
        required_count(params) == i,
    decreases params.len(),
{
    if params.len() > 0 && i > 0 {
        let rest = params.drop_first();
        assert forall|j: int| 0 <= j < i - 1 implies (#[trigger] rest[j]).default_value is None by {
            assert(rest[j] == params[j + 1]);
        }
        lemma_required_count(rest, i - 1);
    }
}

pub fn required_params_of(params: &Vec<Param>) -> (r: u32)
    ensures
        r == low32(required_count(param_views(params@))),
{
    let mut i: usize = 0;
    while i < params.len() && params[i].default_value.is_none()
        invariant
            i <= params@.len(),
            forall|j: int| 0 <= j < i ==> (#[trigger] param_views(params@)[j]).default_value is None,
        decreases params@.len() - i,
    {
        i += 1;
    }
    proof {
        if i < params@.len() {
            assert(param_views(params@)[i as int].default_value is Some);
        }
        lemma_required_count(param_views(params@), i as int);
    }
    low_u32(i)
}

/// A function declaration.
#[derive(Debug)]
pub struct Function {
    pub loc: Location,
    pub is_public: bool,
    pub ident: String,
    pub params: Vec<Param>,
    pub required_params: u32,
    pub return_type: Option<TypeIndex>,
    /// Set for a function declared with `and`, which continues the
    /// declaration before it.
    pub tailcall_recursive: bool,
    pub body: FunctionBody,
}

/// The mathematical value of a function declaration.
pub ghost struct FunctionView {
    pub loc: Location,
    pub is_public: bool,
    pub ident: Seq<char>,
    pub params: Seq<ParamView>,
    pub required_params: u32,
    pub return_type: Option<TypeIndex>,
    pub tailcall_recursive: bool,
    pub body: FunctionBodyView,
}

impl Function {
    pub open spec fn view(&self) -> FunctionView {
        FunctionView {
            loc: self.loc,
            is_public: self.is_public,
            ident: self.ident@,
            params: param_views(self.params@),
            required_params: self.required_params,
            return_type: self.return_type,
            tailcall_recursive: self.tailcall_recursive,
            body: self.body.view(),
        }
    }

    pub fn new(
        loc: Location,
        ident: String,
        params: Vec<Param>,
        return_type: Option<TypeIndex>,
        tailcall_recursive: bool,
        body: FunctionBody,
    ) -> (f: Self)
        ensures
            f == (Function {
                loc,
                is_public: true,
                ident,
                params,
                required_params: low32(required_count(param_views(params@))),
                return_type,
                tailcall_recursive,
                body,
            }),
            f.view() == (FunctionView {
                loc,
                is_public: true,
                ident: ident@,
                params: param_views(params@),
                required_params: low32(required_count(param_views(params@))),
                return_type,
                tailcall_recursive,
                body: body.view(),
            }),
    {
        let required_params = required_params_of(&params);
        Function {
            loc,
            is_public: true,
            ident,
            required_params,
            params,
            return_type,
            tailcall_recursive,
            body,
        }
    }

    pub fn params(&self) -> (r: &Vec<Param>)
        ensures
            *r == self.params,
    {
        &self.params
    }

    pub fn required_params(&self) -> (r: u32)
        ensures
            r == self.required_params,
    {
        self.required_params
    }

    pub fn return_type(&self) -> (r: &Option<TypeIndex>)
        ensures
            *r == self.return_type,
    {
        &self.return_type
    }

    pub fn is_tailcall_recursive(&self) -> (r: bool)
        ensures
            r == self.tailcall_recursive,
    {
        self.tailcall_recursive
    }

    pub fn body(&self) -> (r: &FunctionBody)
        ensures
            *r == self.body,
    {
        &self.body
    }
}

/// A named constant.
#[derive(Debug)]
pub struct ManifestDecl {
    pub loc: Location,
    pub is_public: bool,
    pub ident: String,
    pub value: Expr,
}

/// The mathematical value of a named constant.
pub ghost struct ManifestView {
    pub loc: Location,
    pub is_public: bool,
    pub ident: Seq<char>,
    pub value: ExprView,
}

impl ManifestDecl {
    pub open spec fn view(&self) -> ManifestView {
        ManifestView {
            loc: self.loc,
            is_public: self.is_public,
            ident: self.ident@,
            value: self.value.view(),
        }
    }

    pub fn new(loc: Location, ident: String, value: Expr) -> (m: Self)
        ensures
            m == (ManifestDecl { loc, is_public: true, ident, value }),
    {
        ManifestDecl { loc, is_public: true, ident, value }
    }

    pub fn value(&self) -> (r: &Expr)
        ensures
            *r == self.value,
    {
        &self.value
    }
}

/// A declaration of a section.
#[derive(Debug)]
pub enum Decl {
    Function(Function),
    Manifest(ManifestDecl),
}

/// The mathematical value of a declaration.
pub ghost enum DeclView {
    Function(FunctionView),
    Manifest(ManifestView),
}

impl DeclView {
    pub open spec fn name(self) -> Seq<char> {
        match self {
            DeclView::Function(f) => f.ident,
            DeclView::Manifest(m) => m.ident,
        }
    }

    pub open spec fn place(self) -> Location {
        match self {
            DeclView::Function(f) => f.loc,
            DeclView::Manifest(m) => m.loc,
        }
    }
}

/// The views of a list of declarations.
pub open spec fn decl_views(decls: Seq<Decl>) -> Seq<DeclView> {
    Seq::new(decls.len(), |i: int| decls[i].view())
}

/// The names of a list of declarations.
pub open spec fn decl_names(decls: Seq<DeclView>) -> Seq<Seq<char>> {
    Seq::new(decls.len(), |i: int| decls[i].name())
}

impl Decl {
    pub open spec fn view(&self) -> DeclView {
        match self {
            Decl::Function(f) => DeclView::Function(f.view()),
            Decl::Manifest(m) => DeclView::Manifest(m.view()),
        }
    }

    pub open spec fn name(&self) -> String {
        match self {
            Decl::Function(f) => f.ident,
            Decl::Manifest(m) => m.ident,
        }
    }

    pub open spec fn place(&self) -> Location {
        match self {
            Decl::Function(f) => f.loc,
            Decl::Manifest(m) => m.loc,
        }
    }

    pub fn location(&self) -> (r: &Location)
        ensures
            *r == self.place(),
            *r == self.view().place(),
    {
        match self {
            Decl::Function(f) => &f.loc,
            Decl::Manifest(m) => &m.loc,
        }
    }

    pub fn ident(&self) -> (r: &String)
        ensures
            *r == self.name(),
            r@ == self.view().name(),
    {
        match self {
            Decl::Function(f) => &f.ident,
            Decl::Manifest(m) => &m.ident,
        }
    }

    pub fn is_public(&self) -> (r: bool)
        ensures
            r == (match self {
                Decl::Function(f) => f.is_public,
                Decl::Manifest(m) => m.is_public,
            }),
    {
        match self {
            Decl::Function(f) => f.is_public,
            Decl::Manifest(m) => m.is_public,
        }
    }
}

/// What can stand in a section as a declaration.
pub trait IntoDecl: Sized {
    spec fn as_decl(self) -> Decl;

    fn into_decl(self) -> (r: Decl)
        ensures
            r == self.as_decl(),
    ;
}

impl IntoDecl for Function {
    open spec fn as_decl(self) -> Decl {
        Decl::Function(self)
    }

    fn into_decl(self) -> (r: Decl) {
        Decl::Function(self)
    }
}

impl IntoDecl for ManifestDecl {
    open spec fn as_decl(self) -> Decl {
        Decl::Manifest(self)
    }

    fn into_decl(self) -> (r: Decl) {
        Decl::Manifest(self)
    }
}

/// A section: a named group of declarations, with the names of the
/// sections that it requires.
#[derive(Debug)]
pub struct Section {
    pub loc: Location,
    pub ident: String,
    pub required: Vec<Located<String>>,
    pub declarations: Vec<Decl>,
}

/// A name with the place where it is written.
pub ghost struct PlacedName {
    pub name: Seq<char>,
    pub loc: Location,
}

/// The mathematical value of a section.
pub ghost struct SectionView {
    pub loc: Location,
    pub ident: Seq<char>,
    pub required: Seq<PlacedName>,
    pub declarations: Seq<DeclView>,
}

/// The views of a list of required names.
pub open spec fn placed_names(list: Seq<Located<String>>) -> Seq<PlacedName> {
    Seq::new(list.len(), |i: int| PlacedName { name: list[i].inner@, loc: list[i].loc })
}

/// The names of a list of required names.
pub open spec fn names_of(list: Seq<PlacedName>) -> Seq<Seq<char>> {
    Seq::new(list.len(), |i: int| list[i].name)
}

impl SectionView {
    /// No name is required twice, and no two declarations have one name.
    pub open spec fn wf(self) -> bool {
        &&& forall|i: int, j: int|
            0 <= i < j < self.required.len() ==> (#[trigger] self.required[i]).name != (
            #[trigger] self.required[j]).name
        &&& forall|i: int, j: int|
            0 <= i < j < self.declarations.len() ==> (#[trigger] self.declarations[i]).name() != (
            #[trigger] self.declarations[j]).name()
    }

    /// A section without requires and declarations.
    pub open spec fn empty(ident: Seq<char>, loc: Location) -> SectionView {
        SectionView { loc, ident, required: Seq::empty(), declarations: Seq::empty() }
    }

    /// The section with one more required name; a name that is there
    /// already stays as it was first written.
    pub open spec fn requiring(self, name: PlacedName) -> SectionView {
        if index_of_name(names_of(self.required), name.name) is Some {
            self
        } else {
            SectionView { required: self.required.push(name), ..self }
        }
    }

    /// The index of the declaration of a name.
    pub open spec fn index_of(self, name: Seq<char>) -> Option<int> {
        index_of_name(decl_names(self.declarations), name)
    }

    /// The section after `decl` was entered under its name: in the place of
    /// the declaration of that name, or at the end.
    pub open spec fn declaring(self, decl: DeclView) -> SectionView {
        match self.index_of(decl.name()) {
            Some(i) => SectionView { declarations: self.declarations.update(i, decl), ..self },
            None => SectionView { declarations: self.declarations.push(decl), ..self },
        }
    }
}

/// The views of a list of sections.
pub open spec fn section_views(sections: Seq<Section>) -> Seq<SectionView> {
    Seq::new(sections.len(), |i: int| sections[i].view())
}

/// The names of a list of sections.
pub open spec fn section_names(sections: Seq<SectionView>) -> Seq<Seq<char>> {
    Seq::new(sections.len(), |i: int| sections[i].ident)
}

impl Section {
    pub open spec fn view(&self) -> SectionView {
        SectionView {
            loc: self.loc,
            ident: self.ident@,
            required: placed_names(self.required@),
            declarations: decl_views(self.declarations@),
        }
    }

    /// No name is required twice, and no two declarations have one name.
    pub open spec fn wf(&self) -> bool {
        self.view().wf()
    }

    pub fn new(ident: String, loc: Location) -> (s: Self)
        ensures
            s.wf(),
            s.view() == SectionView::empty(ident@, loc),
            s.ident == ident,
    {
        let s = Section { loc, ident, required: Vec::new(), declarations: Vec::new() };
        assert(s.view().required =~= Seq::empty());
        assert(s.view().declarations =~= Seq::empty());
        s
    }

    pub fn ident(&self) -> (r: &String)
        ensures
            *r == self.ident,
    {
        &self.ident
    }

    pub fn location(&self) -> (r: &Location)
        ensures
            *r == self.loc,
    {
        &self.loc
    }

    pub fn required(&self) -> (r: &Vec<Located<String>>)
        ensures
            *r == self.required,
    {
        &self.required
    }

    pub fn declarations(&self) -> (r: &Vec<Decl>)
        ensures
            *r == self.declarations,
    {
        &self.declarations
    }

    /// The position of the declaration named `ident`.
    pub fn position(&self, ident: &String) -> (r: Option<usize>)
        ensures
            match r {
                Some(i) => self.view().index_of(ident@) == Some(i as int) && i
                    < self.declarations@.len(),
                None => self.view().index_of(ident@) is None,
            },
    {
        let ghost names = decl_names(self.view().declarations);
        let mut i: usize = 0;
        while i < self.declarations.len()
            invariant
                i <= self.declarations@.len(),
                names == decl_names(self.view().declarations),
                forall|j: int| 0 <= j < i ==> #[trigger] names[j] != ident@,
            decreases self.declarations@.len() - i,
        {
            assert(names[i as int] == self.declarations@[i as int].view().name());
            if *self.declarations[i].ident() == *ident {
                proof {
                    lemma_first_name(names, ident@, i as int);
                }
                return Some(i);
            }
            i += 1;
        }
        proof {
            lemma_first_name(names, ident@, i as int);
        }
        None
    }

    /// The declaration named `ident`.
    pub fn defines(&self, ident: &String) -> (r: Option<&Decl>)
        ensures
            match self.view().index_of(ident@) {
                Some(i) => 0 <= i < self.declarations@.len() && r == Some(&self.declarations@[i])
                    && r->0.view() == self.view().declarations[i],
                None => r is None,
            },
    {
        match self.position(ident) {
            Some(i) => Some(&self.declarations[i]),
            None => None,
        }
    }

    /// Adds a required section name; a name that is there already stays
    /// as it was first written.
    pub fn add_require(&mut self, require: Located<String>)
        requires
            old(self).wf(),
        ensures
            final(self).wf(),
            final(self).view() == old(self).view().requiring(
                PlacedName { name: require.inner@, loc: require.loc },
            ),
    {
        let ghost names = names_of(self.view().required);
        let mut i: usize = 0;
        while i < self.required.len()
            invariant
                i <= self.required@.len(),
                *self == *old(self),
                old(self).wf(),
                names == names_of(self.view().required),
                forall|j: int| 0 <= j < i ==> #[trigger] names[j] != require.inner@,
            decreases self.required@.len() - i,
        {
            assert(names[i as int] == self.required@[i as int].inner@);
            if self.required[i].inner == require.inner {
                proof {
                    lemma_first_name(names, require.inner@, i as int);
                }
                return ;
            }
            i += 1;
        }
        proof {
            lemma_first_name(names, require.inner@, i as int);
        }
        self.required.push(require);
        proof {
            let before = old(self).view();
            let after = self.view();
            let added = PlacedName { name: require.inner@, loc: require.loc };
            assert(after.required =~= before.required.push(added));
            assert(after.declarations =~= before.declarations);
            assert forall|a: int, b: int| 0 <= a < b < after.required.len() implies (
            #[trigger] after.required[a]).name != (#[trigger] after.required[b]).name by {
                if b < before.required.len() {
                    assert(before.required[a].name != before.required[b].name);
                } else {
                    assert(names[a] != require.inner@);
                }
            }
        }
    }

    /// Enters `decl` under its name, in place of a declaration that has the
    /// name already.
    pub fn declare(&mut self, decl: Decl)
        requires
            old(self).wf(),
        ensures
            final(self).wf(),
            final(self).view() == old(self).view().declaring(decl.view()),
    {
        let ghost before = self.view();
        let ghost names = decl_names(before.declarations);
        proof {
            lemma_index_of_name(names, decl.view().name());
        }
        match self.position(decl.ident()) {
            Some(i) => {
                self.declarations.set(i, decl);
                proof {
                    let after = self.view();
                    assert(after.declarations =~= before.declarations.update(
                        i as int,
                        decl.view(),
                    ));
                    assert(after.required =~= before.required);
                    assert forall|a: int, b: int|
                        0 <= a < b < after.declarations.len() implies (
                    #[trigger] after.declarations[a]).name() != (
                    #[trigger] after.declarations[b]).name() by {
                        assert(before.declarations[a].name() != before.declarations[b].name());
                        assert(names[a] == before.declarations[a].name());
                        assert(names[b] == before.declarations[b].name());
                    }
                }
            },
            None => {
                self.declarations.push(decl);
                proof {
                    let after = self.view();
                    assert(after.declarations =~= before.declarations.push(decl.view()));
                    assert(after.required =~= before.required);
                    assert forall|a: int, b: int|
                        0 <= a < b < after.declarations.len() implies (
                    #[trigger] after.declarations[a]).name() != (
                    #[trigger] after.declarations[b]).name() by {
                        if b < before.declarations.len() {
                            assert(before.declarations[a].name() != before.declarations[b].name());
                        } else {
                            assert(names[a] == before.declarations[a].name());
                        }
                    }
                }
            },
        }
    }
}

/// The texts of a list of atoms.
pub open spec fn atom_texts(atoms: Seq<String>) -> Seq<Seq<char>> {
    Seq::new(atoms.len(), |i: int| atoms[i]@)
}

/// No atom stands twice, and every atom id fits an `AtomIndex`.
pub open spec fn atoms_wf(atoms: Seq<Seq<char>>) -> bool {
    &&& atoms.len() <= u32::MAX
    &&& forall|i: int, j: int| 0 <= i < j < atoms.len() ==> #[trigger] atoms[i] != #[trigger] atoms[j]
}

/// No two sections have one name, and each section is well-formed.
pub open spec fn sections_wf(sections: Seq<SectionView>) -> bool {
    &&& forall|i: int, j: int|
        0 <= i < j < sections.len() ==> (#[trigger] sections[i]).ident != (
        #[trigger] sections[j]).ident
    &&& forall|i: int| 0 <= i < sections.len() ==> (#[trigger] sections[i]).wf()
}

/// A program: its sections, its types and its atoms.
#[derive(Debug)]
pub struct Program {
    pub sections: Vec<Section>,
    pub types: TypeList,
    /// The atoms in the order of their first occurrence; the index of an
    /// atom is its id.
    pub atoms: Vec<String>,
}

impl Program {
    /// The texts of the atoms, by id.
    pub open spec fn atom_names(&self) -> Seq<Seq<char>> {
        atom_texts(self.atoms@)
    }

    /// The sections of the program.
    pub open spec fn section_list(&self) -> Seq<SectionView> {
        section_views(self.sections@)
    }

    /// The type table is well-formed; no atom stands twice and every atom
    /// id fits an `AtomIndex`; no two sections have one name, and each
    /// section is well-formed.
    pub open spec fn wf(&self) -> bool {
        &&& self.types.wf()
        &&& atoms_wf(self.atom_names())
        &&& sections_wf(self.section_list())
    }

    /// The program with the builtin types and nothing else.
    pub fn new() -> (p: Self)
        ensures
            p.wf(),
            p.sections@.len() == 0,
            p.atoms@.len() == 0,
            p.types@.len() == crate::ast::types::BUILTIN_COUNT,
    {
        Program { sections: Vec::new(), types: TypeList::default(), atoms: Vec::new() }
    }

    /// The position of the section named `ident`.
    pub fn section_position(&self, ident: &String) -> (r: Option<usize>)
        ensures
            match r {
                Some(i) => i < self.sections@.len() && index_of_name(
                    section_names(self.section_list()),
                    ident@,
                ) == Some(i as int),
                None => index_of_name(section_names(self.section_list()), ident@) is None,
            },
    {
        let ghost names = section_names(self.section_list());
        let mut i: usize = 0;
        while i < self.sections.len()
            invariant
                i <= self.sections@.len(),
                names == section_names(self.section_list()),
                forall|j: int| 0 <= j < i ==> #[trigger] names[j] != ident@,
            decreases self.sections@.len() - i,
        {
            assert(names[i as int] == self.sections@[i as int].ident@);
            if *self.sections[i].ident() == *ident {
                proof {
                    lemma_first_name(names, ident@, i as int);
                }
                return Some(i);
            }
            i += 1;
        }
        proof {
            lemma_first_name(names, ident@, i as int);
        }
        None
    }

    /// Adds `section`. A section of that name that the program holds
    /// already is kept, and its place is the error.
    pub fn add_section(&mut self, section: Section) -> (r: Result<(), Location>)
        requires
            old(self).wf(),
            section.wf(),
        ensures
            final(self).wf(),
            final(self).types == old(self).types,
            final(self).atoms == old(self).atoms,
            match index_of_name(section_names(old(self).section_list()), section.ident@) {
                Some(i) => 0 <= i < old(self).sections@.len() && r == Err::<(), Location>(
                    old(self).section_list()[i].loc,
                ) && final(self).sections == old(self).sections,
                None => r is Ok && final(self).section_list() == old(self).section_list().push(
                    section.view(),
                ),
            },
    {
        let ghost names = section_names(self.section_list());
        proof {
            lemma_index_of_name(names, section.ident@);
        }
        match self.section_position(section.ident()) {
            Some(i) => Err(self.sections[i].loc),
            None => {
                let ghost before = self.section_list();
                self.sections.push(section);
                proof {
                    let after = self.section_list();
                    assert(after =~= before.push(section.view()));
                    assert forall|a: int, b: int| 0 <= a < b < after.len() implies (
                    #[trigger] after[a]).ident != (#[trigger] after[b]).ident by {
                        if b < before.len() {
                            assert(before[a].ident != before[b].ident);
                        } else {
                            assert(names[a] == before[a].ident);
                        }
                    }
                    assert forall|a: int| 0 <= a < after.len() implies (#[trigger] after[a]).wf() by {
                        if a < before.len() {
                            assert(before[a].wf());
                        }
                    }
                    assert(self.atom_names() == old(self).atom_names());
                }
                Ok(())
            },
        }
    }

    /// The id of the atom `atom`, which is entered if it is new.
    pub fn add_atom(&mut self, atom: String) -> (r: AtomIndex)
        requires
            old(self).wf(),
            old(self).atoms@.len() < u32::MAX,
        ensures
            final(self).wf(),
            final(self).types == old(self).types,
            final(self).sections == old(self).sections,
            match index_of_name(old(self).atom_names(), atom@) {
                Some(i) => r == i && 0 <= i < old(self).atoms@.len() && final(self).atoms == old(self).atoms,
                None => r == old(self).atoms@.len() && final(self).atom_names() == old(self).atom_names().push(atom@),
            },
    {
        let ghost names = self.atom_names();
        proof {
            lemma_index_of_name(names, atom@);
        }
        match self.find_atom(&atom) {
            Some(i) => i,
            None => {
                self.atoms.push(atom);
                proof {
                    let after = self.atom_names();
                    assert(after =~= names.push(atom@));
                    assert forall|a: int, b: int| 0 <= a < b < after.len() implies (
                    #[trigger] after[a]) != (#[trigger] after[b]) by {
                        if b < names.len() {
                            assert(names[a] != names[b]);
                        } else {
                            assert(names[a] != atom@);
                        }
                    }
                    assert(self.section_list() == old(self).section_list());
                }
                (self.atoms.len() - 1) as u32
            },
        }
    }

    /// The id of the atom `atom`, if it was entered.
    pub fn find_atom(&self, atom: &String) -> (r: Option<AtomIndex>)
        requires
            self.atoms@.len() <= u32::MAX,
        ensures
            match r {
                Some(i) => index_of_name(self.atom_names(), atom@) == Some(i as int),
                None => index_of_name(self.atom_names(), atom@) is None,
            },
    {
        let ghost names = self.atom_names();
        let mut i: usize = 0;
        while i < self.atoms.len()
            invariant
                i <= self.atoms@.len(),
                self.atoms@.len() <= u32::MAX,
                names == self.atom_names(),
                forall|j: int| 0 <= j < i ==> #[trigger] names[j] != atom@,
            decreases self.atoms@.len() - i,
        {
            assert(names[i as int] == self.atoms@[i as int]@);
            if self.atoms[i] == *atom {
                proof {
                    lemma_first_name(names, atom@, i as int);
                }
                return Some(i as u32);
            }
            i += 1;
        }
        proof {
            lemma_first_name(names, atom@, i as int);
        }
        None
    }

    /// As `add_atom`; `None`, and no change, where the atom is new and the
    /// table of atoms is full.
    pub fn intern_atom(&mut self, atom: String) -> (r: Option<AtomIndex>)
        requires
            old(self).wf(),
        ensures
            final(self).wf(),
            final(self).types == old(self).types,
            final(self).sections == old(self).sections,
            match index_of_name(old(self).atom_names(), atom@) {
                Some(i) => r == Some(i as u32) && 0 <= i < old(self).atoms@.len() && final(self).atoms == old(self).atoms,
                None => if old(self).atoms@.len() < u32::MAX {
                    r == Some(old(self).atoms@.len() as u32) && final(self).atom_names() == old(self).atom_names().push(atom@)
                } else {
                    r is None && final(self).atoms == old(self).atoms
                },
            },
    {
        proof {
            lemma_index_of_name(self.atom_names(), atom@);
        }
        if self.atoms.len() < 0xffff_ffff {
            Some(self.add_atom(atom))
        } else {
            self.find_atom(&atom)
        }
    }

    pub fn types(&self) -> (r: &TypeList)
        ensures
            *r == self.types,
    {
        &self.types
    }

    pub fn types_mut(&mut self) -> (r: &mut TypeList)
        ensures
            *r == old(self).types,
            *final(self) == (Program { types: *final(r), ..*old(self) }),
    {
        &mut self.types
    }

    pub fn sections(&self) -> (r: &Vec<Section>)
        ensures
            *r == self.sections,
    {
        &self.sections
    }

    pub fn atoms(&self) -> (r: &Vec<String>)
        ensures
            *r == self.atoms,
    {
        &self.atoms
    }
}

impl Default for Program {
    fn default() -> (p: Self)
        ensures
            p.wf(),
            p.sections@.len() == 0,
            p.atoms@.len() == 0,
    {
        Program::new()
    }
}

} // verus!
