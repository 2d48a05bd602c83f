//! Parsing of types and of type aliases.

use vstd::prelude::*;
use crate::ast::types::{
    builtin_named, declared, grown, index_of_alias, is_alias_named, lemma_alias_kept,
    lemma_first_alias, lemma_grown_on, lemma_index_of_alias, no_alias_before, variant_views,
    AliasError, SumVariant, TypeIndex, TypeKind, TypeKindView, TypeView,
};
use crate::grammar;
use crate::parser::context::StmtContext;
use crate::parser::{ended, fail, ParseError, ParseErrorView, ParseResult, Parser};
use crate::source_file::Location;
use crate::token::TokenKind;

verus! {

impl Parser {
    /// The index of a builtin type.
    pub fn builtin(&self, kind: TypeKind) -> (r: TypeIndex)
        requires
            self.wf(),
            kind.view().is_builtin(),
        ensures
            Some(r) == kind.view().builtin_index(),
    {
        self.ast.types.builtin(&kind)
    }

    /// What a step of the type table keeps: all but the table, which gets
    /// entries at its end.
    pub open spec fn entered(&self, before: &Parser) -> bool {
        &&& self.follows(before)
        &&& self.pos == before.pos
        &&& self.warnings == before.warnings
        &&& self.ast.atoms == before.ast.atoms
    }

    /// What the declaration of an alias keeps: what every step keeps, but
    /// that an alias without a target may have got its target and its
    /// place.
    pub open spec fn declares(&self, before: &Parser) -> bool {
        &&& self.wf()
        &&& self.tokens == before.tokens
        &&& self.pos >= before.pos
        &&& self.ast.sections == before.ast.sections
        &&& before.warnings@.is_prefix_of(self.warnings@)
        &&& before.ast.atom_names().is_prefix_of(self.ast.atom_names())
        &&& grown(before.ast.types@, self.ast.types@)
    }

    /// The index of the type of the given kind, which is entered in the
    /// table if it is new. Fails, at the token under the cursor, where the
    /// table is full.
    pub fn get_type(&mut self, typ: TypeKind) -> (r: ParseResult<TypeIndex>)
        requires
            old(self).wf(),
            !(typ is Alias),
        ensures
            final(self).entered(old(self)),
            ended(r, r->Ok_0, final(self).cursor()) == grammar::get_type(
                old(self).input(),
                old(self).cursor(),
                typ.view(),
            ),
    {
        proof {
            crate::ast::types::lemma_steps_grow(
                self.ast.types@,
                typ.view(),
                Seq::empty(),
                Location { source_file_id: 0, line: 0, column: 0, width: 0 },
                0,
            );
            crate::ast::types::lemma_index_of_kind(self.ast.types@, typ.view());
        }
        match self.ast.types.intern(typ) {
            Some(i) => Ok(i),
            None => fail(
                ParseError::Generic(String::from_str("The type table is full.")),
                self.tokens[self.pos].loc,
            ),
        }
    }

    pub fn pointer_to(&mut self, typ: TypeIndex) -> (r: ParseResult<TypeIndex>)
        requires
            old(self).wf(),
        ensures
            final(self).entered(old(self)),
            ended(r, r->Ok_0, final(self).cursor()) == grammar::get_type(
                old(self).input(),
                old(self).cursor(),
                TypeKindView::Pointer(typ),
            ),
    {
        self.get_type(TypeKind::Pointer(typ))
    }

    /// The type of a string literal: a pointer to `Char`.
    pub fn get_string_type(&mut self) -> (r: ParseResult<TypeIndex>)
        requires
            old(self).wf(),
        ensures
            final(self).entered(old(self)),
            ended(r, r->Ok_0, final(self).cursor()) == grammar::types::string_type(
                old(self).input(),
                old(self).cursor(),
            ),
    {
        let ch = self.builtin(TypeKind::Char);
        self.pointer_to(ch)
    }

    /// Resolves a type identifier: a builtin type, a known alias, or a new
    /// placeholder for an alias that is declared later. A name that is used
    /// before its declaration is no error: it gets the next index, and an
    /// alias without target and without place stands there.
    pub fn type_ident(&mut self, ident: String) -> (r: ParseResult<TypeIndex>)
        requires
            old(self).wf(),
        ensures
            final(self).entered(old(self)),
            ended(r, r->Ok_0, final(self).cursor()) == grammar::types::type_ident(
                old(self).input(),
                old(self).cursor(),
                ident@,
            ),
            builtin_named(ident@) is None && index_of_alias(old(self).ast.types@, ident@) is None
                && old(self).ast.types@.len() < u32::MAX ==> r is Ok && r->Ok_0 == old(
                self,
            ).ast.types@.len() && final(self).ast.types@ == old(self).ast.types@.push(
                TypeView::fresh(None, TypeKindView::Alias(ident@, None)),
            ),
    {
        proof {
            crate::ast::types::lemma_steps_grow(
                self.ast.types@,
                TypeKindView::Unit,
                ident@,
                Location { source_file_id: 0, line: 0, column: 0, width: 0 },
                0,
            );
            crate::ast::types::lemma_index_of_alias(self.ast.types@, ident@);
        }
        match self.ast.types.resolve(ident) {
            Some(i) => Ok(i),
            None => fail(
                ParseError::Generic(String::from_str("The type table is full.")),
                self.tokens[self.pos].loc,
            ),
        }
    }

    /// Enters the alias `alias = target`, declared at `loc`, in the type
    /// table. A second declaration of a name fails with `Redefinition`,
    /// which cites the place of the first.
    pub fn define_alias(&mut self, alias: String, loc: Location, target: TypeIndex) -> (r:
        ParseResult<()>)
        requires
            old(self).wf(),
        ensures
            final(self).declares(old(self)),
            final(self).pos == old(self).pos,
            r is Err ==> final(self).ast.types@ == old(self).ast.types@,
            ended(r, (), final(self).cursor()) == grammar::types::define_alias(
                old(self).cursor(),
                alias@,
                loc,
                target,
            ),
    {
        proof {
            crate::ast::types::lemma_steps_grow(
                self.ast.types@,
                TypeKindView::Unit,
                alias@,
                loc,
                target,
            );
        }
        let name = alias.clone();
        match self.ast.types.declare_alias(alias, loc, target) {
            Ok(_) => Ok(()),
            Err(AliasError::Redefined(first)) => fail(ParseError::Redefinition(first, name), loc),
            Err(AliasError::TableFull) => fail(
                ParseError::Generic(String::from_str("The type table is full.")),
                loc,
            ),
        }
    }

    /// `type <ident> = <type>`. Where the declaration can be read up to the
    /// end of its type: a name that was declared before is refused with
    /// `Redefinition`, which cites the place of the first declaration, and
    /// the alias stays as it was; a name that was only used before gets its
    /// target and its place, at the index that it had.
    pub fn parse_type_alias(&mut self) -> (r: ParseResult<()>)
        requires
            old(self).wf(),
        ensures
            final(self).declares(old(self)),
            r is Ok ==> final(self).pos > old(self).pos,
            ended(r, (), final(self).cursor()) == grammar::types::type_alias(
                old(self).input(),
                old(self).cursor(),
            ),
            grammar::types::alias_head(old(self).input(), old(self).cursor()) matches Some(
                (name, loc, target, _),
            ) ==> (index_of_alias(old(self).ast.types@, name) matches Some(i) ==> index_of_alias(
                final(self).ast.types@,
                name,
            ) == Some(i) && (match old(self).ast.types@[i].loc {
                Some(first) => r is Err && r->Err_0.inner.view() == ParseErrorView::Redefinition(
                    first,
                    name,
                ) && r->Err_0.loc == loc && final(self).ast.types@[i] == old(self).ast.types@[i],
                None => r is Ok && final(self).ast.types@[i].kind == TypeKindView::Alias(
                    name,
                    Some(target),
                ) && final(self).ast.types@[i].loc == Some(loc),
            })),
    {
        if let Err(e) = self.expect_kind(TokenKind::Type) {
            return Err(e);
        }
        let loc = self.tokens[self.pos].loc;
        let alias = match self.expect_ident() {
            Ok(a) => a,
            Err(e) => {
                return Err(e);
            },
        };
        if let Err(e) = self.expect_kind(TokenKind::Eq) {
            return Err(e);
        }
        let typ = match self.parse_type() {
            Ok(t) => t,
            Err(e) => {
                return Err(e);
            },
        };
        proof {
            let name = alias@;
            if index_of_alias(old(self).ast.types@, name) is Some {
                let i = index_of_alias(old(self).ast.types@, name)->Some_0;
                lemma_alias_kept(old(self).ast.types@, self.ast.types@, name, i);
                let read = self.ast.types@;
                let after = declared(read, name, loc, typ);
                assert(index_of_alias(after, name) == Some(i)) by {
                    lemma_index_of_alias(read, name);
                    assert(no_alias_before(after, name, i)) by {
                        assert forall|j: int| 0 <= j < i implies !is_alias_named(
                            (#[trigger] after[j]).kind,
                            name,
                        ) by {
                            assert(after[j] == read[j]);
                        }
                    }
                    lemma_first_alias(after, name, i);
                }
            }
            lemma_grown_on(old(self).ast.types@, old(self).ast.types@, self.ast.types@);
        }
        let ghost types = self.ast.types@;
        let r = self.define_alias(alias, loc, typ);
        proof {
            lemma_grown_on(old(self).ast.types@, types, self.ast.types@);
        }
        r
    }

    /// A type: a name, a sum of variants, a type in parentheses, an array or
    /// slice type in brackets, or `&` and the type pointed to.
    pub fn parse_type(&mut self) -> (r: ParseResult<TypeIndex>)
        requires
            old(self).wf(),
        ensures
            final(self).follows(old(self)),
            r is Ok ==> final(self).pos > old(self).pos,
            ended(r, r->Ok_0, final(self).cursor()) == grammar::types::type_(
                old(self).input(),
                old(self).cursor(),
            ),
        decreases old(self).remaining(), 3nat,
    {
        let found: Option<String> = match &self.tokens[self.pos].kind {
            TokenKind::Ident(ident) => Some(ident.clone()),
            _ => None,
        };
        if let Some(ident) = found {
            if let Err(e) = self.take() {
                return Err(e);
            }
            if self.at(&TokenKind::LParen) || self.at(&TokenKind::Colon) {
                return self.parse_sum_type(ident);
            } else {
                return self.type_ident(ident);
            }
        }
        if self.at(&TokenKind::LParen) {
            if let Err(e) = self.take() {
                return Err(e);
            }
            let typ = match self.parse_type() {
                Ok(t) => t,
                Err(e) => {
                    return Err(e);
                },
            };
            if let Err(e) = self.expect_kind(TokenKind::RParen) {
                return Err(e);
            }
            Ok(typ)
        } else if self.at(&TokenKind::LBracket) {
            self.parse_array_type()
        } else if self.at(&TokenKind::LogAnd) {
            if let Err(e) = self.take() {
                return Err(e);
            }
            let inner = match self.parse_type() {
                Ok(t) => t,
                Err(e) => {
                    return Err(e);
                },
            };
            self.pointer_to(inner)
        } else {
            self.unexpected_here("type name")
        }
    }

    /// The types of the fields of a sum variant: nothing, or a list of types
    /// in parentheses.
    #[verifier::loop_isolation(false)]
    pub fn parse_type_list(&mut self) -> (r: ParseResult<Vec<TypeIndex>>)
        requires
            old(self).wf(),
        ensures
            final(self).follows(old(self)),
            ended(r, r->Ok_0@, final(self).cursor()) == grammar::types::type_list(
                old(self).input(),
                old(self).cursor(),
            ),
        decreases old(self).remaining(), 30nat,
    {
        let mut elems: Vec<TypeIndex> = Vec::new();
        if !self.at(&TokenKind::LParen) {
            assert(elems@ =~= Seq::empty());
            return Ok(elems);
        }
        if let Err(e) = self.take() {
            return Err(e);
        }
        let ghost goal = grammar::types::type_items(self.input(), self.cursor(), Seq::empty());
        assert(elems@ =~= Seq::empty());
        while !self.at(&TokenKind::RParen)
            invariant
                self.follows(old(self)),
                self.pos > old(self).pos,
                grammar::types::type_items(self.input(), self.cursor(), elems@) == goal,
            decreases self.remaining(),
        {
            let elem = match self.parse_type() {
                Ok(t) => t,
                Err(e) => {
                    return Err(e);
                },
            };
            elems.push(elem);
            let closed = match self.expect_either(TokenKind::RParen, TokenKind::Comma) {
                Ok(t) => matches!(t.kind, TokenKind::RParen),
                Err(e) => {
                    return Err(e);
                },
            };
            if closed {
                return Ok(elems);
            }
        }
        if let Err(e) = self.take() {
            return Err(e);
        }
        Ok(elems)
    }

    pub fn parse_sum_variant(&mut self, ident: String) -> (r: ParseResult<SumVariant>)
        requires
            old(self).wf(),
        ensures
            final(self).follows(old(self)),
            ended(r, r->Ok_0.view(), final(self).cursor()) == grammar::types::sum_variant(
                old(self).input(),
                old(self).cursor(),
                ident@,
            ),
        decreases old(self).remaining(), 31nat,
    {
        match self.parse_type_list() {
            Ok(fields) => Ok(SumVariant::Basic(ident, fields)),
            Err(e) => Err(e),
        }
    }

    /// A sum type: variants, each a name with the types of its fields,
    /// with `:` between them. The name of the first variant was read.
    #[verifier::loop_isolation(false)]
    pub fn parse_sum_type(&mut self, first: String) -> (r: ParseResult<TypeIndex>)
        requires
            old(self).wf(),
        ensures
            final(self).follows(old(self)),
            ended(r, r->Ok_0, final(self).cursor()) == grammar::types::sum_type(
                old(self).input(),
                old(self).cursor(),
                first@,
            ),
        decreases old(self).remaining(), 34nat,
    {
        let mut variants: Vec<SumVariant> = Vec::new();
        match self.parse_sum_variant(first) {
            Ok(v) => variants.push(v),
            Err(e) => {
                return Err(e);
            },
        }
        assert(variant_views(variants@) =~= seq![variants@[0].view()]);
        let ghost goal = grammar::types::sum_variants(
            self.input(),
            self.cursor(),
            variant_views(variants@),
        );
        while self.at(&TokenKind::Colon)
            invariant
                self.follows(old(self)),
                grammar::types::sum_variants(self.input(), self.cursor(), variant_views(variants@))
                    == goal,
            decreases self.remaining(),
        {
            if let Err(e) = self.take() {
                return Err(e);
            }
            let ident = match self.expect_ident() {
                Ok(i) => i,
                Err(e) => {
                    return Err(e);
                },
            };
            let ghost before = variant_views(variants@);
            match self.parse_sum_variant(ident) {
                Ok(v) => {
                    variants.push(v);
                    assert(variant_views(variants@) =~= before.push(v.view()));
                },
                Err(e) => {
                    return Err(e);
                },
            }
        }
        self.get_type(TypeKind::Sum(variants))
    }

    /// `[<type>]`, a slice, or `[<type>, <size>]`, an array, whose size is
    /// coerced to `UInt64`.
    pub fn parse_array_type(&mut self) -> (r: ParseResult<TypeIndex>)
        requires
            old(self).wf(),
            old(self).cur().kind is LBracket,
        ensures
            final(self).follows(old(self)),
            r is Ok ==> final(self).pos > old(self).pos,
            ended(r, r->Ok_0, final(self).cursor()) == grammar::types::array_type(
                old(self).input(),
                old(self).cursor(),
            ),
        decreases old(self).remaining(), 2nat,
    {
        if let Err(e) = self.take() {
            return Err(e);
        }
        let inner = match self.parse_type() {
            Ok(t) => t,
            Err(e) => {
                return Err(e);
            },
        };
        let sized = match self.expect_either(TokenKind::RBracket, TokenKind::Comma) {
            Ok(t) => matches!(t.kind, TokenKind::Comma),
            Err(e) => {
                return Err(e);
            },
        };
        if sized {
            let mut ctx = StmtContext::empty();
            let expr = match self.parse_expr(&mut ctx) {
                Ok(x) => x,
                Err(e) => {
                    return Err(e);
                },
            };
            if let Err(e) = self.expect_kind(TokenKind::RBracket) {
                return Err(e);
            }
            let index_type = self.builtin(TypeKind::UInt64);
            let expr = expr.coerce(Some(index_type));
            self.get_type(TypeKind::Array(inner, Box::new(expr)))
        } else {
            self.get_type(TypeKind::Slice(inner))
        }
    }
}

} // verus!
