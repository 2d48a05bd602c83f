//! Parsing of sections and declarations.

use vstd::prelude::*;
use crate::ast::expr::Expr;
use crate::ast::pattern::{pattern_views, Pattern};
use crate::ast::stmt::Stmt;
use crate::ast::types::{grown, lemma_grown_on, TypeIndex, TypeKind, UNIT_TYPE};
use crate::ast::{
    body_expr_views, body_stmt_views, lemma_body_expr_views_push, lemma_body_stmt_views_push,
    lemma_param_views_push, param_views, value_view, BasicFunctionBody, Decl, Function,
    FunctionBody, IntoDecl, Param, PlacedName, Section,
};
use crate::grammar;
use crate::parser::context::StmtContext;
use crate::parser::expr::check_arity;
use crate::parser::{ended, fail, fails_with, ParseError, ParseResult, Parser};
use crate::source_file::{Located, Location};
use crate::token::{kind_views, TokenKind};

verus! {

impl Parser {
    /// What `parse_section` and `parse` keep: the tokens, a cursor that
    /// never goes back, well-formedness, the sections and the warnings so
    /// far; the tables of types and of atoms only grow.
    pub open spec fn extends(&self, before: &Parser) -> bool {
        &&& self.wf()
        &&& self.tokens == before.tokens
        &&& self.pos >= before.pos
        &&& before.ast.section_list().is_prefix_of(self.ast.section_list())
        &&& before.warnings@.is_prefix_of(self.warnings@)
        &&& before.ast.atom_names().is_prefix_of(self.ast.atom_names())
        &&& grown(before.ast.types@, self.ast.types@)
    }

    /// Parses the whole input: the first step, from the token before the
    /// input, then sections up to the end. A section whose name the program
    /// holds already fails with `Redefinition`.
    #[verifier::loop_isolation(false)]
    pub fn parse(&mut self) -> (r: ParseResult<()>)
        requires
            old(self).wf(),
        ensures
            final(self).extends(old(self)),
            r is Ok ==> final(self).cur().kind is Eof,
            ended(r, final(self).ast.section_list(), final(self).cursor())
                == grammar::decls::program(
                old(self).input(),
                old(self).cursor(),
                old(self).ast.section_list(),
            ),
    {
        if let Err(e) = self.advance() {
            return Err(e);
        }
        let ghost goal = grammar::decls::sections_from(
            self.input(),
            self.cursor(),
            self.ast.section_list(),
        );
        while !self.tokens[self.pos].is_eof()
            invariant
                self.extends(old(self)),
                grammar::decls::sections_from(
                    self.input(),
                    self.cursor(),
                    self.ast.section_list(),
                ) == goal,
            decreases self.remaining(),
        {
            if let Err(e) = self.parse_section() {
                return Err(e);
            }
        }
        Ok(())
    }

    /// `section <ident>` and what belongs to it: `require`s, type aliases
    /// and declarations, up to the next `section` or the end. A `require`
    /// after a declaration is warned of; a second declaration of a name
    /// fails with `Redefinition`, which cites the place of the first.
    #[verifier::loop_isolation(false)]
    #[verifier::rlimit(30)]
    pub fn parse_section(&mut self) -> (r: ParseResult<()>)
        requires
            old(self).wf(),
        ensures
            final(self).extends(old(self)),
            r is Ok ==> final(self).pos > old(self).pos,
            r is Ok ==> final(self).ast.section_list().len() == old(self).ast.section_list().len()
                + 1 && final(self).ast.section_list() == old(self).ast.section_list().push(
                final(self).ast.section_list().last(),
            ),
            r is Err ==> final(self).ast.section_list() == old(self).ast.section_list(),
            ended(r, final(self).ast.section_list().last(), final(self).cursor())
                == grammar::decls::section(
                old(self).input(),
                old(self).cursor(),
                old(self).ast.section_list(),
            ),
    {
        let section_loc = self.tokens[self.pos].loc;
        if let Err(e) = self.expect_kind(TokenKind::Section) {
            return Err(e);
        }
        let name = match self.expect_ident() {
            Ok(n) => n,
            Err(e) => {
                return Err(e);
            },
        };
        let mut section = Section::new(name, section_loc);
        let mut had_decls = false;
        let ghost goal = grammar::decls::section_items(
            self.input(),
            self.cursor(),
            section.view(),
            false,
        );
        let mut more = true;
        proof {
            lemma_grown_on(old(self).ast.types@, old(self).ast.types@, self.ast.types@);
        }
        while more
            invariant
                self.declares(old(self)),
                self.pos > old(self).pos,
                section.wf(),
                section.loc == section_loc,
                section.ident@ == name@,
                grammar::decls::section_items(
                    self.input(),
                    self.cursor(),
                    section.view(),
                    had_decls,
                ) == goal,
                !more ==> goal == grammar::Parsed::Done(section.view(), self.cursor()),
            decreases self.remaining(), (if more { 1nat } else { 0nat }),
        {
            if self.at(&TokenKind::Eof) || self.at(&TokenKind::Section) {
                more = false;
            } else if self.at(&TokenKind::Require) {
                if had_decls {
                    let loc = self.tokens[self.pos].loc;
                    self.push_warning(Located::with_location(ParseError::RequireAfterDecl, loc));
                }
                match self.parse_require() {
                    Ok(r) => section.add_require(r),
                    Err(e) => {
                        return Err(e);
                    },
                }
            } else if self.at(&TokenKind::Type) {
                had_decls = true;
                let ghost types = self.ast.types@;
                let declared = self.parse_type_alias();
                proof {
                    lemma_grown_on(old(self).ast.types@, types, self.ast.types@);
                }
                if let Err(e) = declared {
                    return Err(e);
                }
            } else {
                let ghost types = self.ast.types@;
                let parsed = self.parse_decl();
                proof {
                    lemma_grown_on(old(self).ast.types@, types, self.ast.types@);
                }
                let decl = match parsed {
                    Ok(d) => d,
                    Err(e) => {
                        return Err(e);
                    },
                };
                let previous = match section.defines(decl.ident()) {
                    Some(prev) => Some(*prev.location()),
                    None => None,
                };
                if let Some(first) = previous {
                    let name = decl.ident().clone();
                    return fail(ParseError::Redefinition(first, name), *decl.location());
                }
                section.declare(decl);
                had_decls = true;
            }
        }
        let name = section.ident().clone();
        match self.ast.add_section(section) {
            Ok(_) => Ok(()),
            Err(first) => fail(ParseError::Redefinition(first, name), section_loc),
        }
    }

    /// `require <ident>`: the name of a section, at the place of the
    /// keyword.
    pub fn parse_require(&mut self) -> (r: ParseResult<Located<String>>)
        requires
            old(self).wf(),
        ensures
            final(self).moved(old(self)),
            r is Ok ==> final(self).pos > old(self).pos,
            ended(
                r,
                PlacedName { name: r->Ok_0.inner@, loc: r->Ok_0.loc },
                final(self).cursor(),
            ) == grammar::decls::require(old(self).input(), old(self).cursor()),
    {
        let loc = self.tokens[self.pos].loc;
        if let Err(e) = self.expect_kind(TokenKind::Require) {
            return Err(e);
        }
        match self.expect_ident() {
            Ok(name) => Ok(Located::with_location(name, loc)),
            Err(e) => Err(e),
        }
    }

    /// A declaration: `let` and a function, or `and` and a function that
    /// continues the one before. The other kinds of declaration are not
    /// provided for.
    pub fn parse_decl(&mut self) -> (r: ParseResult<Decl>)
        requires
            old(self).wf(),
        ensures
            final(self).follows(old(self)),
            r is Ok ==> final(self).pos > old(self).pos,
            ended(r, r->Ok_0.view(), final(self).cursor()) == grammar::decls::decl(
                old(self).input(),
                old(self).cursor(),
            ),
    {
        let loc = self.tokens[self.pos].loc;
        let mut want: Vec<TokenKind> = Vec::new();
        want.push(TokenKind::Let);
        want.push(TokenKind::And);
        want.push(TokenKind::Global);
        want.push(TokenKind::Manifest);
        want.push(TokenKind::Static);
        assert(kind_views(want@) =~= grammar::decls::decl_keywords());
        let decl_tok = match self.expect(&want) {
            Ok(t) => t,
            Err(e) => {
                return Err(e);
            },
        };
        match decl_tok.kind {
            TokenKind::Let => match self.parse_function_decl(loc, false) {
                Ok(f) => Ok(f.into_decl()),
                Err(e) => Err(e),
            },
            TokenKind::And => match self.parse_function_decl(loc, true) {
                Ok(f) => Ok(f.into_decl()),
                Err(e) => Err(e),
            },
            _ => fail(ParseError::NotImplemented, loc),
        }
    }

    /// A function: its name, its parameters in parentheses if it has any,
    /// and its body. The return type is that of the body.
    pub fn parse_function_decl(&mut self, decl_loc: Location, tailcall_recursive: bool) -> (r:
        ParseResult<Function>)
        requires
            old(self).wf(),
        ensures
            final(self).follows(old(self)),
            r is Ok ==> final(self).pos > old(self).pos,
            ended(r, r->Ok_0.view(), final(self).cursor()) == grammar::decls::function_decl(
                old(self).input(),
                old(self).cursor(),
                decl_loc,
                tailcall_recursive,
            ),
    {
        let ident = match self.expect_ident() {
            Ok(i) => i,
            Err(e) => {
                return Err(e);
            },
        };
        let params = match self.parse_param_list() {
            Ok(p) => p,
            Err(e) => {
                return Err(e);
            },
        };
        let mut context = StmtContext::function(params.len());
        let body = if self.at(&TokenKind::Colon) {
            match self.parse_pattern_matched_body(&mut context, params.len()) {
                Ok(b) => b,
                Err(e) => {
                    return Err(e);
                },
            }
        } else {
            match self.parse_function_body(&mut context) {
                Ok(b) => FunctionBody::from(b),
                Err(e) => {
                    return Err(e);
                },
            }
        };
        let return_type = self.get_return_type(&body);
        Ok(Function::new(decl_loc, ident, params, return_type, tailcall_recursive, body))
    }

    /// The parameters of a function: nothing, or a list of parameters in
    /// parentheses.
    #[verifier::loop_isolation(false)]
    pub fn parse_param_list(&mut self) -> (r: ParseResult<Vec<Param>>)
        requires
            old(self).wf(),
        ensures
            final(self).follows(old(self)),
            ended(r, param_views(r->Ok_0@), final(self).cursor()) == grammar::decls::param_list(
                old(self).input(),
                old(self).cursor(),
            ),
    {
        let mut elems: Vec<Param> = Vec::new();
        assert(param_views(elems@) =~= Seq::empty());
        if !self.at(&TokenKind::LParen) {
            return Ok(elems);
        }
        if let Err(e) = self.take() {
            return Err(e);
        }
        let ghost goal = grammar::decls::param_items(self.input(), self.cursor(), Seq::empty());
        while !self.at(&TokenKind::RParen)
            invariant
                self.follows(old(self)),
                self.pos > old(self).pos,
                grammar::decls::param_items(self.input(), self.cursor(), param_views(elems@))
                    == goal,
            decreases self.remaining(),
        {
            let elem = match self.parse_function_param() {
                Ok(p) => p,
                Err(e) => {
                    return Err(e);
                },
            };
            proof {
                lemma_param_views_push(elems@, elem);
            }
            elems.push(elem);
            let closed = match self.expect_either(TokenKind::RParen, TokenKind::Comma) {
                Ok(t) => matches!(t.kind, TokenKind::RParen),
                Err(e) => {
                    return Err(e);
                },
            };
            if closed {
                return Ok(elems);
            }
        }
        if let Err(e) = self.take() {
            return Err(e);
        }
        Ok(elems)
    }

    /// The type of a parameter, if it is declared: `::` and a type.
    pub fn parse_param_type(&mut self) -> (r: ParseResult<Option<TypeIndex>>)
        requires
            old(self).wf(),
        ensures
            final(self).follows(old(self)),
            ended(r, r->Ok_0, final(self).cursor()) == grammar::decls::param_type(
                old(self).input(),
                old(self).cursor(),
            ),
    {
        if self.at(&TokenKind::Of) {
            if let Err(e) = self.take() {
                return Err(e);
            }
            match self.parse_type() {
                Ok(t) => Ok(Some(t)),
                Err(e) => Err(e),
            }
        } else {
            Ok(None)
        }
    }

    /// The default value of a parameter, if it has one: `=` and an
    /// expression.
    pub fn parse_param_default(&mut self) -> (r: ParseResult<Option<Expr>>)
        requires
            old(self).wf(),
        ensures
            final(self).follows(old(self)),
            ended(r, value_view(r->Ok_0), final(self).cursor()) == grammar::decls::param_default(
                old(self).input(),
                old(self).cursor(),
            ),
    {
        if self.at(&TokenKind::Eq) {
            if let Err(e) = self.take() {
                return Err(e);
            }
            let mut context = StmtContext::empty();
            match self.parse_expr(&mut context) {
                Ok(x) => Ok(Some(x)),
                Err(e) => Err(e),
            }
        } else {
            Ok(None)
        }
    }

    /// A parameter: `<ident> [:: <type>] [= <default>]`. One of type and
    /// default has to be there; where both are, the default is coerced to
    /// the type.
    pub fn parse_function_param(&mut self) -> (r: ParseResult<Param>)
        requires
            old(self).wf(),
        ensures
            final(self).follows(old(self)),
            r is Ok ==> final(self).pos > old(self).pos,
            ended(r, r->Ok_0.view(), final(self).cursor()) == grammar::decls::param(
                old(self).input(),
                old(self).cursor(),
            ),
    {
        let loc = self.tokens[self.pos].loc;
        let ident = match self.expect_ident() {
            Ok(i) => i,
            Err(e) => {
                return Err(e);
            },
        };
        let typ = match self.parse_param_type() {
            Ok(t) => t,
            Err(e) => {
                return Err(e);
            },
        };
        let value = match self.parse_param_default() {
            Ok(v) => v,
            Err(e) => {
                return Err(e);
            },
        };
        match Param::named(loc, ident, typ, value) {
            Some(p) => Ok(p),
            None => fail(
                ParseError::Generic(
                    String::from_str("Parameter requires either a type or default value."),
                ),
                loc,
            ),
        }
    }

    /// The body of a function without patterns: `= <expr>` with an optional
    /// semicolon, or `be <stmt>`.
    pub fn parse_function_body(&mut self, context: &mut StmtContext) -> (r: ParseResult<
        BasicFunctionBody,
    >)
        requires
            old(self).wf(),
            old(context).wf(),
        ensures
            final(self).follows(old(self)),
            final(context).follows(old(context)),
            r is Ok ==> final(self).pos > old(self).pos,
            ended(r, r->Ok_0.view(), final(self).cursor()) == grammar::decls::function_body(
                old(self).input(),
                old(self).cursor(),
                old(context)@,
            ),
    {
        let is_expr = match self.expect_either(TokenKind::Eq, TokenKind::Be) {
            Ok(t) => matches!(t.kind, TokenKind::Eq),
            Err(e) => {
                return Err(e);
            },
        };
        if is_expr {
            let expr = match self.parse_expr(context) {
                Ok(x) => x,
                Err(e) => {
                    return Err(e);
                },
            };
            if let Err(e) = self.take_if(TokenKind::Semicolon) {
                return Err(e);
            }
            Ok(BasicFunctionBody::Expr(expr))
        } else {
            match self.parse_stmt(context) {
                Ok(s) => Ok(BasicFunctionBody::Stmt(s)),
                Err(e) => Err(e),
            }
        }
    }

    /// Fails with `WrongNumOfPatterns`, at the first pattern, unless there
    /// are as many patterns as the function has parameters.
    pub fn check_correct_pattern_length(
        &self,
        patterns: &Vec<Located<Pattern>>,
        num_params: usize,
    ) -> (r: ParseResult<()>)
        requires
            patterns@.len() >= 1,
        ensures
            match grammar::decls::arity_error(pattern_views(patterns@), num_params) {
                Some((e, l)) => fails_with(r, l, e),
                None => r is Ok,
            },
    {
        check_arity(patterns, num_params, patterns[0].loc)
    }

    /// The branches `: patterns be stmt` of a function, the patterns of the
    /// first one and its `be` having been read.
    #[verifier::loop_isolation(false)]
    pub fn parse_pattern_matched_stmt_body(
        &mut self,
        context: &mut StmtContext,
        first_pattern: Vec<Located<Pattern>>,
        num_params: usize,
    ) -> (r: ParseResult<FunctionBody>)
        requires
            old(self).wf(),
            old(context).wf(),
            first_pattern@.len() >= 1,
        ensures
            final(self).follows(old(self)),
            final(context).follows(old(context)),
            r is Ok ==> final(self).pos > old(self).pos,
            ended(r, r->Ok_0.view(), final(self).cursor()) == grammar::decls::matched_stmt_body(
                old(self).input(),
                old(self).cursor(),
                old(context)@,
                pattern_views(first_pattern@),
                num_params,
            ),
    {
        if let Err(e) = self.check_correct_pattern_length(&first_pattern, num_params) {
            return Err(e);
        }
        proof {
        }
        let mut branches: Vec<(Vec<Located<Pattern>>, Stmt)> = Vec::new();
        match self.parse_stmt(context) {
            Ok(s) => {
                branches.push((first_pattern, s));
                assert(body_stmt_views(branches@) =~= seq![
                    (crate::ast::pattern::pattern_views(first_pattern@), s.view()),
                ]);
            },
            Err(e) => {
                return Err(e);
            },
        }
        let ghost goal = grammar::decls::body_stmt_items(
            self.input(),
            self.cursor(),
            context@,
            num_params,
            body_stmt_views(branches@),
        );
        let mut more = true;
        while more
            invariant
                self.follows(old(self)),
                context.follows(old(context)),
                self.pos > old(self).pos,
                grammar::decls::body_stmt_items(
                    self.input(),
                    self.cursor(),
                    context@,
                    num_params,
                    body_stmt_views(branches@),
                ) == goal,
                !more ==> goal == grammar::Parsed::Done(body_stmt_views(branches@), self.cursor()),
            decreases self.remaining(), (if more { 1nat } else { 0nat }),
        {
            more = match self.take_if(TokenKind::Colon) {
                Ok(b) => b,
                Err(e) => {
                    return Err(e);
                },
            };
            if !more {
                continue ;
            }
            let pattern = match self.parse_pattern_list() {
                Ok(p) => p,
                Err(e) => {
                    return Err(e);
                },
            };
            if let Err(e) = self.expect_kind(TokenKind::Be) {
                return Err(e);
            }
            let stmt = match self.parse_stmt(context) {
                Ok(s) => s,
                Err(e) => {
                    return Err(e);
                },
            };
            if let Err(e) = self.check_correct_pattern_length(&pattern, num_params) {
                return Err(e);
            }
            proof {
                lemma_body_stmt_views_push(branches@, (pattern, stmt));
            }
            branches.push((pattern, stmt));
        }
        Ok(FunctionBody::PatternMatchedStmt(branches))
    }

    /// The branches `: patterns => expr` of a function, the patterns of the
    /// first one and its `=>` having been read. The expression of each
    /// later branch is coerced to the type of the first.
    #[verifier::loop_isolation(false)]
    pub fn parse_pattern_matched_expr_body(
        &mut self,
        context: &mut StmtContext,
        first_pattern: Vec<Located<Pattern>>,
        num_params: usize,
    ) -> (r: ParseResult<FunctionBody>)
        requires
            old(self).wf(),
            old(context).wf(),
            first_pattern@.len() >= 1,
        ensures
            final(self).follows(old(self)),
            final(context).follows(old(context)),
            r is Ok ==> final(self).pos > old(self).pos,
            ended(r, r->Ok_0.view(), final(self).cursor()) == grammar::decls::matched_expr_body(
                old(self).input(),
                old(self).cursor(),
                old(context)@,
                pattern_views(first_pattern@),
                num_params,
            ),
    {
        if let Err(e) = self.check_correct_pattern_length(&first_pattern, num_params) {
            return Err(e);
        }
        proof {
        }
        let mut branches: Vec<(Vec<Located<Pattern>>, Expr)> = Vec::new();
        let typ = match self.parse_expr(context) {
            Ok(x) => {
                let typ = x.typ;
                branches.push((first_pattern, x));
                assert(body_expr_views(branches@) =~= seq![
                    (crate::ast::pattern::pattern_views(first_pattern@), x.view()),
                ]);
                typ
            },
            Err(e) => {
                return Err(e);
            },
        };
        let ghost goal = grammar::decls::body_expr_items(
            self.input(),
            self.cursor(),
            context@,
            num_params,
            typ,
            body_expr_views(branches@),
        );
        let mut more = true;
        while more
            invariant
                self.follows(old(self)),
                context.follows(old(context)),
                self.pos > old(self).pos,
                grammar::decls::body_expr_items(
                    self.input(),
                    self.cursor(),
                    context@,
                    num_params,
                    typ,
                    body_expr_views(branches@),
                ) == goal,
                !more ==> goal == grammar::Parsed::Done(body_expr_views(branches@), self.cursor()),
            decreases self.remaining(), (if more { 1nat } else { 0nat }),
        {
            more = match self.take_if(TokenKind::Colon) {
                Ok(b) => b,
                Err(e) => {
                    return Err(e);
                },
            };
            if !more {
                continue ;
            }
            let pattern = match self.parse_pattern_list() {
                Ok(p) => p,
                Err(e) => {
                    return Err(e);
                },
            };
            if let Err(e) = self.expect_kind(TokenKind::Arrow) {
                return Err(e);
            }
            let expr = match self.parse_expr(context) {
                Ok(x) => x.coerce(typ),
                Err(e) => {
                    return Err(e);
                },
            };
            if let Err(e) = self.check_correct_pattern_length(&pattern, num_params) {
                return Err(e);
            }
            proof {
                lemma_body_expr_views_push(branches@, (pattern, expr));
            }
            branches.push((pattern, expr));
        }
        Ok(FunctionBody::PatternMatchedExpr(branches))
    }

    /// A body of branches: `: patterns`, then `=> expr` or `be stmt`, which
    /// decides for all branches.
    pub fn parse_pattern_matched_body(&mut self, context: &mut StmtContext, num_params: usize) -> (r:
        ParseResult<FunctionBody>)
        requires
            old(self).wf(),
            old(context).wf(),
        ensures
            final(self).follows(old(self)),
            final(context).follows(old(context)),
            r is Ok ==> final(self).pos > old(self).pos,
            ended(r, r->Ok_0.view(), final(self).cursor()) == grammar::decls::matched_body(
                old(self).input(),
                old(self).cursor(),
                old(context)@,
                num_params,
            ),
    {
        if let Err(e) = self.expect_kind(TokenKind::Colon) {
            return Err(e);
        }
        let pattern = match self.parse_pattern_list() {
            Ok(p) => p,
            Err(e) => {
                return Err(e);
            },
        };
        let is_stmt = match self.expect_either(TokenKind::Arrow, TokenKind::Be) {
            Ok(t) => matches!(t.kind, TokenKind::Be),
            Err(e) => {
                return Err(e);
            },
        };
        if is_stmt {
            self.parse_pattern_matched_stmt_body(context, pattern, num_params)
        } else {
            self.parse_pattern_matched_expr_body(context, pattern, num_params)
        }
    }

    /// The type that a body gives its function.
    pub fn get_return_type(&self, body: &FunctionBody) -> (r: Option<TypeIndex>)
        requires
            self.wf(),
        ensures
            r == body.view().result_type(UNIT_TYPE),
    {
        let unit = self.builtin(TypeKind::Unit);
        body.return_type(unit)
    }
}

} // verus!
