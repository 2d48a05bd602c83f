//! Parsing of patterns, by precedence climbing over `&` and `|`.

use vstd::prelude::*;
use crate::ast::pattern::{
    lemma_pattern_views_push, pattern_views, Pattern,
    PatternTerm, TermOp,
};
use crate::grammar;
use crate::parser::context::StmtContext;
use crate::parser::precedence::{term_operator_of, PatternPrecedence};
use crate::parser::{ended, ParseResult, Parser};
use crate::source_file::Located;
use crate::token::TokenKind;

verus! {

/// The pattern of an expression, at `loc`.
pub fn basic_term(e: crate::ast::expr::Expr, loc: crate::source_file::Location) -> (r: Located<
    Pattern,
>)
    ensures
        r.loc == loc,
        r.inner.view() == crate::ast::pattern::PatternView::Term(
            crate::ast::pattern::PatternTermView::Basic(e.view()),
        ),
{
    let term = PatternTerm::Basic(e);
    assert(term.view() == crate::ast::pattern::PatternTermView::Basic(e.view()));
    let pattern = Pattern::Term(term);
    assert(pattern.view() == crate::ast::pattern::PatternView::Term(term.view()));
    Located::with_location(pattern, loc)
}

/// The pattern of a range, at `loc`.
pub fn range_term(
    lower: crate::ast::expr::Expr,
    upper: crate::ast::expr::Expr,
    loc: crate::source_file::Location,
) -> (r: Located<Pattern>)
    ensures
        r.loc == loc,
        r.inner.view() == crate::ast::pattern::PatternView::Term(
            crate::ast::pattern::PatternTermView::Range(lower.view(), upper.view()),
        ),
{
    let term = PatternTerm::Range(lower, upper);
    assert(term.view() == crate::ast::pattern::PatternTermView::Range(lower.view(), upper.view()));
    let pattern = Pattern::Term(term);
    assert(pattern.view() == crate::ast::pattern::PatternView::Term(term.view()));
    Located::with_location(pattern, loc)
}

impl Parser {
    /// A pattern.
    pub fn parse_pattern(&mut self) -> (r: ParseResult<Located<Pattern>>)
        requires
            old(self).wf(),
        ensures
            final(self).follows(old(self)),
            r is Ok ==> final(self).pos > old(self).pos,
            ended(r, (r->Ok_0.inner.view(), r->Ok_0.loc), final(self).cursor())
                == grammar::pattern::pattern(old(self).input(), old(self).cursor()),
        decreases old(self).remaining(), 17nat,
    {
        self.parse_pattern_with_precedence(PatternPrecedence::Lowest)
    }

    /// A prefix pattern, then every pattern operator that binds tighter
    /// than `precedence`, each with its right operand.
    #[verifier::loop_isolation(false)]
    pub fn parse_pattern_with_precedence(&mut self, precedence: PatternPrecedence) -> (r:
        ParseResult<Located<Pattern>>)
        requires
            old(self).wf(),
        ensures
            final(self).follows(old(self)),
            r is Ok ==> final(self).pos > old(self).pos,
            ended(r, (r->Ok_0.inner.view(), r->Ok_0.loc), final(self).cursor())
                == grammar::pattern::pattern_with(
                old(self).input(),
                old(self).cursor(),
                precedence,
            ),
        decreases old(self).remaining(), 16nat,
    {
        let mut pattern = match self.parse_prefix_pattern() {
            Ok(p) => p,
            Err(e) => {
                return Err(e);
            },
        };
        let ghost goal = grammar::pattern::pattern_chain(
            self.input(),
            self.cursor(),
            (pattern.inner.view(), pattern.loc),
            precedence,
        );
        let mut binds = true;
        while binds
            invariant
                self.follows(old(self)),
                self.pos > old(self).pos,
                grammar::pattern::pattern_chain(
                    self.input(),
                    self.cursor(),
                    (pattern.inner.view(), pattern.loc),
                    precedence,
                ) == goal,
                !binds ==> goal == grammar::Parsed::Done(
                    (pattern.inner.view(), pattern.loc),
                    self.cursor(),
                ),
            decreases self.remaining(), (if binds { 1nat } else { 0nat }),
        {
            binds = match PatternPrecedence::try_from(&self.tokens[self.pos].kind) {
                Some(p) => precedence.rank() < p.rank(),
                None => false,
            };
            if binds {
                pattern = match self.parse_infix_pattern(pattern) {
                    Ok(p) => p,
                    Err(e) => {
                        return Err(e);
                    },
                };
            }
        }
        Ok(pattern)
    }

    /// One pattern or more, with commas between them.
    #[verifier::loop_isolation(false)]
    pub fn parse_pattern_list(&mut self) -> (r: ParseResult<Vec<Located<Pattern>>>)
        requires
            old(self).wf(),
        ensures
            final(self).follows(old(self)),
            r is Ok ==> final(self).pos > old(self).pos,
            r matches Ok(list) ==> list@.len() >= 1,
            ended(r, pattern_views(r->Ok_0@), final(self).cursor())
                == grammar::pattern::pattern_list(old(self).input(), old(self).cursor()),
        decreases old(self).remaining(), 18nat,
    {
        let mut patterns: Vec<Located<Pattern>> = Vec::new();
        match self.parse_pattern() {
            Ok(p) => {
                patterns.push(p);
                assert(pattern_views(patterns@) =~= seq![(p.inner.view(), p.loc)]);
            },
            Err(e) => {
                return Err(e);
            },
        }
        let ghost goal = grammar::pattern::pattern_items(
            self.input(),
            self.cursor(),
            pattern_views(patterns@),
        );
        let mut more = true;
        while more
            invariant
                self.follows(old(self)),
                self.pos > old(self).pos,
                patterns@.len() >= 1,
                grammar::pattern::pattern_items(
                    self.input(),
                    self.cursor(),
                    pattern_views(patterns@),
                ) == goal,
                !more ==> goal == grammar::Parsed::Done(pattern_views(patterns@), self.cursor()),
            decreases self.remaining(), (if more { 1nat } else { 0nat }),
        {
            more = match self.take_if(TokenKind::Comma) {
                Ok(b) => b,
                Err(e) => {
                    return Err(e);
                },
            };
            if !more {
                continue ;
            }
            match self.parse_pattern() {
                Ok(p) => {
                    proof {
                        lemma_pattern_views_push(patterns@, p);
                    }
                    patterns.push(p);
                },
                Err(e) => {
                    return Err(e);
                },
            }
        }
        Ok(patterns)
    }

    /// A name: by itself it binds what it matches; with patterns in
    /// parentheses behind it, it is a variant.
    pub fn parse_named_pattern(&mut self, ident: String) -> (r: ParseResult<Located<Pattern>>)
        requires
            old(self).wf(),
            old(self).cur().kind is Ident,
        ensures
            final(self).follows(old(self)),
            r is Ok ==> final(self).pos > old(self).pos,
            ended(r, (r->Ok_0.inner.view(), r->Ok_0.loc), final(self).cursor())
                == grammar::pattern::named_pattern(old(self).input(), old(self).cursor(), ident@),
        decreases old(self).remaining(), 14nat,
    {
        let loc = self.tokens[self.pos].loc;
        if let Err(e) = self.take() {
            return Err(e);
        }
        let opened = match self.take_if(TokenKind::LParen) {
            Ok(b) => b,
            Err(e) => {
                return Err(e);
            },
        };
        if opened {
            let inner = match self.parse_pattern_list() {
                Ok(p) => p,
                Err(e) => {
                    return Err(e);
                },
            };
            if let Err(e) = self.expect_kind(TokenKind::RParen) {
                return Err(e);
            }
            proof {
            }
            Ok(Located::with_location(Pattern::Variant(ident, inner), loc))
        } else {
            Ok(Located::with_location(Pattern::Query(ident), loc))
        }
    }

    /// `[...]`: a list of patterns, which may be empty.
    pub fn parse_list_pattern(&mut self) -> (r: ParseResult<Located<Pattern>>)
        requires
            old(self).wf(),
            old(self).cur().kind is LBracket,
        ensures
            final(self).follows(old(self)),
            r is Ok ==> final(self).pos > old(self).pos,
            ended(r, (r->Ok_0.inner.view(), r->Ok_0.loc), final(self).cursor())
                == grammar::pattern::list_pattern(old(self).input(), old(self).cursor()),
        decreases old(self).remaining(), 14nat,
    {
        let loc = self.tokens[self.pos].loc;
        if let Err(e) = self.take() {
            return Err(e);
        }
        let closed = match self.take_if(TokenKind::RBracket) {
            Ok(b) => b,
            Err(e) => {
                return Err(e);
            },
        };
        if closed {
            let empty: Vec<Located<Pattern>> = Vec::new();
            assert(pattern_views(empty@) =~= Seq::empty());
            Ok(Located::with_location(Pattern::List(empty), loc))
        } else {
            let inner = match self.parse_pattern_list() {
                Ok(p) => p,
                Err(e) => {
                    return Err(e);
                },
            };
            if let Err(e) = self.expect_kind(TokenKind::RBracket) {
                return Err(e);
            }
            proof {
            }
            Ok(Located::with_location(Pattern::List(inner), loc))
        }
    }

    /// A pattern in parentheses; its place is that of the opening
    /// parenthesis.
    pub fn parse_group_pattern(&mut self) -> (r: ParseResult<Located<Pattern>>)
        requires
            old(self).wf(),
            old(self).cur().kind is LParen,
        ensures
            final(self).follows(old(self)),
            r is Ok ==> final(self).pos > old(self).pos,
            ended(r, (r->Ok_0.inner.view(), r->Ok_0.loc), final(self).cursor())
                == grammar::pattern::group_pattern(old(self).input(), old(self).cursor()),
        decreases old(self).remaining(), 14nat,
    {
        let loc = self.tokens[self.pos].loc;
        if let Err(e) = self.take() {
            return Err(e);
        }
        let pattern = match self.parse_pattern() {
            Ok(p) => p,
            Err(e) => {
                return Err(e);
            },
        };
        if let Err(e) = self.expect_kind(TokenKind::RParen) {
            return Err(e);
        }
        Ok(Located::with_location(pattern.unwrap(), loc))
    }

    /// An expression, or two expressions with `..` between them, a range.
    #[verifier::rlimit(30)]
    pub fn parse_term_pattern(&mut self) -> (r: ParseResult<Located<Pattern>>)
        requires
            old(self).wf(),
        ensures
            final(self).follows(old(self)),
            r is Ok ==> final(self).pos > old(self).pos,
            ended(r, (r->Ok_0.inner.view(), r->Ok_0.loc), final(self).cursor())
                == grammar::pattern::term_pattern(old(self).input(), old(self).cursor()),
        decreases old(self).remaining(), 14nat,
    {
        let loc = self.tokens[self.pos].loc;
        let expr = match self.parse_plain_expr() {
            Ok(x) => x,
            Err(e) => {
                return Err(e);
            },
        };
        let ranged = match self.take_if(TokenKind::Range) {
            Ok(b) => b,
            Err(e) => {
                return Err(e);
            },
        };
        if ranged {
            let upper = match self.parse_plain_expr() {
                Ok(x) => x,
                Err(e) => {
                    return Err(e);
                },
            };
            Ok(range_term(expr, upper, loc))
        } else {
            Ok(basic_term(expr, loc))
        }
    }

    /// An expression outside of every construct.
    pub fn parse_plain_expr(&mut self) -> (r: ParseResult<crate::ast::expr::Expr>)
        requires
            old(self).wf(),
        ensures
            final(self).follows(old(self)),
            r is Ok ==> final(self).pos > old(self).pos,
            ended(r, r->Ok_0.view(), final(self).cursor()) == grammar::pattern::plain_expr(
                old(self).input(),
                old(self).cursor(),
            ),
        decreases old(self).remaining(), 12nat,
    {
        let mut ctx = StmtContext::empty();
        self.parse_expr(&mut ctx)
    }

    /// A pattern without operators: `?`, a name, a variant with its
    /// patterns in parentheses, a list in brackets, a pattern in
    /// parentheses, a comparison, `..`, or an expression or range.
    #[verifier::rlimit(30)]
    pub fn parse_prefix_pattern(&mut self) -> (r: ParseResult<Located<Pattern>>)
        requires
            old(self).wf(),
        ensures
            final(self).follows(old(self)),
            r is Ok ==> final(self).pos > old(self).pos,
            ended(r, (r->Ok_0.inner.view(), r->Ok_0.loc), final(self).cursor())
                == grammar::pattern::prefix_pattern(old(self).input(), old(self).cursor()),
        decreases old(self).remaining(), 15nat,
    {
        let loc = self.tokens[self.pos].loc;
        let found: Option<String> = match &self.tokens[self.pos].kind {
            TokenKind::Ident(ident) => Some(ident.clone()),
            _ => None,
        };
        if let Some(ident) = found {
            return self.parse_named_pattern(ident);
        }
        if let Some(op) = term_operator_of(&self.tokens[self.pos].kind) {
            return match self.parse_prefix_pattern_term(op) {
                Ok(p) => Ok(Located::with_location(p, loc)),
                Err(e) => Err(e),
            };
        }
        if self.at(&TokenKind::QuestionMark) {
            if let Err(e) = self.take() {
                return Err(e);
            }
            Ok(Located::with_location(Pattern::Any, loc))
        } else if self.at(&TokenKind::LBracket) {
            self.parse_list_pattern()
        } else if self.at(&TokenKind::LParen) {
            self.parse_group_pattern()
        } else if self.at(&TokenKind::Range) {
            if let Err(e) = self.take() {
                return Err(e);
            }
            Ok(Located::with_location(Pattern::Remaining, loc))
        } else {
            self.parse_term_pattern()
        }
    }

    /// A comparison and the expression that it compares with.
    pub fn parse_prefix_pattern_term(&mut self, op: TermOp) -> (r: ParseResult<Pattern>)
        requires
            old(self).wf(),
            !(old(self).cur().kind is Eof),
        ensures
            final(self).follows(old(self)),
            r is Ok ==> final(self).pos > old(self).pos,
            ended(r, r->Ok_0.view(), final(self).cursor())
                == grammar::pattern::prefix_pattern_term(
                old(self).input(),
                old(self).cursor(),
                op,
            ),
        decreases old(self).remaining(), 13nat,
    {
        if let Err(e) = self.take() {
            return Err(e);
        }
        let expr = match self.parse_plain_expr() {
            Ok(x) => x,
            Err(e) => {
                return Err(e);
            },
        };
        Ok(Pattern::Term(op.build(expr)))
    }

    /// `left & right` or `left | right`, at the place of the operator.
    pub fn parse_infix_pattern(&mut self, left: Located<Pattern>) -> (r: ParseResult<
        Located<Pattern>,
    >)
        requires
            old(self).wf(),
            old(self).cur().kind is LogAnd || old(self).cur().kind is LogOr,
        ensures
            final(self).follows(old(self)),
            r is Ok ==> final(self).pos > old(self).pos,
            ended(r, (r->Ok_0.inner.view(), r->Ok_0.loc), final(self).cursor())
                == grammar::pattern::infix_pattern(
                old(self).input(),
                old(self).cursor(),
                (left.inner.view(), left.loc),
            ),
        decreases old(self).remaining(), 14nat,
    {
        let loc = self.tokens[self.pos].loc;
        let and = self.at(&TokenKind::LogAnd);
        if let Err(e) = self.take() {
            return Err(e);
        }
        if and {
            let right = match self.parse_pattern_with_precedence(PatternPrecedence::And) {
                Ok(p) => p,
                Err(e) => {
                    return Err(e);
                },
            };
            Ok(Located::with_location(Pattern::And(Box::new(left), Box::new(right)), loc))
        } else {
            let right = match self.parse_pattern_with_precedence(PatternPrecedence::Or) {
                Ok(p) => p,
                Err(e) => {
                    return Err(e);
                },
            };
            Ok(Located::with_location(Pattern::Or(Box::new(left), Box::new(right)), loc))
        }
    }
}

} // verus!
