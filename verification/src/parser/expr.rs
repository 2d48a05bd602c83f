//! Parsing of expressions, by precedence climbing.

use vstd::prelude::*;
use crate::ast::expr::{
    expr_branch_views, expr_views, lemma_expr_branch_views_push, lemma_expr_views_push, BinaryOp,
    Expr, ExprKind, MatchKind, UnaryOp,
};
use crate::ast::pattern::Pattern;
use crate::ast::types::{TypeIndex, TypeKind};
use crate::grammar;
use crate::grammar::expr::match_word;
use crate::parser::context::{lemma_shape_restored, Frame, StmtContext};
use crate::parser::precedence::{binary_operator_of, OperatorPrecedence};
use crate::parser::{ended, fail, fails_with, ParseError, ParseErrorView, ParseResult, Parser};
use crate::source_file::{Located, Location};
use crate::token::TokenKind;

verus! {

/// Fails with `WrongNumOfPatterns` at `loc` unless there are `expected`
/// patterns.
pub fn check_arity(patterns: &Vec<Located<Pattern>>, expected: usize, loc: Location) -> (r:
    ParseResult<()>)
    ensures
        patterns@.len() == expected ==> r is Ok,
        patterns@.len() != expected ==> fails_with(
            r,
            loc,
            ParseErrorView::WrongNumOfPatterns(expected),
        ),
{
    if patterns.len() == expected {
        Ok(())
    } else {
        fail(ParseError::WrongNumOfPatterns(expected), loc)
    }
}

/// Fails with `MissingBranch` at `loc` where a `match` or `every` has no
/// branch.
pub fn check_branches(count: usize, kind: MatchKind, loc: Location) -> (r: ParseResult<()>)
    ensures
        count > 0 ==> r is Ok,
        count == 0 ==> fails_with(r, loc, ParseErrorView::MissingBranch(match_word(kind))),
{
    if count > 0 {
        Ok(())
    } else {
        let word = match kind {
            MatchKind::Match => String::from_str("match"),
            MatchKind::Every => String::from_str("every"),
        };
        fail(ParseError::MissingBranch(word), loc)
    }
}

impl Parser {
    /// An expression.
    pub fn parse_expr(&mut self, context: &mut StmtContext) -> (r: ParseResult<Expr>)
        requires
            old(self).wf(),
            old(context).wf(),
        ensures
            final(self).follows(old(self)),
            final(context).follows(old(context)),
            r is Ok ==> final(self).pos > old(self).pos,
            ended(r, (r->Ok_0.view(), final(context)@), final(self).cursor()) == grammar::expr::expr(
                old(self).input(), old(self).cursor(), old(context)@,
            ),
        decreases old(self).remaining(), 10nat,
    {
        self.parse_expr_with_precedence(context, OperatorPrecedence::Lowest)
    }

    /// A prefix term, then every operator that binds tighter than
    /// `precedence`, each with its right operand.
    #[verifier::loop_isolation(false)]
    pub fn parse_expr_with_precedence(&mut self, context: &mut StmtContext, precedence: OperatorPrecedence) -> (r: ParseResult<Expr>)
        requires
            old(self).wf(),
            old(context).wf(),
        ensures
            final(self).follows(old(self)),
            final(context).follows(old(context)),
            r is Ok ==> final(self).pos > old(self).pos,
            ended(r, (r->Ok_0.view(), final(context)@), final(self).cursor()) == grammar::expr::expr_with(
                old(self).input(), old(self).cursor(), old(context)@, precedence,
            ),
        decreases old(self).remaining(), 9nat,
    {
        let mut expr = match self.parse_prefix_expr(context) {
            Ok(x) => x,
            Err(e) => {
                return Err(e);
            },
        };
        let ghost goal = grammar::expr::infix_chain(
            self.input(),
            self.cursor(),
            context@,
            expr.view(),
            precedence,
        );
        let mut binds = true;
        while binds
            invariant
                self.follows(old(self)),
                context.follows(old(context)),
                self.pos > old(self).pos,
                grammar::expr::infix_chain(
                    self.input(),
                    self.cursor(),
                    context@,
                    expr.view(),
                    precedence,
                ) == goal,
                !binds ==> goal == grammar::Parsed::Done((expr.view(), context@), self.cursor()),
            decreases self.remaining(), (if binds { 1nat } else { 0nat }),
        {
            binds = match OperatorPrecedence::try_from(&self.tokens[self.pos].kind) {
                Some(p) => precedence.rank() < p.rank(),
                None => false,
            };
            if binds {
                expr = match self.parse_infix_expr(context, expr) {
                    Ok(e) => e,
                    Err(e) => {
                        return Err(e);
                    },
                };
            }
        }
        Ok(expr)
    }

    /// The operator under the cursor, applied to `left`.
    pub fn parse_infix_expr(&mut self, context: &mut StmtContext, left: Expr) -> (r: ParseResult<Expr>)
        requires
            old(self).wf(),
            old(context).wf(),
            OperatorPrecedence::of(old(self).cur().kind.view()) is Some,
        ensures
            final(self).follows(old(self)),
            final(context).follows(old(context)),
            r is Ok ==> final(self).pos > old(self).pos,
            ended(r, (r->Ok_0.view(), final(context)@), final(self).cursor()) == grammar::expr::infix_expr(
                old(self).input(), old(self).cursor(), old(context)@, left.view(),
            ),
        decreases old(self).remaining(), 6nat,
    {
        match binary_operator_of(&self.tokens[self.pos].kind) {
            Some((op, precedence)) => {
                if op.comparison() {
                    self.parse_comparison_op(context, left, op)
                } else {
                    self.parse_binop(context, left, op, precedence)
                }
            },
            None => {
                if self.at(&TokenKind::LParen) {
                    self.parse_function_call(context, left)
                } else if self.at(&TokenKind::Condition) {
                    self.parse_conditional(context, left)
                } else {
                    self.parse_explicit_cast(context, left)
                }
            },
        }
    }

    /// A primary expression, or a prefix operator with its operand.
    pub fn parse_prefix_expr(&mut self, context: &mut StmtContext) -> (r: ParseResult<Expr>)
        requires
            old(self).wf(),
            old(context).wf(),
        ensures
            final(self).follows(old(self)),
            final(context).follows(old(context)),
            r is Ok ==> final(self).pos > old(self).pos,
            ended(r, (r->Ok_0.view(), final(context)@), final(self).cursor()) == grammar::expr::prefix_expr(
                old(self).input(), old(self).cursor(), old(context)@,
            ),
        decreases old(self).remaining(), 8nat,
    {
        if self.at(&TokenKind::ValOf) {
            self.parse_valof(context)
        } else if self.at(&TokenKind::LParen) {
            self.parse_parens(context)
        } else if self.at(&TokenKind::Match) {
            self.parse_match_expr(context, MatchKind::Match)
        } else if self.at(&TokenKind::Every) {
            self.parse_match_expr(context, MatchKind::Every)
        } else if self.at(&TokenKind::Abs) {
            self.parse_prefix_op(context, UnaryOp::Abs)
        } else if self.at(&TokenKind::Not) {
            self.parse_prefix_op(context, UnaryOp::Not)
        } else if self.at(&TokenKind::LogAnd) {
            self.parse_ref(context)
        } else if self.at(&TokenKind::At) {
            self.parse_deref(context)
        } else {
            self.parse_primary(context)
        }
    }

    /// A name or a literal; anything else is no expression.
    pub fn parse_primary(&mut self, context: &StmtContext) -> (r: ParseResult<Expr>)
        requires
            old(self).wf(),
        ensures
            final(self).follows(old(self)),
            r is Ok ==> final(self).pos > old(self).pos,
            ended(r, (r->Ok_0.view(), context@), final(self).cursor()) == grammar::expr::primary(
                old(self).input(), old(self).cursor(), context@,
            ),
    {
        if self.at(&TokenKind::True) || self.at(&TokenKind::False) {
            return self.parse_bool_lit(context);
        }
        let kind = self.tokens[self.pos].kind.duplicate();
        match kind {
            TokenKind::Ident(ident) => self.parse_ident(context, ident),
            TokenKind::Atom(atom) => self.parse_atom(context, atom),
            TokenKind::IntegerLit(value) => self.parse_integer_lit(context, value),
            TokenKind::FloatLit(mantissa, exponent) => self.parse_float_lit(
                context,
                mantissa,
                exponent,
            ),
            TokenKind::StringLit(text) => self.parse_string_lit(context, text),
            _ => self.unexpected_here("expression"),
        }
    }

    /// An identifier; its type is not known here.
    pub fn parse_ident(&mut self, context: &StmtContext, ident: String) -> (r: ParseResult<Expr>)
        requires
            old(self).wf(),
            old(self).cur().kind is Ident,
        ensures
            final(self).follows(old(self)),
            r is Ok ==> final(self).pos > old(self).pos,
            ended(r, (r->Ok_0.view(), context@), final(self).cursor()) == grammar::expr::ident_expr(
                old(self).input(), old(self).cursor(), context@, ident@,
            ),
    {
        match self.take() {
            Ok(t) => Ok(Expr::new(t.loc, None, ExprKind::Ident(ident))),
            Err(e) => Err(e),
        }
    }

    /// An atom, which is entered in the table of atoms; its type is `Atom`.
    pub fn parse_atom(&mut self, context: &StmtContext, atom: String) -> (r: ParseResult<Expr>)
        requires
            old(self).wf(),
            old(self).cur().kind is Atom,
        ensures
            final(self).follows(old(self)),
            r is Ok ==> final(self).pos > old(self).pos,
            ended(r, (r->Ok_0.view(), context@), final(self).cursor()) == grammar::expr::atom_expr(
                old(self).input(), old(self).cursor(), context@, atom@,
            ),
    {
        let loc = match self.take() {
            Ok(t) => t.loc,
            Err(e) => {
                return Err(e);
            },
        };
        let typ = self.builtin(TypeKind::Atom);
        match self.ast.intern_atom(atom) {
            Some(id) => Ok(Expr::new(loc, Some(typ), ExprKind::Atom(id))),
            None => fail(ParseError::Generic(String::from_str("The atom table is full.")), loc),
        }
    }

    /// `true` or `false`, of type `Bool`.
    pub fn parse_bool_lit(&mut self, context: &StmtContext) -> (r: ParseResult<Expr>)
        requires
            old(self).wf(),
            old(self).cur().kind is True || old(self).cur().kind is False,
        ensures
            final(self).follows(old(self)),
            r is Ok ==> final(self).pos > old(self).pos,
            ended(r, (r->Ok_0.view(), context@), final(self).cursor()) == grammar::expr::bool_lit(
                old(self).input(), old(self).cursor(), context@,
            ),
    {
        let loc = self.tokens[self.pos].loc;
        let t = match self.expect_either(TokenKind::True, TokenKind::False) {
            Ok(t) => matches!(t.kind, TokenKind::True),
            Err(e) => {
                return Err(e);
            },
        };
        let typ = self.builtin(TypeKind::Bool);
        Ok(
            Expr::new(
                loc,
                Some(typ),
                if t {
                    ExprKind::True
                } else {
                    ExprKind::False
                },
            ),
        )
    }

    /// An integer literal; its type is the first of `Int32`, `UInt32`,
    /// `Int64`, `UInt64` that holds the value.
    pub fn parse_integer_lit(&mut self, context: &StmtContext, value: u64) -> (r: ParseResult<Expr>)
        requires
            old(self).wf(),
            old(self).cur().kind is IntegerLit,
        ensures
            final(self).follows(old(self)),
            r is Ok ==> final(self).pos > old(self).pos,
            ended(r, (r->Ok_0.view(), context@), final(self).cursor()) == grammar::expr::integer_lit(
                old(self).input(), old(self).cursor(), context@, value,
            ),
    {
        let loc = match self.take() {
            Ok(t) => t.loc,
            Err(e) => {
                return Err(e);
            },
        };
        let typ = self.builtin(TypeKind::of_literal(value));
        Ok(Expr::new(loc, Some(typ), ExprKind::IntLit(value)))
    }

    /// A floating-point literal, of type `Float64`.
    pub fn parse_float_lit(&mut self, context: &StmtContext, mantissa: String, exponent: Option<String>) -> (r: ParseResult<Expr>)
        requires
            old(self).wf(),
            old(self).cur().kind is FloatLit,
        ensures
            final(self).follows(old(self)),
            r is Ok ==> final(self).pos > old(self).pos,
            ended(r, (r->Ok_0.view(), context@), final(self).cursor()) == grammar::expr::float_lit(
                old(self).input(), old(self).cursor(), context@, mantissa@, crate::text::opt_text(exponent),
            ),
    {
        let loc = match self.take() {
            Ok(t) => t.loc,
            Err(e) => {
                return Err(e);
            },
        };
        let typ = self.builtin(TypeKind::Float64);
        Ok(Expr::new(loc, Some(typ), ExprKind::FloatLit(mantissa, exponent)))
    }

    /// A string literal, of the type pointer to `Char`.
    pub fn parse_string_lit(&mut self, context: &StmtContext, value: String) -> (r: ParseResult<Expr>)
        requires
            old(self).wf(),
            old(self).cur().kind is StringLit,
        ensures
            final(self).follows(old(self)),
            r is Ok ==> final(self).pos > old(self).pos,
            ended(r, (r->Ok_0.view(), context@), final(self).cursor()) == grammar::expr::string_lit(
                old(self).input(), old(self).cursor(), context@, value@,
            ),
    {
        let loc = match self.take() {
            Ok(t) => t.loc,
            Err(e) => {
                return Err(e);
            },
        };
        let typ = match self.get_string_type() {
            Ok(t) => t,
            Err(e) => {
                return Err(e);
            },
        };
        Ok(Expr::new(loc, Some(typ), ExprKind::StringLit(value)))
    }

    /// `valof <stmt>`: the statement is parsed inside a `valof` frame, and
    /// the type that its first `resultis` gave is the type of the whole.
    /// Fails with `NoResultValue` where the statement has no `resultis`.
    pub fn parse_valof(&mut self, context: &mut StmtContext) -> (r: ParseResult<Expr>)
        requires
            old(self).wf(),
            old(context).wf(),
            old(self).cur().kind is ValOf,
        ensures
            final(self).follows(old(self)),
            final(context).follows(old(context)),
            r is Ok ==> final(self).pos > old(self).pos,
            ended(r, (r->Ok_0.view(), final(context)@), final(self).cursor()) == grammar::expr::valof(
                old(self).input(), old(self).cursor(), old(context)@,
            ),
        decreases old(self).remaining(), 7nat,
    {
        let loc = self.tokens[self.pos].loc;
        if let Err(e) = self.expect_kind(TokenKind::ValOf) {
            return Err(e);
        }
        let (parsed, frame) = self.parse_stmt_in(context, Frame::ValOf(None));
        let stmt = match parsed {
            Ok(x) => x,
            Err(e) => {
                return Err(e);
            },
        };
        let typ = match frame {
            Frame::ValOf(Some(typ)) => typ,
            _ => {
                return fail(ParseError::NoResultValue, loc);
            },
        };
        Ok(Expr::new(loc, typ, ExprKind::ValOf(Box::new(stmt))))
    }

    /// An expression in parentheses.
    pub fn parse_parens(&mut self, context: &mut StmtContext) -> (r: ParseResult<Expr>)
        requires
            old(self).wf(),
            old(context).wf(),
            old(self).cur().kind is LParen,
        ensures
            final(self).follows(old(self)),
            final(context).follows(old(context)),
            r is Ok ==> final(self).pos > old(self).pos,
            ended(r, (r->Ok_0.view(), final(context)@), final(self).cursor()) == grammar::expr::parens(
                old(self).input(), old(self).cursor(), old(context)@,
            ),
        decreases old(self).remaining(), 7nat,
    {
        if let Err(e) = self.expect_kind(TokenKind::LParen) {
            return Err(e);
        }
        let expr = match self.parse_expr(context) {
            Ok(x) => x,
            Err(e) => {
                return Err(e);
            },
        };
        if let Err(e) = self.expect_kind(TokenKind::RParen) {
            return Err(e);
        }
        Ok(expr)
    }

    /// Expressions with commas between them, up to the closing parenthesis,
    /// which is read too.
    #[verifier::loop_isolation(false)]
    pub fn parse_expr_list(&mut self, context: &mut StmtContext) -> (r: ParseResult<Vec<Expr>>)
        requires
            old(self).wf(),
            old(context).wf(),
        ensures
            final(self).follows(old(self)),
            final(context).follows(old(context)),
            r is Ok ==> final(self).pos > old(self).pos,
            ended(r, (expr_views(r->Ok_0@), final(context)@), final(self).cursor()) == grammar::expr::expr_items(
                old(self).input(), old(self).cursor(), old(context)@, Seq::empty(),
            ),
        decreases old(self).remaining(), 30nat,
    {
        let mut elems: Vec<Expr> = Vec::new();
        assert(expr_views(elems@) =~= Seq::empty());
        let ghost goal = grammar::expr::expr_items(
            self.input(),
            self.cursor(),
            context@,
            Seq::empty(),
        );
        while !self.at(&TokenKind::RParen)
            invariant
                self.follows(old(self)),
                context.follows(old(context)),
                grammar::expr::expr_items(
                    self.input(),
                    self.cursor(),
                    context@,
                    expr_views(elems@),
                ) == goal,
            decreases self.remaining(),
        {
            let elem = match self.parse_expr(context) {
                Ok(x) => x,
                Err(e) => {
                    return Err(e);
                },
            };
            proof {
                lemma_expr_views_push(elems@, elem);
            }
            elems.push(elem);
            let closed = match self.expect_either(TokenKind::RParen, TokenKind::Comma) {
                Ok(t) => matches!(t.kind, TokenKind::RParen),
                Err(e) => {
                    return Err(e);
                },
            };
            if closed {
                return Ok(elems);
            }
        }
        if let Err(e) = self.take() {
            return Err(e);
        }
        Ok(elems)
    }

    /// A call of `callee`; its type is not known here.
    pub fn parse_function_call(&mut self, context: &mut StmtContext, callee: Expr) -> (r: ParseResult<Expr>)
        requires
            old(self).wf(),
            old(context).wf(),
        ensures
            final(self).follows(old(self)),
            final(context).follows(old(context)),
            r is Ok ==> final(self).pos > old(self).pos,
            ended(r, (r->Ok_0.view(), final(context)@), final(self).cursor()) == grammar::expr::call(
                old(self).input(), old(self).cursor(), old(context)@, callee.view(),
            ),
        decreases old(self).remaining(), 4nat,
    {
        let loc = match self.expect_kind(TokenKind::LParen) {
            Ok(t) => t.loc,
            Err(e) => {
                return Err(e);
            },
        };
        let args = match self.parse_expr_list(context) {
            Ok(x) => x,
            Err(e) => {
                return Err(e);
            },
        };
        Ok(Expr::new(loc, None, ExprKind::FuncCall(Box::new(callee), args)))
    }

    /// A binary operator other than a comparison, applied to `left`: the
    /// right operand is coerced to the type of `left`, which is the type of
    /// the whole.
    pub fn parse_binop(&mut self, context: &mut StmtContext, left: Expr, op: BinaryOp, precedence: OperatorPrecedence) -> (r: ParseResult<Expr>)
        requires
            old(self).wf(),
            old(context).wf(),
            !(old(self).cur().kind is Eof),
        ensures
            final(self).follows(old(self)),
            final(context).follows(old(context)),
            r is Ok ==> final(self).pos > old(self).pos,
            ended(r, (r->Ok_0.view(), final(context)@), final(self).cursor()) == grammar::expr::binop(
                old(self).input(), old(self).cursor(), old(context)@, left.view(), op, precedence,
            ),
        decreases old(self).remaining(), 4nat,
    {
        let loc = match self.take() {
            Ok(t) => t.loc,
            Err(e) => {
                return Err(e);
            },
        };
        let right = match self.parse_expr_with_precedence(context, precedence) {
            Ok(x) => x,
            Err(e) => {
                return Err(e);
            },
        };
        Ok(Expr::binary(op, loc, left, right))
    }

    /// A comparison of `left`: operands as for any binary operator, the
    /// result of type `Bool`.
    pub fn parse_comparison_op(&mut self, context: &mut StmtContext, left: Expr, op: BinaryOp) -> (r: ParseResult<Expr>)
        requires
            old(self).wf(),
            old(context).wf(),
            !(old(self).cur().kind is Eof),
        ensures
            final(self).follows(old(self)),
            final(context).follows(old(context)),
            r is Ok ==> final(self).pos > old(self).pos,
            ended(r, (r->Ok_0.view(), final(context)@), final(self).cursor()) == grammar::expr::comparison(
                old(self).input(), old(self).cursor(), old(context)@, left.view(), op,
            ),
        decreases old(self).remaining(), 5nat,
    {
        let mut binop = match self.parse_binop(context, left, op, OperatorPrecedence::Comparison) {
            Ok(x) => x,
            Err(e) => {
                return Err(e);
            },
        };
        let typ = self.builtin(TypeKind::Bool);
        binop.set_typ(typ);
        Ok(binop)
    }

    /// `abs` or `not` with its operand, whose type is the type of the whole.
    pub fn parse_prefix_op(&mut self, context: &mut StmtContext, op: UnaryOp) -> (r: ParseResult<Expr>)
        requires
            old(self).wf(),
            old(context).wf(),
            !(old(self).cur().kind is Eof),
        ensures
            final(self).follows(old(self)),
            final(context).follows(old(context)),
            r is Ok ==> final(self).pos > old(self).pos,
            ended(r, (r->Ok_0.view(), final(context)@), final(self).cursor()) == grammar::expr::prefix_op(
                old(self).input(), old(self).cursor(), old(context)@, op,
            ),
        decreases old(self).remaining(), 7nat,
    {
        let loc = match self.take() {
            Ok(t) => t.loc,
            Err(e) => {
                return Err(e);
            },
        };
        let expr = match self.parse_expr(context) {
            Ok(x) => x,
            Err(e) => {
                return Err(e);
            },
        };
        let typ = expr.typ;
        Ok(Expr::new(loc, typ, op.build(Box::new(expr))))
    }

    /// `condition -> a, b`: the condition is coerced to `Bool`, and `b` to
    /// the type of `a`, which is the type of the whole.
    pub fn parse_conditional(&mut self, context: &mut StmtContext, condition: Expr) -> (r: ParseResult<Expr>)
        requires
            old(self).wf(),
            old(context).wf(),
        ensures
            final(self).follows(old(self)),
            final(context).follows(old(context)),
            r is Ok ==> final(self).pos > old(self).pos,
            ended(r, (r->Ok_0.view(), final(context)@), final(self).cursor()) == grammar::expr::conditional(
                old(self).input(), old(self).cursor(), old(context)@, condition.view(),
            ),
        decreases old(self).remaining(), 4nat,
    {
        let loc = match self.expect_kind(TokenKind::Condition) {
            Ok(t) => t.loc,
            Err(e) => {
                return Err(e);
            },
        };
        let bool_typ = self.builtin(TypeKind::Bool);
        let if_branch = match self.parse_expr(context) {
            Ok(x) => x,
            Err(e) => {
                return Err(e);
            },
        };
        if let Err(e) = self.expect_kind(TokenKind::Comma) {
            return Err(e);
        }
        let else_branch = match self.parse_expr_with_precedence(context, OperatorPrecedence::Conditional) {
            Ok(x) => x,
            Err(e) => {
                return Err(e);
            },
        };
        Ok(Expr::conditional(loc, condition, if_branch, else_branch, bool_typ))
    }

    /// `expr :: <type>`: a cast of `expr`, of the type named.
    pub fn parse_explicit_cast(&mut self, context: &StmtContext, expr: Expr) -> (r: ParseResult<Expr>)
        requires
            old(self).wf(),
        ensures
            final(self).follows(old(self)),
            r is Ok ==> final(self).pos > old(self).pos,
            ended(r, (r->Ok_0.view(), context@), final(self).cursor())
                == grammar::expr::explicit_cast(
                old(self).input(),
                old(self).cursor(),
                context@,
                expr.view(),
            ),
        decreases old(self).remaining(), 4nat,
    {
        let loc = match self.expect_kind(TokenKind::Of) {
            Ok(t) => t.loc,
            Err(e) => {
                return Err(e);
            },
        };
        let typ = match self.parse_type() {
            Ok(t) => t,
            Err(e) => {
                return Err(e);
            },
        };
        Ok(Expr::new(loc, Some(typ), ExprKind::Cast(Box::new(expr))))
    }

    /// `& expr`: where the type of the operand is known, the type of the
    /// whole is the pointer to it.
    pub fn parse_ref(&mut self, context: &mut StmtContext) -> (r: ParseResult<Expr>)
        requires
            old(self).wf(),
            old(context).wf(),
        ensures
            final(self).follows(old(self)),
            final(context).follows(old(context)),
            r is Ok ==> final(self).pos > old(self).pos,
            ended(r, (r->Ok_0.view(), final(context)@), final(self).cursor()) == grammar::expr::reference(
                old(self).input(), old(self).cursor(), old(context)@,
            ),
        decreases old(self).remaining(), 7nat,
    {
        let loc = match self.expect_kind(TokenKind::LogAnd) {
            Ok(t) => t.loc,
            Err(e) => {
                return Err(e);
            },
        };
        let expr = match self.parse_expr(context) {
            Ok(x) => x,
            Err(e) => {
                return Err(e);
            },
        };
        let typ = match expr.typ {
            Some(t) => match self.pointer_to(t) {
                Ok(p) => Some(p),
                Err(e) => {
                    return Err(e);
                },
            },
            None => None,
        };
        Ok(Expr::new(loc, typ, ExprKind::Ref(Box::new(expr))))
    }

    /// `@ expr`; its type is not known here.
    pub fn parse_deref(&mut self, context: &mut StmtContext) -> (r: ParseResult<Expr>)
        requires
            old(self).wf(),
            old(context).wf(),
        ensures
            final(self).follows(old(self)),
            final(context).follows(old(context)),
            r is Ok ==> final(self).pos > old(self).pos,
            ended(r, (r->Ok_0.view(), final(context)@), final(self).cursor()) == grammar::expr::dereference(
                old(self).input(), old(self).cursor(), old(context)@,
            ),
        decreases old(self).remaining(), 7nat,
    {
        let loc = match self.expect_kind(TokenKind::At) {
            Ok(t) => t.loc,
            Err(e) => {
                return Err(e);
            },
        };
        let expr = match self.parse_expr(context) {
            Ok(x) => x,
            Err(e) => {
                return Err(e);
            },
        };
        Ok(Expr::new(loc, None, ExprKind::Deref(Box::new(expr))))
    }

    /// The values that a `match` or `every` looks at: one expression, or a
    /// list of expressions in parentheses.
    pub fn parse_match_args(&mut self, context: &mut StmtContext) -> (r: ParseResult<Vec<Expr>>)
        requires
            old(self).wf(),
            old(context).wf(),
        ensures
            final(self).follows(old(self)),
            final(context).follows(old(context)),
            r is Ok ==> final(self).pos > old(self).pos,
            ended(r, (expr_views(r->Ok_0@), final(context)@), final(self).cursor()) == grammar::expr::match_args(
                old(self).input(), old(self).cursor(), old(context)@,
            ),
        decreases old(self).remaining(), 31nat,
    {
        if !self.at(&TokenKind::LParen) {
            let mut args: Vec<Expr> = Vec::new();
            match self.parse_expr(context) {
                Ok(x) => {
                    args.push(x);
                    assert(expr_views(args@) =~= seq![x.view()]);
                },
                Err(e) => {
                    return Err(e);
                },
            }
            Ok(args)
        } else {
            if let Err(e) = self.take() {
                return Err(e);
            }
            self.parse_expr_list(context)
        }
    }

    /// A `match` or `every` expression: the values to match, then branches
    /// `: patterns -> expr`. Each branch has as many patterns as there are
    /// values, else `WrongNumOfPatterns`; there is a branch, else
    /// `MissingBranch`; the expression of each later branch is coerced to
    /// the type of the first, which is the type of the whole.
    #[verifier::loop_isolation(false)]
    pub fn parse_match_expr(&mut self, context: &mut StmtContext, kind: MatchKind) -> (r: ParseResult<Expr>)
        requires
            old(self).wf(),
            old(context).wf(),
            !(old(self).cur().kind is Eof),
        ensures
            final(self).follows(old(self)),
            final(context).follows(old(context)),
            r is Ok ==> final(self).pos > old(self).pos,
            ended(r, (r->Ok_0.view(), final(context)@), final(self).cursor()) == grammar::expr::match_expr(
                old(self).input(), old(self).cursor(), old(context)@, kind,
            ),
        decreases old(self).remaining(), 7nat,
    {
        let loc = match self.take() {
            Ok(t) => t.loc,
            Err(e) => {
                return Err(e);
            },
        };
        let args = match self.parse_match_args(context) {
            Ok(x) => x,
            Err(e) => {
                return Err(e);
            },
        };
        let mut branches: Vec<(Vec<Located<Pattern>>, Box<Expr>)> = Vec::new();
        let mut typ: Option<TypeIndex> = None;
        assert(expr_branch_views(branches@) =~= Seq::empty());
        let ghost goal = grammar::expr::match_branches(
            self.input(),
            self.cursor(),
            context@,
            loc,
            args.len(),
            Seq::empty(),
            None,
        );
        let mut more = true;
        while more
            invariant
                self.follows(old(self)),
                context.follows(old(context)),
                self.pos > old(self).pos,
                grammar::expr::match_branches(
                    self.input(),
                    self.cursor(),
                    context@,
                    loc,
                    args.len(),
                    expr_branch_views(branches@),
                    typ,
                ) == goal,
                !more ==> goal == grammar::Parsed::Done(
                    (expr_branch_views(branches@), typ, context@),
                    self.cursor(),
                ),
            decreases self.remaining(), (if more { 1nat } else { 0nat }),
        {
            more = match self.take_if(TokenKind::Colon) {
                Ok(b) => b,
                Err(e) => {
                    return Err(e);
                },
            };
            if !more {
                continue ;
            }
            let patterns = match self.parse_pattern_list() {
                Ok(x) => x,
                Err(e) => {
                    return Err(e);
                },
            };
            proof {
            }
            if let Err(e) = check_arity(&patterns, args.len(), loc) {
                return Err(e);
            }
            if let Err(e) = self.expect_kind(TokenKind::Condition) {
                return Err(e);
            }
            let (parsed, _) = self.parse_expr_in(context, Frame::Match);
            let expr = match parsed {
                Ok(x) => x,
                Err(e) => {
                    return Err(e);
                },
            };
            let expr = if branches.len() == 0 {
                typ = expr.typ;
                expr
            } else {
                expr.coerce(typ)
            };
            proof {
                lemma_expr_branch_views_push(branches@, (patterns, Box::new(expr)));
            }
            branches.push((patterns, Box::new(expr)));
        }
        if let Err(e) = check_branches(branches.len(), kind, loc) {
            return Err(e);
        }
        let e = match kind {
            MatchKind::Match => Expr::new(loc, typ, ExprKind::Match(args, branches)),
            MatchKind::Every => Expr::new(loc, typ, ExprKind::Every(args, branches)),
        };
        Ok(e)
    }

    /// Parses an expression inside the construct `frame`, and gives back
    /// the frame as the expression left it.
    pub fn parse_expr_in(&mut self, context: &mut StmtContext, frame: Frame) -> (r: (
        ParseResult<Expr>,
        Frame,
    ))
        requires
            old(self).wf(),
            old(context).wf(),
            !frame.is_root(),
        ensures
            final(self).follows(old(self)),
            final(context).follows(old(context)),
            r.0 is Ok ==> final(self).pos > old(self).pos,
            r.1.erased() == frame.erased(),
            ended(r.0, (r.0->Ok_0.view(), r.1, final(context)@), final(self).cursor())
                == grammar::expr::expr_in(
                old(self).input(),
                old(self).cursor(),
                old(context)@,
                frame,
            ),
        decreases old(self).remaining(), 11nat,
    {
        context.push(frame);
        let parsed = self.parse_expr(context);
        proof {
            lemma_shape_restored(old(context)@, frame, context@);
        }
        let left = context.pop();
        (parsed, left)
    }
}

} // verus!
