//! Parsing of statements.

use vstd::prelude::*;
use crate::ast::expr::{Expr, MatchKind};
use crate::ast::pattern::Pattern;
use crate::ast::stmt::{
    lemma_stmt_branch_views_push, lemma_stmt_views_push, stmt_branch_views, stmt_views, Stmt,
    StmtKind,
};
use crate::ast::types::TypeKind;
use crate::grammar;
use crate::parser::context::{
    lemma_shape_restored, lemma_switch_frame, lemma_switch_same, lemma_valof_frame,
    switch_frame, Frame, StmtContext,
};
use crate::parser::expr::{check_arity, check_branches};
use crate::parser::{ended, fail, ParseError, ParseResult, Parser};
use crate::source_file::Located;
use crate::token::TokenKind;

verus! {

impl Parser {
    /// One statement, or a chain of statements joined by `<>`.
    pub fn parse_stmt(&mut self, context: &mut StmtContext) -> (r: ParseResult<Stmt>)
        requires
            old(self).wf(),
            old(context).wf(),
        ensures
            final(self).follows(old(self)),
            final(context).follows(old(context)),
            r is Ok ==> final(self).pos > old(self).pos,
            ended(r, (r->Ok_0.view(), final(context)@), final(self).cursor()) == grammar::stmt::stmt(
                old(self).input(), old(self).cursor(), old(context)@,
            ),
        decreases old(self).remaining(), 20nat,
    {
        let stmt = match self.parse_single(context) {
            Ok(x) => x,
            Err(e) => {
                return Err(e);
            },
        };
        if self.at(&TokenKind::Compound) {
            self.parse_compound(context, stmt)
        } else {
            Ok(stmt)
        }
    }

    /// One statement, by its first token.
    #[verifier::rlimit(30)]
    pub fn parse_single(&mut self, context: &mut StmtContext) -> (r: ParseResult<Stmt>)
        requires
            old(self).wf(),
            old(context).wf(),
        ensures
            final(self).follows(old(self)),
            final(context).follows(old(context)),
            r is Ok ==> final(self).pos > old(self).pos,
            ended(r, (r->Ok_0.view(), final(context)@), final(self).cursor()) == grammar::stmt::single(
                old(self).input(), old(self).cursor(), old(context)@,
            ),
        decreases old(self).remaining(), 19nat,
    {
        if self.at(&TokenKind::LBrace) {
            self.parse_block(context)
        } else if self.at(&TokenKind::ResultIs) {
            self.parse_resultis(context)
        } else if self.at(&TokenKind::Return) {
            self.parse_return(context)
        } else if self.at(&TokenKind::If) {
            self.parse_if(context)
        } else if self.at(&TokenKind::Unless) {
            self.parse_unless(context)
        } else if self.at(&TokenKind::While) {
            self.parse_while(context, false)
        } else if self.at(&TokenKind::Until) {
            self.parse_while(context, true)
        } else if self.at(&TokenKind::For) {
            self.parse_for(context)
        } else if self.at(&TokenKind::SwitchOn) {
            self.parse_switchon(context)
        } else if self.at(&TokenKind::Case) {
            self.parse_case(context)
        } else if self.at(&TokenKind::Default) {
            self.parse_default_case(context)
        } else if self.at(&TokenKind::Match) {
            self.parse_match_stmt(context, MatchKind::Match)
        } else if self.at(&TokenKind::Every) {
            self.parse_match_stmt(context, MatchKind::Every)
        } else if self.at(&TokenKind::Next) {
            self.parse_next_break(context, false)
        } else if self.at(&TokenKind::Break) {
            self.parse_next_break(context, true)
        } else {
            self.parse_expr_stmt(context)
        }
    }

    /// Parses a statement inside the construct `frame`, and gives back the
    /// frame as the statement left it.
    pub fn parse_stmt_in(&mut self, context: &mut StmtContext, frame: Frame) -> (r: (
        ParseResult<Stmt>,
        Frame,
    ))
        requires
            old(self).wf(),
            old(context).wf(),
            !frame.is_root(),
        ensures
            final(self).follows(old(self)),
            final(context).follows(old(context)),
            r.0 is Ok ==> final(self).pos > old(self).pos,
            r.1.erased() == frame.erased(),
            ended(r.0, (r.0->Ok_0.view(), r.1, final(context)@), final(self).cursor())
                == grammar::stmt::stmt_in(
                old(self).input(),
                old(self).cursor(),
                old(context)@,
                frame,
            ),
        decreases old(self).remaining(), 21nat,
    {
        context.push(frame);
        let parsed = self.parse_stmt(context);
        proof {
            lemma_shape_restored(old(context)@, frame, context@);
        }
        let left = context.pop();
        (parsed, left)
    }

    /// The statements after `left` in a chain joined by `<>`; together they
    /// make a block, at the place of the first `<>`.
    #[verifier::loop_isolation(false)]
    pub fn parse_compound(&mut self, context: &mut StmtContext, left: Stmt) -> (r: ParseResult<Stmt>)
        requires
            old(self).wf(),
            old(context).wf(),
            old(self).cur().kind is Compound,
        ensures
            final(self).follows(old(self)),
            final(context).follows(old(context)),
            r is Ok ==> final(self).pos > old(self).pos,
            ended(r, (r->Ok_0.view(), final(context)@), final(self).cursor()) == grammar::stmt::compound(
                old(self).input(), old(self).cursor(), old(context)@, left.view(),
            ),
        decreases old(self).remaining(), 38nat,
    {
        let loc = self.tokens[self.pos].loc;
        let mut stmts: Vec<Stmt> = Vec::new();
        stmts.push(left);
        assert(stmt_views(stmts@) =~= seq![left.view()]);
        let ghost goal = grammar::stmt::compound_items(
            self.input(),
            self.cursor(),
            context@,
            stmt_views(stmts@),
        );
        while self.at(&TokenKind::Compound)
            invariant
                self.follows(old(self)),
                context.follows(old(context)),
                stmts@.len() == 1 || self.pos > old(self).pos,
                grammar::stmt::compound_items(
                    self.input(),
                    self.cursor(),
                    context@,
                    stmt_views(stmts@),
                ) == goal,
            decreases self.remaining(),
        {
            if let Err(e) = self.take() {
                return Err(e);
            }
            let (parsed, _) = self.parse_stmt_in(context, Frame::NoBlock);
            let stmt = match parsed {
                Ok(x) => x,
                Err(e) => {
                    return Err(e);
                },
            };
            proof {
                lemma_stmt_views_push(stmts@, stmt);
            }
            stmts.push(stmt);
        }
        Ok(Stmt::new(loc, StmtKind::Block(stmts)))
    }

    /// `{ ... }`: the statements between the braces.
    #[verifier::loop_isolation(false)]
    pub fn parse_block(&mut self, context: &mut StmtContext) -> (r: ParseResult<Stmt>)
        requires
            old(self).wf(),
            old(context).wf(),
        ensures
            final(self).follows(old(self)),
            final(context).follows(old(context)),
            r is Ok ==> final(self).pos > old(self).pos,
            ended(r, (r->Ok_0.view(), final(context)@), final(self).cursor()) == grammar::stmt::block(
                old(self).input(), old(self).cursor(), old(context)@,
            ),
        decreases old(self).remaining(), 18nat,
    {
        let loc = self.tokens[self.pos].loc;
        if let Err(e) = self.expect_kind(TokenKind::LBrace) {
            return Err(e);
        }
        let mut stmts: Vec<Stmt> = Vec::new();
        assert(stmt_views(stmts@) =~= Seq::empty());
        let ghost goal = grammar::stmt::block_items(
            self.input(),
            self.cursor(),
            context@,
            Seq::empty(),
        );
        while !self.at(&TokenKind::RBrace)
            invariant
                self.follows(old(self)),
                context.follows(old(context)),
                self.pos > old(self).pos,
                grammar::stmt::block_items(
                    self.input(),
                    self.cursor(),
                    context@,
                    stmt_views(stmts@),
                ) == goal,
            decreases self.remaining(),
        {
            let (parsed, _) = self.parse_stmt_in(context, Frame::Block);
            let stmt = match parsed {
                Ok(x) => x,
                Err(e) => {
                    return Err(e);
                },
            };
            proof {
                lemma_stmt_views_push(stmts@, stmt);
            }
            stmts.push(stmt);
        }
        if let Err(e) = self.take() {
            return Err(e);
        }
        Ok(Stmt::new(loc, StmtKind::Block(stmts)))
    }

    /// Reads the semicolon that ends a statement directly between braces.
    pub fn semicolon_if_required(&mut self, context: &StmtContext) -> (r: ParseResult<()>)
        requires
            old(self).wf(),
        ensures
            final(self).moved(old(self)),
            ended(r, (), final(self).cursor()) == grammar::stmt::semicolon(
                old(self).input(),
                old(self).cursor(),
                context@,
            ),
    {
        if context.require_semicolon() {
            match self.expect_kind(TokenKind::Semicolon) {
                Ok(_) => Ok(()),
                Err(e) => Err(e),
            }
        } else {
            Ok(())
        }
    }

    /// `resultis <expr>`: only inside a `valof`, else `InvalidStmt`. The
    /// first one in a `valof` decides the type of its result; the expression
    /// of each later one is coerced to it.
    pub fn parse_resultis(&mut self, context: &mut StmtContext) -> (r: ParseResult<Stmt>)
        requires
            old(self).wf(),
            old(context).wf(),
        ensures
            final(self).follows(old(self)),
            final(context).follows(old(context)),
            r is Ok ==> final(self).pos > old(self).pos,
            ended(r, (r->Ok_0.view(), final(context)@), final(self).cursor()) == grammar::stmt::resultis(
                old(self).input(), old(self).cursor(), old(context)@,
            ),
        decreases old(self).remaining(), 18nat,
    {
        let loc = match self.expect_kind(TokenKind::ResultIs) {
            Ok(t) => t.loc,
            Err(e) => {
                return Err(e);
            },
        };
        let expr = match self.parse_expr(context) {
            Ok(x) => x,
            Err(e) => {
                return Err(e);
            },
        };
        proof {
            lemma_valof_frame(context@);
        }
        let expr = match context.note_result(loc, expr) {
            Ok(x) => x,
            Err(_) => {
                return fail(
                    ParseError::InvalidStmt(
                        String::from_str("resultis"),
                        String::from_str("valof"),
                    ),
                    loc,
                );
            },
        };
        if let Err(e) = self.semicolon_if_required(context) {
            return Err(e);
        }
        Ok(Stmt::new(loc, StmtKind::ResultIs(Box::new(expr))))
    }

    /// `return`: only inside a function, else `InvalidStmt`.
    pub fn parse_return(&mut self, context: &mut StmtContext) -> (r: ParseResult<Stmt>)
        requires
            old(self).wf(),
            old(context).wf(),
        ensures
            final(self).follows(old(self)),
            final(context).follows(old(context)),
            final(context)@ == old(context)@,
            r is Ok ==> final(self).pos > old(self).pos,
            ended(r, (r->Ok_0.view(), final(context)@), final(self).cursor()) == grammar::stmt::return_(
                old(self).input(), old(self).cursor(), old(context)@,
            ),
    {
        let loc = match self.expect_kind(TokenKind::Return) {
            Ok(t) => t.loc,
            Err(e) => {
                return Err(e);
            },
        };
        if let Err(e) = self.semicolon_if_required(context) {
            return Err(e);
        }
        match context.in_function() {
            Some(_) => Ok(Stmt::new(loc, StmtKind::Return)),
            None => fail(
                ParseError::InvalidStmt(String::from_str("return"), String::from_str("function")),
                loc,
            ),
        }
    }

    /// The condition of `if`, `unless`, `while` and `until`: an expression,
    /// coerced to `Bool`, and an optional `do`.
    pub fn parse_condition(&mut self, context: &mut StmtContext) -> (r: ParseResult<Expr>)
        requires
            old(self).wf(),
            old(context).wf(),
        ensures
            final(self).follows(old(self)),
            final(context).follows(old(context)),
            r is Ok ==> final(self).pos > old(self).pos,
            ended(r, (r->Ok_0.view(), final(context)@), final(self).cursor()) == grammar::stmt::condition(
                old(self).input(), old(self).cursor(), old(context)@,
            ),
        decreases old(self).remaining(), 17nat,
    {
        let condition = match self.parse_expr(context) {
            Ok(x) => x,
            Err(e) => {
                return Err(e);
            },
        };
        let bool_typ = self.builtin(TypeKind::Bool);
        let condition = condition.coerce(Some(bool_typ));
        match self.take_if(TokenKind::Do) {
            Ok(_) => Ok(condition),
            Err(e) => Err(e),
        }
    }

    /// `if <cond> [do] <stmt> [else <stmt>]`
    #[verifier::rlimit(30)]
    pub fn parse_if(&mut self, context: &mut StmtContext) -> (r: ParseResult<Stmt>)
        requires
            old(self).wf(),
            old(context).wf(),
        ensures
            final(self).follows(old(self)),
            final(context).follows(old(context)),
            r is Ok ==> final(self).pos > old(self).pos,
            ended(r, (r->Ok_0.view(), final(context)@), final(self).cursor()) == grammar::stmt::if_(
                old(self).input(), old(self).cursor(), old(context)@,
            ),
        decreases old(self).remaining(), 18nat,
    {
        let loc = match self.expect_kind(TokenKind::If) {
            Ok(t) => t.loc,
            Err(e) => {
                return Err(e);
            },
        };
        let condition = match self.parse_condition(context) {
            Ok(x) => x,
            Err(e) => {
                return Err(e);
            },
        };
        let if_branch = match self.parse_stmt(context) {
            Ok(x) => x,
            Err(e) => {
                return Err(e);
            },
        };
        let has_else = match self.take_if(TokenKind::Else) {
            Ok(x) => x,
            Err(e) => {
                return Err(e);
            },
        };
        let else_branch = if has_else {
            match self.parse_stmt(context) {
                Ok(s) => Some(s),
                Err(e) => {
                    return Err(e);
                },
            }
        } else {
            None
        };
        Ok(Stmt::conditional(loc, condition, if_branch, else_branch))
    }

    /// `unless <cond> [do] <stmt>`
    pub fn parse_unless(&mut self, context: &mut StmtContext) -> (r: ParseResult<Stmt>)
        requires
            old(self).wf(),
            old(context).wf(),
        ensures
            final(self).follows(old(self)),
            final(context).follows(old(context)),
            r is Ok ==> final(self).pos > old(self).pos,
            ended(r, (r->Ok_0.view(), final(context)@), final(self).cursor()) == grammar::stmt::unless(
                old(self).input(), old(self).cursor(), old(context)@,
            ),
        decreases old(self).remaining(), 18nat,
    {
        let loc = match self.expect_kind(TokenKind::Unless) {
            Ok(t) => t.loc,
            Err(e) => {
                return Err(e);
            },
        };
        let condition = match self.parse_condition(context) {
            Ok(x) => x,
            Err(e) => {
                return Err(e);
            },
        };
        let branch = match self.parse_stmt(context) {
            Ok(x) => x,
            Err(e) => {
                return Err(e);
            },
        };
        Ok(Stmt::new(loc, StmtKind::Unless(Box::new(condition), Box::new(branch))))
    }

    /// `while <cond> [do] <stmt>`, or the same with `until` where `negate`
    /// is set. The body is parsed inside a loop.
    #[verifier::rlimit(30)]
    pub fn parse_while(&mut self, context: &mut StmtContext, negate: bool) -> (r: ParseResult<Stmt>)
        requires
            old(self).wf(),
            old(context).wf(),
        ensures
            final(self).follows(old(self)),
            final(context).follows(old(context)),
            r is Ok ==> final(self).pos > old(self).pos,
            ended(r, (r->Ok_0.view(), final(context)@), final(self).cursor()) == grammar::stmt::while_(
                old(self).input(), old(self).cursor(), old(context)@, negate,
            ),
        decreases old(self).remaining(), 18nat,
    {
        let keyword = if negate {
            TokenKind::Until
        } else {
            TokenKind::While
        };
        let loc = match self.expect_kind(keyword) {
            Ok(t) => t.loc,
            Err(e) => {
                return Err(e);
            },
        };
        let condition = match self.parse_condition(context) {
            Ok(x) => x,
            Err(e) => {
                return Err(e);
            },
        };
        let (parsed, _) = self.parse_stmt_in(context, Frame::Loop);
        let body = match parsed {
            Ok(x) => x,
            Err(e) => {
                return Err(e);
            },
        };
        let kind = if negate {
            StmtKind::Until(Box::new(condition), Box::new(body))
        } else {
            StmtKind::While(Box::new(condition), Box::new(body))
        };
        Ok(Stmt::new(loc, kind))
    }

    /// An optional part of the head of a `for`: the keyword and an
    /// expression, which is coerced to the type `typ`.
    pub fn parse_for_part(&mut self, context: &mut StmtContext, keyword: TokenKind, typ: Option<crate::ast::types::TypeIndex>) -> (r: ParseResult<Option<Box<Expr>>>)
        requires
            old(self).wf(),
            old(context).wf(),
            !(keyword is Eof),
        ensures
            final(self).follows(old(self)),
            final(context).follows(old(context)),
            ended(r, (crate::ast::stmt::opt_expr_view(r->Ok_0), final(context)@), final(self).cursor()) == grammar::stmt::for_part(
                old(self).input(), old(self).cursor(), old(context)@, keyword.view(), typ,
            ),
        decreases old(self).remaining(), 17nat,
    {
        if self.at(&keyword) {
            if let Err(e) = self.advance() {
                return Err(e);
            }
            let expr = match self.parse_expr(context) {
                Ok(x) => x,
                Err(e) => {
                    return Err(e);
                },
            };
            Ok(Some(Box::new(expr.coerce(typ))))
        } else {
            Ok(None)
        }
    }

    /// `for <ident> = <init> [to <bound>] [by <step>] [do] <stmt>`: bound
    /// and step are coerced to the type of the initial value, and the body
    /// is parsed inside a loop.
    #[verifier::rlimit(30)]
    pub fn parse_for(&mut self, context: &mut StmtContext) -> (r: ParseResult<Stmt>)
        requires
            old(self).wf(),
            old(context).wf(),
        ensures
            final(self).follows(old(self)),
            final(context).follows(old(context)),
            r is Ok ==> final(self).pos > old(self).pos,
            ended(r, (r->Ok_0.view(), final(context)@), final(self).cursor()) == grammar::stmt::for_(
                old(self).input(), old(self).cursor(), old(context)@,
            ),
        decreases old(self).remaining(), 18nat,
    {
        let loc = match self.expect_kind(TokenKind::For) {
            Ok(t) => t.loc,
            Err(e) => {
                return Err(e);
            },
        };
        let iter_loc = self.tokens[self.pos].loc;
        let iter_ident = match self.expect_ident() {
            Ok(x) => x,
            Err(e) => {
                return Err(e);
            },
        };
        if let Err(e) = self.expect_kind(TokenKind::Eq) {
            return Err(e);
        }
        let init = match self.parse_expr(context) {
            Ok(x) => x,
            Err(e) => {
                return Err(e);
            },
        };
        let typ = init.typ;
        let limit = match self.parse_for_part(context, TokenKind::To, typ) {
            Ok(x) => x,
            Err(e) => {
                return Err(e);
            },
        };
        let step = match self.parse_for_part(context, TokenKind::By, typ) {
            Ok(x) => x,
            Err(e) => {
                return Err(e);
            },
        };
        if let Err(e) = self.take_if(TokenKind::Do) {
            return Err(e);
        }
        let (parsed, _) = self.parse_stmt_in(context, Frame::Loop);
        let body = match parsed {
            Ok(x) => x,
            Err(e) => {
                return Err(e);
            },
        };
        let iter = Located::with_location(Pattern::Query(iter_ident), iter_loc);
        Ok(Stmt::counted(loc, iter, init, limit, step, body))
    }

    /// `switchon <expr> into <stmt>`: the body is parsed inside a
    /// `switchon` frame that carries the type of the expression.
    pub fn parse_switchon(&mut self, context: &mut StmtContext) -> (r: ParseResult<Stmt>)
        requires
            old(self).wf(),
            old(context).wf(),
        ensures
            final(self).follows(old(self)),
            final(context).follows(old(context)),
            r is Ok ==> final(self).pos > old(self).pos,
            ended(r, (r->Ok_0.view(), final(context)@), final(self).cursor()) == grammar::stmt::switchon(
                old(self).input(), old(self).cursor(), old(context)@,
            ),
        decreases old(self).remaining(), 18nat,
    {
        let loc = match self.expect_kind(TokenKind::SwitchOn) {
            Ok(t) => t.loc,
            Err(e) => {
                return Err(e);
            },
        };
        let condition = match self.parse_expr(context) {
            Ok(x) => x,
            Err(e) => {
                return Err(e);
            },
        };
        if let Err(e) = self.expect_kind(TokenKind::Into) {
            return Err(e);
        }
        let (parsed, _) = self.parse_stmt_in(context, Frame::SwitchOn(None, condition.typ));
        let body = match parsed {
            Ok(x) => x,
            Err(e) => {
                return Err(e);
            },
        };
        Ok(Stmt::new(loc, StmtKind::SwitchOn(Box::new(condition), Box::new(body))))
    }

    /// `case <expr>:`: only inside a `switchon`, else `InvalidStmt`; the
    /// expression is coerced to the type that the `switchon` looks at.
    pub fn parse_case(&mut self, context: &mut StmtContext) -> (r: ParseResult<Stmt>)
        requires
            old(self).wf(),
            old(context).wf(),
        ensures
            final(self).follows(old(self)),
            final(context).follows(old(context)),
            r is Ok ==> final(self).pos > old(self).pos,
            ended(r, (r->Ok_0.view(), final(context)@), final(self).cursor()) == grammar::stmt::case(
                old(self).input(), old(self).cursor(), old(context)@,
            ),
            switch_frame(old(context)@) is None ==> r is Err,
        decreases old(self).remaining(), 18nat,
    {
        let loc = match self.expect_kind(TokenKind::Case) {
            Ok(t) => t.loc,
            Err(e) => {
                return Err(e);
            },
        };
        let expr = match self.parse_expr(context) {
            Ok(x) => x,
            Err(e) => {
                return Err(e);
            },
        };
        if let Err(e) = self.expect_kind(TokenKind::Colon) {
            return Err(e);
        }
        proof {
            lemma_switch_frame(context@);
            lemma_switch_same(old(context)@, context@);
        }
        match context.in_switchon() {
            Some((_, cond_typ)) => {
                let expr = expr.coerce(cond_typ);
                Ok(Stmt::new(loc, StmtKind::Case(Box::new(expr))))
            },
            None => fail(
                ParseError::InvalidStmt(String::from_str("case"), String::from_str("switchon")),
                loc,
            ),
        }
    }

    /// `default:`: only inside a `switchon`, else `InvalidStmt`; a second
    /// one in the same `switchon` fails with `Redefinition`, which cites the
    /// place of the first.
    pub fn parse_default_case(&mut self, context: &mut StmtContext) -> (r: ParseResult<Stmt>)
        requires
            old(self).wf(),
            old(context).wf(),
        ensures
            final(self).follows(old(self)),
            final(context).follows(old(context)),
            r is Ok ==> final(self).pos > old(self).pos,
            ended(r, (r->Ok_0.view(), final(context)@), final(self).cursor()) == grammar::stmt::default_case(
                old(self).input(), old(self).cursor(), old(context)@,
            ),
            r is Err ==> final(context)@ == old(context)@,
    {
        let loc = match self.expect_kind(TokenKind::Default) {
            Ok(t) => t.loc,
            Err(e) => {
                return Err(e);
            },
        };
        if let Err(e) = self.expect_kind(TokenKind::Colon) {
            return Err(e);
        }
        proof {
            lemma_switch_frame(context@);
        }
        match context.note_default(loc) {
            Ok(_) => Ok(Stmt::new(loc, StmtKind::DefaultCase)),
            Err(Some(first)) => fail(
                ParseError::Redefinition(first, String::from_str("default case")),
                loc,
            ),
            Err(None) => fail(
                ParseError::InvalidStmt(String::from_str("default"), String::from_str("switchon")),
                loc,
            ),
        }
    }

    /// A `match` or `every` statement: the values to match, then branches
    /// `: patterns be stmt`, each parsed inside a match frame. Each branch
    /// has as many patterns as there are values, else `WrongNumOfPatterns`;
    /// there is a branch, else `MissingBranch`.
    #[verifier::loop_isolation(false)]
    pub fn parse_match_stmt(&mut self, context: &mut StmtContext, kind: MatchKind) -> (r: ParseResult<Stmt>)
        requires
            old(self).wf(),
            old(context).wf(),
            !(old(self).cur().kind is Eof),
        ensures
            final(self).follows(old(self)),
            final(context).follows(old(context)),
            r is Ok ==> final(self).pos > old(self).pos,
            ended(r, (r->Ok_0.view(), final(context)@), final(self).cursor()) == grammar::stmt::match_stmt(
                old(self).input(), old(self).cursor(), old(context)@, kind,
            ),
        decreases old(self).remaining(), 18nat,
    {
        let loc = match self.take() {
            Ok(t) => t.loc,
            Err(e) => {
                return Err(e);
            },
        };
        let args = match self.parse_match_args(context) {
            Ok(x) => x,
            Err(e) => {
                return Err(e);
            },
        };
        let mut branches: Vec<(Vec<Located<Pattern>>, Box<Stmt>)> = Vec::new();
        assert(stmt_branch_views(branches@) =~= Seq::empty());
        let ghost goal = grammar::stmt::stmt_branches(
            self.input(),
            self.cursor(),
            context@,
            loc,
            args.len(),
            Seq::empty(),
        );
        let mut more = true;
        while more
            invariant
                self.follows(old(self)),
                context.follows(old(context)),
                self.pos > old(self).pos,
                grammar::stmt::stmt_branches(
                    self.input(),
                    self.cursor(),
                    context@,
                    loc,
                    args.len(),
                    stmt_branch_views(branches@),
                ) == goal,
                !more ==> goal == grammar::Parsed::Done(
                    (stmt_branch_views(branches@), context@),
                    self.cursor(),
                ),
            decreases self.remaining(), (if more { 1nat } else { 0nat }),
        {
            more = match self.take_if(TokenKind::Colon) {
                Ok(b) => b,
                Err(e) => {
                    return Err(e);
                },
            };
            if !more {
                continue ;
            }
            let patterns = match self.parse_pattern_list() {
                Ok(x) => x,
                Err(e) => {
                    return Err(e);
                },
            };
            proof {
            }
            if let Err(e) = check_arity(&patterns, args.len(), loc) {
                return Err(e);
            }
            if let Err(e) = self.expect_kind(TokenKind::Be) {
                return Err(e);
            }
            let (parsed, _) = self.parse_stmt_in(context, Frame::Match);
            let stmt = match parsed {
                Ok(x) => x,
                Err(e) => {
                    return Err(e);
                },
            };
            proof {
                lemma_stmt_branch_views_push(branches@, (patterns, Box::new(stmt)));
            }
            branches.push((patterns, Box::new(stmt)));
        }
        if let Err(e) = check_branches(branches.len(), kind, loc) {
            return Err(e);
        }
        if let Err(e) = self.semicolon_if_required(context) {
            return Err(e);
        }
        let s = match kind {
            MatchKind::Match => Stmt::new(loc, StmtKind::Match(args, branches)),
            MatchKind::Every => Stmt::new(loc, StmtKind::Every(args, branches)),
        };
        Ok(s)
    }

    /// An expression as a statement. One that cannot have an effect is
    /// warned of.
    pub fn parse_expr_stmt(&mut self, context: &mut StmtContext) -> (r: ParseResult<Stmt>)
        requires
            old(self).wf(),
            old(context).wf(),
        ensures
            final(self).follows(old(self)),
            final(context).follows(old(context)),
            r is Ok ==> final(self).pos > old(self).pos,
            ended(r, (r->Ok_0.view(), final(context)@), final(self).cursor()) == grammar::stmt::expr_stmt(
                old(self).input(), old(self).cursor(), old(context)@,
            ),
        decreases old(self).remaining(), 18nat,
    {
        let loc = self.tokens[self.pos].loc;
        let expr = match self.parse_expr(context) {
            Ok(x) => x,
            Err(e) => {
                return Err(e);
            },
        };
        if !expr.has_sideeffect() {
            self.push_warning(Located::with_location(ParseError::ExprWithoutSideEffect, loc));
        }
        if let Err(e) = self.semicolon_if_required(context) {
            return Err(e);
        }
        Ok(Stmt::new(loc, StmtKind::Expr(Box::new(expr))))
    }

    /// `break`, or `next` where `is_break` is not set: only inside a loop,
    /// a `match` or `every`, or a `switchon`, else `InvalidStmt`.
    pub fn parse_next_break(&mut self, context: &mut StmtContext, is_break: bool) -> (r: ParseResult<Stmt>)
        requires
            old(self).wf(),
            old(context).wf(),
            !(old(self).cur().kind is Eof),
        ensures
            final(self).follows(old(self)),
            final(context).follows(old(context)),
            final(context)@ == old(context)@,
            r is Ok ==> final(self).pos > old(self).pos,
            ended(r, (r->Ok_0.view(), final(context)@), final(self).cursor()) == grammar::stmt::next_break(
                old(self).input(), old(self).cursor(), old(context)@, is_break,
            ),
    {
        let loc = match self.take() {
            Ok(t) => t.loc,
            Err(e) => {
                return Err(e);
            },
        };
        if let Err(e) = self.semicolon_if_required(context) {
            return Err(e);
        }
        proof {
            lemma_switch_frame(context@);
        }
        let inside = context.in_loop() || context.in_match() || context.in_switchon().is_some();
        if !inside {
            let word = if is_break {
                String::from_str("break")
            } else {
                String::from_str("next")
            };
            fail(
                ParseError::InvalidStmt(word, String::from_str("loop, match, every or switchon")),
                loc,
            )
        } else {
            Ok(
                Stmt::new(
                    loc,
                    if is_break {
                        StmtKind::Break
                    } else {
                        StmtKind::Next
                    },
                ),
            )
        }
    }

}

} // verus!
