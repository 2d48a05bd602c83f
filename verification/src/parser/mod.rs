//! The parser: from tokens to the syntax tree, resolving types on the way.

use vstd::prelude::*;
use crate::ast::types::grown;
use crate::ast::Program;
use crate::grammar::{notes, Cursor, Parsed};
use crate::error::{diagnostics, CompilerError, Diagnostic, IntoCompilerError, Severity};
use crate::token::lexer::{loc_of, stream, Lexer};
use crate::source_file::{Located, Location, WithLocation};
use crate::text::{decimal, push_decimal, push_text};
use crate::token::{
    kind_views, lemma_lexemes_of, lexeme_of, lexemes_of, Lexeme, Token, TokenKind, TokenKindView,
};


pub mod context;
pub mod precedence;
pub mod types;
pub mod expr;
pub mod pattern;
pub mod stmt;
pub mod decls;

verus! {

/// What can go wrong in parsing, and what the parser warns of.
#[derive(Debug)]
pub enum ParseError {
    NotImplemented,
    Generic(String),
    /// The input ended where one of the given tokens had to stand.
    UnexpectedEof(Vec<TokenKind>),
    /// The token shown stands where one of the given tokens had to stand.
    UnexpectedToken(String, Vec<TokenKind>),
    /// The name was defined before, at the given place.
    Redefinition(Location, String),
    /// The statement named first stands outside of what is named second.
    InvalidStmt(String, String),
    /// A branch does not have the given number of patterns.
    WrongNumOfPatterns(usize),
    /// The construct named has no branch.
    MissingBranch(String),
    NoResultValue,
    RequireAfterDecl,
    ExprWithoutSideEffect,
}

/// The mathematical value of a parse error: texts as character sequences.
pub ghost enum ParseErrorView {
    NotImplemented,
    Generic(Seq<char>),
    UnexpectedEof(Seq<TokenKindView>),
    UnexpectedToken(Seq<char>, Seq<TokenKindView>),
    Redefinition(Location, Seq<char>),
    InvalidStmt(Seq<char>, Seq<char>),
    WrongNumOfPatterns(usize),
    MissingBranch(Seq<char>),
    NoResultValue,
    RequireAfterDecl,
    ExprWithoutSideEffect,
}

pub type ParseResult<T> = Result<T, Located<ParseError>>;

/// A token kind between backquotes.
pub open spec fn quoted(kind: TokenKindView) -> Seq<char> {
    "`"@ + kind.text() + "`"@
}

/// The token kinds of `list`, each between backquotes, with ", " between
/// them.
pub open spec fn joined(list: Seq<TokenKindView>) -> Seq<char>
    decreases list.len(),
{
    if list.len() == 0 {
        Seq::empty()
    } else if list.len() == 1 {
        quoted(list[0])
    } else {
        joined(list.drop_last()) + ", "@ + quoted(list.last())
    }
}

/// How a list of expected tokens is named in a message.
pub open spec fn tokens_text(list: Seq<TokenKindView>) -> Seq<char> {
    if list.len() == 1 {
        quoted(list[0])
    } else {
        "one of "@ + joined(list)
    }
}

impl ParseErrorView {
    /// Warnings are what does not stop the parser.
    pub open spec fn level(self) -> Severity {
        match self {
            ParseErrorView::RequireAfterDecl => Severity::Warning,
            ParseErrorView::ExprWithoutSideEffect => Severity::Warning,
            _ => Severity::Error,
        }
    }

    /// The advice that goes with the error.
    pub open spec fn hint_text(self) -> Option<Seq<char>> {
        match self {
            ParseErrorView::RequireAfterDecl => Some("Move this over the first declaration."@),
            _ => None,
        }
    }

    /// The message of the error.
    pub open spec fn message(self) -> Seq<char> {
        match self {
            ParseErrorView::NotImplemented => "<internal> Not Implemented."@,
            ParseErrorView::Generic(err) => err,
            ParseErrorView::UnexpectedEof(want) => "Unexpected end of file; Expected "@
                + tokens_text(want) + "."@,
            ParseErrorView::UnexpectedToken(got, want) => "Unexpected token `"@ + got
                + "`; Expected "@ + tokens_text(want) + "."@,
            ParseErrorView::Redefinition(_, ident) => "Redefinition of `"@ + ident + "`."@,
            ParseErrorView::InvalidStmt(stmt, outside) => "Encountered `"@ + stmt
                + "` statement outside of `"@ + outside + "`."@,
            ParseErrorView::WrongNumOfPatterns(n) => "Wrong number of patterns, expected "@
                + decimal(n as nat) + "."@,
            ParseErrorView::MissingBranch(s) => "Missing branch in `"@ + s + "`."@,
            ParseErrorView::NoResultValue => "No `resultis` statement found in `valof` body."@,
            ParseErrorView::RequireAfterDecl => "Encountered `require` after declarations."@,
            ParseErrorView::ExprWithoutSideEffect =>
                "Expression has no side-effect when used as a statement."@,
        }
    }

    /// The related diagnostics: for a redefinition, a hint at the place of
    /// the first definition.
    pub open spec fn related(self) -> Seq<(Diagnostic, Location)> {
        match self {
            ParseErrorView::Redefinition(first, _) => seq![
                (
                    Diagnostic {
                        severity: Severity::Hint,
                        message: "First defined here."@,
                        hint: None,
                        additional: Seq::empty(),
                    },
                    first,
                ),
            ],
            _ => Seq::empty(),
        }
    }

    /// The diagnostic that reports the error.
    pub open spec fn diagnostic(self) -> Diagnostic {
        Diagnostic {
            severity: self.level(),
            message: self.message(),
            hint: self.hint_text(),
            additional: self.related(),
        }
    }
}

pub fn tokens_to_string(list: &Vec<TokenKind>) -> (r: String)
    ensures
        r@ == tokens_text(kind_views(list@)),
{
    let ghost views = kind_views(list@);
    let mut r = String::new();
    if list.len() == 1 {
        push_text(&mut r, "`");
        push_text(&mut r, list[0].to_string().as_str());
        push_text(&mut r, "`");
        assert(r@ =~= quoted(views[0]));
        return r;
    }
    push_text(&mut r, "one of ");
    let mut i: usize = 0;
    while i < list.len()
        invariant
            i <= list@.len(),
            views == kind_views(list@),
            r@ == "one of "@ + joined(views.take(i as int)),
        decreases list@.len() - i,
    {
        let ghost before = r@;
        if i > 0 {
            push_text(&mut r, ", ");
        }
        push_text(&mut r, "`");
        push_text(&mut r, list[i].to_string().as_str());
        push_text(&mut r, "`");
        proof {
            let next = views.take(i + 1);
            assert(next.drop_last() =~= views.take(i as int));
            assert(next.last() == list@[i as int].view());
            if i == 0 {
                assert(joined(views.take(0)) =~= Seq::<char>::empty());
                assert(r@ =~= "one of "@ + joined(next));
            } else {
                assert(r@ =~= "one of "@ + joined(next));
            }
        }
        i += 1;
    }
    assert(views.take(i as int) =~= views);
    r
}

/// A copy of a list of token kinds.
pub fn copy_kinds(list: &Vec<TokenKind>) -> (r: Vec<TokenKind>)
    ensures
        r@ == list@,
{
    let mut r: Vec<TokenKind> = Vec::new();
    let mut i: usize = 0;
    while i < list.len()
        invariant
            i <= list@.len(),
            r@ == list@.take(i as int),
        decreases list@.len() - i,
    {
        r.push(list[i].duplicate());
        assert(list@.take(i + 1) =~= list@.take(i as int).push(list@[i as int]));
        i += 1;
    }
    assert(list@.take(i as int) =~= list@);
    r
}

/// Whether `kind` is one of the kinds of `list`.
pub open spec fn kind_in(kind: TokenKindView, list: Seq<TokenKindView>) -> bool {
    list.contains(kind)
}

pub fn contains_kind(list: &Vec<TokenKind>, kind: &TokenKind) -> (r: bool)
    ensures
        r == kind_in(kind.view(), kind_views(list@)),
{
    let mut i: usize = 0;
    while i < list.len()
        invariant
            i <= list@.len(),
            forall|j: int| 0 <= j < i ==> (#[trigger] kind_views(list@)[j]) != kind.view(),
        decreases list@.len() - i,
    {
        if list[i].equals(kind) {
            assert(kind_views(list@)[i as int] == kind.view());
            return true;
        }
        i += 1;
    }
    false
}

impl ParseError {
    pub open spec fn view(&self) -> ParseErrorView {
        match self {
            ParseError::NotImplemented => ParseErrorView::NotImplemented,
            ParseError::Generic(s) => ParseErrorView::Generic(s@),
            ParseError::UnexpectedEof(want) => ParseErrorView::UnexpectedEof(kind_views(want@)),
            ParseError::UnexpectedToken(got, want) => ParseErrorView::UnexpectedToken(
                got@,
                kind_views(want@),
            ),
            ParseError::Redefinition(loc, ident) => ParseErrorView::Redefinition(*loc, ident@),
            ParseError::InvalidStmt(stmt, outside) => ParseErrorView::InvalidStmt(stmt@, outside@),
            ParseError::WrongNumOfPatterns(n) => ParseErrorView::WrongNumOfPatterns(*n),
            ParseError::MissingBranch(s) => ParseErrorView::MissingBranch(s@),
            ParseError::NoResultValue => ParseErrorView::NoResultValue,
            ParseError::RequireAfterDecl => ParseErrorView::RequireAfterDecl,
            ParseError::ExprWithoutSideEffect => ParseErrorView::ExprWithoutSideEffect,
        }
    }

    /// Warnings are what does not stop the parser.
    pub open spec fn level(&self) -> Severity {
        self.view().level()
    }

    pub fn severity(&self) -> (r: Severity)
        ensures
            r == self.level(),
    {
        match self {
            ParseError::RequireAfterDecl => Severity::Warning,
            ParseError::ExprWithoutSideEffect => Severity::Warning,
            _ => Severity::Error,
        }
    }

    /// The advice that goes with the error.
    pub open spec fn hint_text(&self) -> Option<Seq<char>> {
        self.view().hint_text()
    }

    pub fn hint(&self) -> (r: Option<String>)
        ensures
            match r {
                Some(h) => self.hint_text() == Some(h@),
                None => self.hint_text() is None,
            },
    {
        match self {
            ParseError::RequireAfterDecl => Some(
                String::from_str("Move this over the first declaration."),
            ),
            _ => None,
        }
    }

    /// The related diagnostics: for a redefinition, a hint at the place of
    /// the first definition.
    pub fn additional(&self) -> (r: Vec<Located<CompilerError>>)
        ensures
            diagnostics(r@) == self.view().related(),
    {
        match self {
            ParseError::Redefinition(prev_loc, _) => {
                let mut r: Vec<Located<CompilerError>> = Vec::new();
                let hint = CompilerError::new(
                    Severity::Hint,
                    String::from_str("First defined here."),
                    None,
                    Vec::new(),
                );
                assert(hint@.additional =~= Seq::empty());
                r.push(hint.with_location(*prev_loc));
                assert(diagnostics(r@) =~= self.view().related());
                r
            },
            _ => {
                let r: Vec<Located<CompilerError>> = Vec::new();
                assert(diagnostics(r@) =~= self.view().related());
                r
            },
        }
    }

    /// The message of the error.
    pub open spec fn message(&self) -> Seq<char> {
        self.view().message()
    }

    pub fn to_string(&self) -> (r: String)
        ensures
            r@ == self.message(),
    {
        let mut r = String::new();
        match self {
            ParseError::NotImplemented => push_text(&mut r, "<internal> Not Implemented."),
            ParseError::Generic(err) => push_text(&mut r, err.as_str()),
            ParseError::UnexpectedEof(want) => {
                push_text(&mut r, "Unexpected end of file; Expected ");
                push_text(&mut r, tokens_to_string(want).as_str());
                push_text(&mut r, ".");
            },
            ParseError::UnexpectedToken(got, want) => {
                push_text(&mut r, "Unexpected token `");
                push_text(&mut r, got.as_str());
                push_text(&mut r, "`; Expected ");
                push_text(&mut r, tokens_to_string(want).as_str());
                push_text(&mut r, ".");
            },
            ParseError::Redefinition(_, ident) => {
                push_text(&mut r, "Redefinition of `");
                push_text(&mut r, ident.as_str());
                push_text(&mut r, "`.");
            },
            ParseError::InvalidStmt(stmt, outside) => {
                push_text(&mut r, "Encountered `");
                push_text(&mut r, stmt.as_str());
                push_text(&mut r, "` statement outside of `");
                push_text(&mut r, outside.as_str());
                push_text(&mut r, "`.");
            },
            ParseError::WrongNumOfPatterns(n) => {
                push_text(&mut r, "Wrong number of patterns, expected ");
                push_decimal(&mut r, *n as u64);
                push_text(&mut r, ".");
            },
            ParseError::MissingBranch(s) => {
                push_text(&mut r, "Missing branch in `");
                push_text(&mut r, s.as_str());
                push_text(&mut r, "`.");
            },
            ParseError::NoResultValue => push_text(
                &mut r,
                "No `resultis` statement found in `valof` body.",
            ),
            ParseError::RequireAfterDecl => push_text(
                &mut r,
                "Encountered `require` after declarations.",
            ),
            ParseError::ExprWithoutSideEffect => push_text(
                &mut r,
                "Expression has no side-effect when used as a statement.",
            ),
        }
        assert(r@ =~= self.message());
        r
    }

    /// A copy of this error.
    pub fn duplicate(&self) -> (r: ParseError)
        ensures
            r.view() == self.view(),
    {
        match self {
            ParseError::NotImplemented => ParseError::NotImplemented,
            ParseError::Generic(s) => ParseError::Generic(s.clone()),
            ParseError::UnexpectedEof(want) => ParseError::UnexpectedEof(copy_kinds(want)),
            ParseError::UnexpectedToken(got, want) => ParseError::UnexpectedToken(
                got.clone(),
                copy_kinds(want),
            ),
            ParseError::Redefinition(loc, ident) => ParseError::Redefinition(*loc, ident.clone()),
            ParseError::InvalidStmt(stmt, outside) => ParseError::InvalidStmt(
                stmt.clone(),
                outside.clone(),
            ),
            ParseError::WrongNumOfPatterns(n) => ParseError::WrongNumOfPatterns(*n),
            ParseError::MissingBranch(s) => ParseError::MissingBranch(s.clone()),
            ParseError::NoResultValue => ParseError::NoResultValue,
            ParseError::RequireAfterDecl => ParseError::RequireAfterDecl,
            ParseError::ExprWithoutSideEffect => ParseError::ExprWithoutSideEffect,
        }
    }
}

impl WithLocation for ParseError {
    fn with_location(self, loc: Location) -> (r: Located<Self>) {
        Located::with_location(self, loc)
    }
}

impl IntoCompilerError for ParseError {
    open spec fn diagnostic(&self) -> Diagnostic {
        self.view().diagnostic()
    }

    fn into_compiler_error(self) -> (r: CompilerError) {
        let severity = self.severity();
        let message = self.to_string();
        let hint = self.hint();
        let additional = self.additional();
        CompilerError::new(severity, message, hint, additional)
    }
}

/// Whether `r` is the error `error` at `loc`.
pub open spec fn fails_with<T>(r: ParseResult<T>, loc: Location, error: ParseErrorView) -> bool {
    r matches Err(e) && e.loc == loc && e.inner.view() == error
}

/// An error of the given kind at `loc`.
pub fn fail<T>(error: ParseError, loc: Location) -> (r: ParseResult<T>)
    ensures
        r matches Err(e) && e.inner == error && e.loc == loc,
        fails_with(r, loc, error.view()),
{
    Err(Located::with_location(error, loc))
}

/// How a rule of the parser has ended: with `value`, where it returned
/// `Ok`, and the cursor `after` behind what it read, or with its error.
pub open spec fn ended<T, V>(r: ParseResult<T>, value: V, after: Cursor) -> Parsed<V> {
    match r {
        Ok(_) => Parsed::Done(value, after),
        Err(e) => Parsed::Failed(e.inner.view(), e.loc),
    }
}

/// The parser of one token stream. It owns the program that it adds to
/// while it parses; `into_program` gives the program back.
#[derive(Debug)]
pub struct Parser {
    pub tokens: Vec<Token>,
    pub pos: usize,
    pub ast: Program,
    pub warnings: Vec<Located<ParseError>>,
}

impl Parser {
    /// The cursor stands on a token, which the grammar sees as it is; the
    /// last token ends the input; the program is well-formed.
    pub open spec fn wf(&self) -> bool {
        &&& self.pos < self.tokens@.len()
        &&& self.tokens@.last().kind is Eof
        &&& self.input().len() == self.tokens@.len()
        &&& self.input()[self.pos as int] == lexeme_of(self.cur())
        &&& self.ast.wf()
    }

    /// The token under the cursor.
    pub open spec fn cur(&self) -> Token {
        self.tokens@[self.pos as int]
    }

    /// The tokens as the grammar sees them.
    pub open spec fn input(&self) -> Seq<Lexeme> {
        lexemes_of(self.tokens@)
    }

    /// The number of tokens from the cursor to the end.
    pub open spec fn remaining(&self) -> nat {
        (self.tokens@.len() - self.pos) as nat
    }

    /// Where the parser stands: the cursor, the tables, and the warnings.
    pub open spec fn cursor(&self) -> Cursor {
        Cursor {
            pos: self.pos as int,
            types: self.ast.types@,
            atoms: self.ast.atom_names(),
            warnings: notes(self.warnings@),
        }
    }

    /// What every step of the parser keeps: the tokens, a cursor that never
    /// goes back, well-formedness, the sections, and the warnings given so
    /// far; the tables of types and of atoms keep what they hold and get
    /// entries at their ends.
    pub open spec fn follows(&self, before: &Parser) -> bool {
        &&& self.wf()
        &&& self.tokens == before.tokens
        &&& self.pos >= before.pos
        &&& self.ast.sections == before.ast.sections
        &&& before.warnings@.is_prefix_of(self.warnings@)
        &&& before.ast.atom_names().is_prefix_of(self.ast.atom_names())
        &&& before.ast.types@.is_prefix_of(self.ast.types@)
    }

    /// A parser of the tokens that `lexer` yields, up to the end of its
    /// input. It has read nothing yet: it stands on an end-of-file token at
    /// the place of the lexer, before the first token, and `parse` makes the
    /// first step.
    pub fn new(lexer: Lexer, ast: Program) -> (p: Self)
        requires
            lexer.wf(),
            ast.wf(),
        ensures
            p.wf(),
            p.input() == stream(lexer.chars@, lexer.file_id, lexer.place()),
            p.pos == 0,
            p.cur().kind is Eof,
            p.cur().loc == loc_of(lexer.file_id, lexer.place()),
            p.ast == ast,
            p.warnings@.len() == 0,
    {
        let mut lexer = lexer;
        let start = Token::eof(lexer.current_loc());
        let mut tokens = lexer.tokenize();
        let ghost read = tokens@;
        tokens.insert(0, start);
        proof {
            lemma_lexemes_of(tokens@);
            lemma_lexemes_of(read);
            assert(tokens@ =~= seq![start].add(read));
            assert(lexemes_of(tokens@) =~= seq![lexeme_of(start)].add(lexemes_of(read)));
        }
        Parser { tokens, pos: 0, ast, warnings: Vec::new() }
    }

    /// The tokens that a parser made of `tokens` holds: before them an
    /// end-of-file token, on which the parser stands, at the place of the
    /// first of them; and behind them one more, where the last is none.
    pub open spec fn framed(tokens: Seq<Token>) -> Seq<Token> {
        let first = Token {
            kind: TokenKind::Eof,
            loc: if tokens.len() > 0 {
                tokens[0].loc
            } else {
                Location { source_file_id: 0, line: 1, column: 0, width: 1 }
            },
        };
        let last = Token {
            kind: TokenKind::Eof,
            loc: if tokens.len() > 0 {
                tokens.last().loc
            } else {
                Location { source_file_id: 0, line: 1, column: 0, width: 1 }
            },
        };
        if tokens.len() > 0 && tokens.last().kind is Eof {
            seq![first].add(tokens)
        } else {
            seq![first].add(tokens).push(last)
        }
    }

    /// A parser of the given tokens, which has read nothing yet: it stands
    /// on an end-of-file token before them. An end-of-file token is
    /// appended where the last token is not one.
    pub fn from_tokens(tokens: Vec<Token>, ast: Program) -> (p: Self)
        requires
            ast.wf(),
        ensures
            p.wf(),
            p.pos == 0,
            p.cur().kind is Eof,
            p.ast == ast,
            p.warnings@.len() == 0,
            p.tokens@ == Parser::framed(tokens@),
    {
        let mut tokens = tokens;
        let ghost given = tokens@;
        let n = tokens.len();
        let nowhere = Location { source_file_id: 0, line: 1, column: 0, width: 1 };
        if n == 0 {
            tokens.push(Token::eof(nowhere));
        } else if !tokens[n - 1].is_eof() {
            let loc = tokens[n - 1].loc;
            tokens.push(Token::eof(loc));
        }
        let first = if n == 0 {
            nowhere
        } else {
            tokens[0].loc
        };
        tokens.insert(0, Token::eof(first));
        proof {
            lemma_lexemes_of(tokens@);
            assert(tokens@ =~= Parser::framed(given));
        }
        Parser { tokens, pos: 0, ast, warnings: Vec::new() }
    }

    /// Gives back the program.
    pub fn into_program(self) -> (r: Program)
        ensures
            r == self.ast,
    {
        self.ast
    }

    pub fn program(&self) -> (r: &Program)
        ensures
            *r == self.ast,
    {
        &self.ast
    }

    pub fn push_warning(&mut self, warning: Located<ParseError>)
        ensures
            final(self).warnings@ == old(self).warnings@.push(warning),
            final(self).tokens == old(self).tokens,
            final(self).pos == old(self).pos,
            final(self).ast == old(self).ast,
            final(self).cursor() == (Cursor {
                warnings: old(self).cursor().warnings.push(
                    crate::grammar::Note { error: warning.inner.view(), loc: warning.loc },
                ),
                ..old(self).cursor()
            }),
    {
        self.warnings.push(warning);
        assert(notes(self.warnings@) =~= notes(old(self).warnings@).push(
            crate::grammar::Note { error: warning.inner.view(), loc: warning.loc },
        ));
    }

    pub fn warnings(&self) -> (r: &Vec<Located<ParseError>>)
        ensures
            *r == self.warnings,
    {
        &self.warnings
    }

    pub fn current(&self) -> (r: &Token)
        requires
            self.wf(),
        ensures
            *r == self.cur(),
    {
        &self.tokens[self.pos]
    }

    /// Whether the token under the cursor is of the given kind.
    pub fn at(&self, kind: &TokenKind) -> (r: bool)
        requires
            self.wf(),
        ensures
            r == (self.cur().kind.view() == kind.view()),
            r == (crate::grammar::kind_at(self.input(), self.cursor()) == kind.view()),
    {
        self.tokens[self.pos].kind.equals(kind)
    }

    /// What a step of the cursor keeps: all but the position.
    pub open spec fn moved(&self, before: &Parser) -> bool {
        &&& self.wf()
        &&& self.tokens == before.tokens
        &&& self.ast == before.ast
        &&& self.warnings == before.warnings
        &&& self.pos >= before.pos
    }

    /// Moves the cursor to the next token and returns the one it left.
    /// Fails where the cursor comes to stand on an error token, with the
    /// message and at the place of that token.
    pub fn advance(&mut self) -> (r: ParseResult<Token>)
        requires
            old(self).wf(),
        ensures
            final(self).moved(old(self)),
            final(self).pos <= old(self).pos + 1,
            !(old(self).cur().kind is Eof) ==> final(self).pos == old(self).pos + 1,
            r matches Ok(t) ==> t == old(self).cur(),
            ended(r, (), final(self).cursor()) == crate::grammar::advance(
                old(self).input(),
                old(self).cursor(),
            ),
    {
        let last = self.tokens[self.pos].duplicate();
        if self.pos < self.tokens.len() - 1 {
            self.pos = self.pos + 1;
        }
        proof {
            lemma_lexemes_of(self.tokens@);
        }
        match &self.tokens[self.pos].kind {
            TokenKind::Error(msg) => {
                let text = match msg {
                    Some(m) => m.clone(),
                    None => String::new(),
                };
                fail(ParseError::Generic(text), self.tokens[self.pos].loc)
            },
            _ => Ok(last),
        }
    }

    /// Moves on if the token under the cursor is one of `expect`.
    pub fn advance_if(&mut self, expect: &Vec<TokenKind>) -> (r: ParseResult<Option<Token>>)
        requires
            old(self).wf(),
        ensures
            final(self).moved(old(self)),
            if kind_in(old(self).cur().kind.view(), kind_views(expect@)) {
                &&& r matches Ok(t) ==> t == Some(old(self).cur())
                &&& ended(r, (), final(self).cursor()) == crate::grammar::advance(
                    old(self).input(),
                    old(self).cursor(),
                )
            } else {
                final(self).pos == old(self).pos && r == Ok::<Option<Token>, Located<ParseError>>(
                    None,
                )
            },
    {
        if contains_kind(expect, &self.tokens[self.pos].kind) {
            match self.advance() {
                Ok(t) => Ok(Some(t)),
                Err(e) => Err(e),
            }
        } else {
            Ok(None)
        }
    }

    /// Moves on if the token under the cursor is one of `expect`, and fails
    /// otherwise: with `UnexpectedEof` at the end of the input, else with
    /// `UnexpectedToken`.
    pub fn expect(&mut self, expect: &Vec<TokenKind>) -> (r: ParseResult<Token>)
        requires
            old(self).wf(),
        ensures
            final(self).moved(old(self)),
            final(self).pos <= old(self).pos + 1,
            r is Ok ==> final(self).pos == old(self).pos + 1,
            r matches Ok(t) ==> t == old(self).cur() && kind_in(t.kind.view(), kind_views(expect@)),
            ended(r, (), final(self).cursor()) == crate::grammar::expect(
                old(self).input(),
                old(self).cursor(),
                kind_views(expect@),
            ),
    {
        if self.tokens[self.pos].is_eof() {
            fail(ParseError::UnexpectedEof(copy_kinds(expect)), self.tokens[self.pos].loc)
        } else if !contains_kind(expect, &self.tokens[self.pos].kind) {
            self.unexpected(expect)
        } else {
            self.advance()
        }
    }

    /// `expect` for a single kind.
    pub fn expect_kind(&mut self, kind: TokenKind) -> (r: ParseResult<Token>)
        requires
            old(self).wf(),
        ensures
            final(self).moved(old(self)),
            final(self).pos <= old(self).pos + 1,
            r is Ok ==> final(self).pos == old(self).pos + 1,
            r matches Ok(t) ==> t == old(self).cur() && t.kind.view() == kind.view(),
            ended(r, (), final(self).cursor()) == crate::grammar::expect_kind(
                old(self).input(),
                old(self).cursor(),
                kind.view(),
            ),
    {
        let mut want: Vec<TokenKind> = Vec::new();
        want.push(kind);
        assert(kind_views(want@) =~= seq![kind.view()]);
        assert(seq![kind.view()][0] == kind.view());
        self.expect(&want)
    }

    /// `expect` for two kinds.
    pub fn expect_either(&mut self, first: TokenKind, second: TokenKind) -> (r: ParseResult<Token>)
        requires
            old(self).wf(),
        ensures
            final(self).moved(old(self)),
            final(self).pos <= old(self).pos + 1,
            r is Ok ==> final(self).pos == old(self).pos + 1,
            r matches Ok(t) ==> t == old(self).cur() && (t.kind.view() == first.view()
                || t.kind.view() == second.view()),
            ended(r, (), final(self).cursor()) == crate::grammar::expect_either(
                old(self).input(),
                old(self).cursor(),
                first.view(),
                second.view(),
            ),
    {
        let mut want: Vec<TokenKind> = Vec::new();
        want.push(first);
        want.push(second);
        assert(kind_views(want@) =~= seq![first.view(), second.view()]);
        assert(seq![first.view(), second.view()][0] == first.view());
        assert(seq![first.view(), second.view()][1] == second.view());
        self.expect(&want)
    }

    /// Moves over the token under the cursor, which is known not to end the
    /// input.
    pub fn take(&mut self) -> (r: ParseResult<Token>)
        requires
            old(self).wf(),
            !(old(self).cur().kind is Eof),
        ensures
            final(self).moved(old(self)),
            final(self).pos == old(self).pos + 1,
            r matches Ok(t) ==> t == old(self).cur(),
            ended(r, (), final(self).cursor()) == crate::grammar::advance(
                old(self).input(),
                old(self).cursor(),
            ),
    {
        self.advance()
    }

    /// Moves over the token under the cursor if it is of the given kind,
    /// and says whether it was.
    pub fn take_if(&mut self, kind: TokenKind) -> (r: ParseResult<bool>)
        requires
            old(self).wf(),
        ensures
            final(self).moved(old(self)),
            final(self).pos <= old(self).pos + 1,
            r matches Ok(b) ==> b == (old(self).cur().kind.view() == kind.view()),
            r == Ok::<bool, Located<ParseError>>(true) && !(kind is Eof) ==> final(self).pos
                == old(self).pos + 1,
            r == Ok::<bool, Located<ParseError>>(false) ==> final(self).pos == old(self).pos,
            ended(r, r->Ok_0, final(self).cursor()) == crate::grammar::take_if(
                old(self).input(),
                old(self).cursor(),
                kind.view(),
            ),
    {
        if self.at(&kind) {
            match self.advance() {
                Ok(_) => Ok(true),
                Err(e) => Err(e),
            }
        } else {
            Ok(false)
        }
    }

    /// Moves over an identifier and returns its text.
    pub fn expect_ident(&mut self) -> (r: ParseResult<String>)
        requires
            old(self).wf(),
        ensures
            final(self).moved(old(self)),
            final(self).pos <= old(self).pos + 1,
            r is Ok ==> final(self).pos == old(self).pos + 1,
            r matches Ok(name) ==> old(self).cur().kind == TokenKind::Ident(name),
            ended(r, r->Ok_0@, final(self).cursor()) == crate::grammar::expect_ident(
                old(self).input(),
                old(self).cursor(),
            ),
    {
        let found = match &self.tokens[self.pos].kind {
            TokenKind::Ident(ident) => Some(ident.clone()),
            _ => None,
        };
        match found {
            Some(ident) => {
                match self.advance() {
                    Ok(_) => Ok(ident),
                    Err(e) => Err(e),
                }
            },
            None => self.unexpected_here("section name"),
        }
    }

    /// Fails with `UnexpectedToken`, naming the token under the cursor and
    /// what was wanted in its place.
    pub fn unexpected<T>(&self, want: &Vec<TokenKind>) -> (r: ParseResult<T>)
        requires
            self.wf(),
        ensures
            fails_with(
                r,
                self.cur().loc,
                ParseErrorView::UnexpectedToken(self.cur().kind.text(), kind_views(want@)),
            ),
    {
        let got = self.tokens[self.pos].kind.to_string();
        fail(ParseError::UnexpectedToken(got, copy_kinds(want)), self.tokens[self.pos].loc)
    }

    /// Fails with `UnexpectedToken`, the wanted thing being described by
    /// `what` in the place of a token.
    pub fn unexpected_here<T>(&self, what: &str) -> (r: ParseResult<T>)
        requires
            self.wf(),
        ensures
            fails_with(
                r,
                self.cur().loc,
                ParseErrorView::UnexpectedToken(
                    self.cur().kind.text(),
                    seq![TokenKindView::Ident(what@)],
                ),
            ),
            r is Err,
            forall|v: T, c: Cursor|
                #[trigger] ended(r, v, c) == crate::grammar::unexpected::<T>(
                    self.input(),
                    self.cursor(),
                    what@,
                ),
    {
        let got = self.tokens[self.pos].kind.to_string();
        let mut want: Vec<TokenKind> = Vec::new();
        want.push(TokenKind::Ident(String::from_str(what)));
        assert(kind_views(want@) =~= seq![TokenKindView::Ident(what@)]);
        fail(ParseError::UnexpectedToken(got, want), self.tokens[self.pos].loc)
    }
}

} // verus!
