//! The rules for sections and declarations.

use vstd::prelude::*;
use crate::ast::expr::ExprView;
use crate::ast::pattern::PatternView;
use crate::ast::stmt::StmtView;
use crate::ast::types::{TypeIndex, UNIT_TYPE};
use crate::ast::{
    required_count, section_names, DeclView, FunctionBodyView, FunctionView,
    ParamView, PlacedName, SectionView,
};
use crate::grammar::expr::{coerced, expr};
use crate::grammar::pattern::pattern_list;
use crate::grammar::stmt::stmt;
use crate::grammar::types::{type_, type_alias};
use crate::grammar::{
    advance, expect, expect_either, expect_ident, expect_kind, forward, kind_at, left, loc_at,
    message_of, onward, take_if, Cursor, Note, Parsed,
};
use crate::parser::context::Frame;
use crate::parser::ParseErrorView;
use crate::source_file::{low32, Location};
use crate::text::index_of_name;
use crate::token::{Lexeme, TokenKindView};

verus! {

/// `require <ident>`: the name of a section, at the place of the keyword.
pub open spec fn require(toks: Seq<Lexeme>, c: Cursor) -> Parsed<PlacedName> {
    match expect_kind(toks, c, TokenKindView::Require) {
        Parsed::Failed(e, l) => Parsed::Failed(e, l),
        Parsed::Done(_, c1) => match expect_ident(toks, c1) {
            Parsed::Failed(e, l) => Parsed::Failed(e, l),
            Parsed::Done(name, c2) => Parsed::Done(PlacedName { name, loc: loc_at(toks, c) }, c2),
        },
    }
}

/// A parameter: `<ident> [:: <type>] [= <default>]`. One of type and
/// default has to be there; where both are, the default is coerced to the
/// type.
pub open spec fn param(toks: Seq<Lexeme>, c: Cursor) -> Parsed<ParamView>
    decreases left(toks, c), 22nat,
{
    let loc = loc_at(toks, c);
    match expect_ident(toks, c) {
        Parsed::Failed(e, l) => Parsed::Failed(e, l),
        Parsed::Done(name, c1) => match forward(c1, param_type(toks, c1)) {
            Parsed::Failed(e, l) => Parsed::Failed(e, l),
            Parsed::Done(typ, c2) => match param_default(toks, c2) {
                Parsed::Failed(e, l) => Parsed::Failed(e, l),
                Parsed::Done(value, c3) => match ParamView::declared(loc, name, typ, value) {
                    Some(p) => Parsed::Done(p, c3),
                    None => Parsed::Failed(
                        ParseErrorView::Generic(
                            "Parameter requires either a type or default value."@,
                        ),
                        loc,
                    ),
                },
            },
        },
    }
}

/// The type of a parameter, if it is declared: `::` and a type.
pub open spec fn param_type(toks: Seq<Lexeme>, c: Cursor) -> Parsed<Option<TypeIndex>>
    decreases left(toks, c), 21nat,
{
    if kind_at(toks, c) is Of {
        match onward(toks, c, advance(toks, c)) {
            Parsed::Failed(e, l) => Parsed::Failed(e, l),
            Parsed::Done(_, c1) => match type_(toks, c1) {
                Parsed::Failed(e, l) => Parsed::Failed(e, l),
                Parsed::Done(t, c2) => Parsed::Done(Some(t), c2),
            },
        }
    } else {
        Parsed::Done(None, c)
    }
}

/// The default value of a parameter, if it has one: `=` and an expression.
pub open spec fn param_default(toks: Seq<Lexeme>, c: Cursor) -> Parsed<Option<ExprView>>
    decreases left(toks, c), 21nat,
{
    if kind_at(toks, c) is Eq {
        match onward(toks, c, advance(toks, c)) {
            Parsed::Failed(e, l) => Parsed::Failed(e, l),
            Parsed::Done(_, c1) => match expr(toks, c1, seq![Frame::Empty]) {
                Parsed::Failed(e, l) => Parsed::Failed(e, l),
                Parsed::Done((e, _), c2) => Parsed::Done(Some(e), c2),
            },
        }
    } else {
        Parsed::Done(None, c)
    }
}

/// The parameters of a list, the opening parenthesis having been read:
/// parameters with commas between them, up to the closing parenthesis,
/// which is read too.
pub open spec fn param_items(toks: Seq<Lexeme>, c: Cursor, acc: Seq<ParamView>) -> Parsed<
    Seq<ParamView>,
>
    decreases left(toks, c), 29nat,
{
    if kind_at(toks, c) is RParen {
        match advance(toks, c) {
            Parsed::Failed(e, l) => Parsed::Failed(e, l),
            Parsed::Done(_, c1) => Parsed::Done(acc, c1),
        }
    } else {
        match onward(toks, c, param(toks, c)) {
            Parsed::Failed(e, l) => Parsed::Failed(e, l),
            Parsed::Done(p, c1) => match expect_either(
                toks,
                c1,
                TokenKindView::RParen,
                TokenKindView::Comma,
            ) {
                Parsed::Failed(e, l) => Parsed::Failed(e, l),
                Parsed::Done(_, c2) => if kind_at(toks, c1) is RParen {
                    Parsed::Done(acc.push(p), c2)
                } else {
                    param_items(toks, c2, acc.push(p))
                },
            },
        }
    }
}

/// The parameters of a function: nothing, or a list of parameters in
/// parentheses.
pub open spec fn param_list(toks: Seq<Lexeme>, c: Cursor) -> Parsed<Seq<ParamView>>
    decreases left(toks, c), 30nat,
{
    if !(kind_at(toks, c) is LParen) {
        Parsed::Done(Seq::empty(), c)
    } else {
        match onward(toks, c, advance(toks, c)) {
            Parsed::Failed(e, l) => Parsed::Failed(e, l),
            Parsed::Done(_, c1) => param_items(toks, c1, Seq::empty()),
        }
    }
}

/// The body of a function without patterns: `= <expr>` with an optional
/// semicolon, or `be <stmt>`.
pub open spec fn function_body(toks: Seq<Lexeme>, c: Cursor, f: Seq<Frame>) -> Parsed<
    FunctionBodyView,
>
    decreases left(toks, c), 22nat,
{
    match onward(toks, c, expect_either(toks, c, TokenKindView::Eq, TokenKindView::Be)) {
        Parsed::Failed(e, l) => Parsed::Failed(e, l),
        Parsed::Done(_, c1) => if kind_at(toks, c) is Eq {
            match expr(toks, c1, f) {
                Parsed::Failed(e, l) => Parsed::Failed(e, l),
                Parsed::Done((e, _), c2) => match take_if(toks, c2, TokenKindView::Semicolon) {
                    Parsed::Failed(e, l) => Parsed::Failed(e, l),
                    Parsed::Done(_, c3) => Parsed::Done(FunctionBodyView::Expr(e), c3),
                },
            }
        } else {
            match stmt(toks, c1, f) {
                Parsed::Failed(e, l) => Parsed::Failed(e, l),
                Parsed::Done((s, _), c2) => Parsed::Done(FunctionBodyView::Stmt(s), c2),
            }
        },
    }
}

/// Fails with `WrongNumOfPatterns`, at the first pattern, unless there are
/// as many patterns as the function has parameters.
pub open spec fn arity_error(patterns: Seq<(PatternView, Location)>, arity: usize) -> Option<
    (ParseErrorView, Location),
> {
    if patterns.len() == arity {
        None
    } else {
        Some((ParseErrorView::WrongNumOfPatterns(arity), patterns[0].1))
    }
}

/// The branches `: patterns be stmt` of a function after the first.
pub open spec fn body_stmt_items(
    toks: Seq<Lexeme>,
    c: Cursor,
    f: Seq<Frame>,
    arity: usize,
    acc: Seq<(Seq<(PatternView, Location)>, StmtView)>,
) -> Parsed<Seq<(Seq<(PatternView, Location)>, StmtView)>>
    decreases left(toks, c), 36nat,
{
    if !(kind_at(toks, c) is Colon) {
        Parsed::Done(acc, c)
    } else {
        match onward(toks, c, advance(toks, c)) {
            Parsed::Failed(e, l) => Parsed::Failed(e, l),
            Parsed::Done(_, c1) => match forward(c1, pattern_list(toks, c1)) {
                Parsed::Failed(e, l) => Parsed::Failed(e, l),
                Parsed::Done(patterns, c2) => match expect_kind(toks, c2, TokenKindView::Be) {
                    Parsed::Failed(e, l) => Parsed::Failed(e, l),
                    Parsed::Done(_, c3) => match forward(c3, stmt(toks, c3, f)) {
                        Parsed::Failed(e, l) => Parsed::Failed(e, l),
                        Parsed::Done((s, f1), c4) => match arity_error(patterns, arity) {
                            Some((e, l)) => Parsed::Failed(e, l),
                            None => body_stmt_items(
                                toks,
                                c4,
                                f1,
                                arity,
                                acc.push((patterns, s)),
                            ),
                        },
                    },
                },
            },
        }
    }
}

/// The branches `: patterns => expr` of a function after the first; each
/// expression is coerced to `typ`, the type of the first.
pub open spec fn body_expr_items(
    toks: Seq<Lexeme>,
    c: Cursor,
    f: Seq<Frame>,
    arity: usize,
    typ: Option<TypeIndex>,
    acc: Seq<(Seq<(PatternView, Location)>, ExprView)>,
) -> Parsed<Seq<(Seq<(PatternView, Location)>, ExprView)>>
    decreases left(toks, c), 36nat,
{
    if !(kind_at(toks, c) is Colon) {
        Parsed::Done(acc, c)
    } else {
        match onward(toks, c, advance(toks, c)) {
            Parsed::Failed(e, l) => Parsed::Failed(e, l),
            Parsed::Done(_, c1) => match forward(c1, pattern_list(toks, c1)) {
                Parsed::Failed(e, l) => Parsed::Failed(e, l),
                Parsed::Done(patterns, c2) => match expect_kind(toks, c2, TokenKindView::Arrow) {
                    Parsed::Failed(e, l) => Parsed::Failed(e, l),
                    Parsed::Done(_, c3) => match forward(c3, expr(toks, c3, f)) {
                        Parsed::Failed(e, l) => Parsed::Failed(e, l),
                        Parsed::Done((e, f1), c4) => match arity_error(patterns, arity) {
                            Some((e, l)) => Parsed::Failed(e, l),
                            None => body_expr_items(
                                toks,
                                c4,
                                f1,
                                arity,
                                typ,
                                acc.push((patterns, coerced(e, typ))),
                            ),
                        },
                    },
                },
            },
        }
    }
}

/// The branches `: patterns be stmt` of a function, the patterns of the
/// first one and its `be` having been read.
pub open spec fn matched_stmt_body(
    toks: Seq<Lexeme>,
    c: Cursor,
    f: Seq<Frame>,
    first: Seq<(PatternView, Location)>,
    arity: usize,
) -> Parsed<FunctionBodyView>
    decreases left(toks, c), 37nat,
{
    match arity_error(first, arity) {
        Some((e, l)) => Parsed::Failed(e, l),
        None => match forward(c, stmt(toks, c, f)) {
            Parsed::Failed(e, l) => Parsed::Failed(e, l),
            Parsed::Done((s, f1), c1) => match body_stmt_items(
                toks,
                c1,
                f1,
                arity,
                seq![(first, s)],
            ) {
                Parsed::Failed(e, l) => Parsed::Failed(e, l),
                Parsed::Done(branches, c2) => Parsed::Done(
                    FunctionBodyView::PatternMatchedStmt(branches),
                    c2,
                ),
            },
        },
    }
}

/// The branches `: patterns => expr` of a function, the patterns of the
/// first one and its `=>` having been read. The expression of each later
/// branch is coerced to the type of the first.
pub open spec fn matched_expr_body(
    toks: Seq<Lexeme>,
    c: Cursor,
    f: Seq<Frame>,
    first: Seq<(PatternView, Location)>,
    arity: usize,
) -> Parsed<FunctionBodyView>
    decreases left(toks, c), 37nat,
{
    match arity_error(first, arity) {
        Some((e, l)) => Parsed::Failed(e, l),
        None => match forward(c, expr(toks, c, f)) {
            Parsed::Failed(e, l) => Parsed::Failed(e, l),
            Parsed::Done((e, f1), c1) => match body_expr_items(
                toks,
                c1,
                f1,
                arity,
                e.typ,
                seq![(first, e)],
            ) {
                Parsed::Failed(e, l) => Parsed::Failed(e, l),
                Parsed::Done(branches, c2) => Parsed::Done(
                    FunctionBodyView::PatternMatchedExpr(branches),
                    c2,
                ),
            },
        },
    }
}

/// A body of branches: `: patterns`, then `=> expr` or `be stmt`, which
/// decides for all branches. Each branch has `arity` patterns.
pub open spec fn matched_body(toks: Seq<Lexeme>, c: Cursor, f: Seq<Frame>, arity: usize) -> Parsed<
    FunctionBodyView,
>
    decreases left(toks, c), 22nat,
{
    match onward(toks, c, expect_kind(toks, c, TokenKindView::Colon)) {
        Parsed::Failed(e, l) => Parsed::Failed(e, l),
        Parsed::Done(_, c1) => match onward(toks, c1, pattern_list(toks, c1)) {
            Parsed::Failed(e, l) => Parsed::Failed(e, l),
            Parsed::Done(first, c2) => match expect_either(
                toks,
                c2,
                TokenKindView::Arrow,
                TokenKindView::Be,
            ) {
                Parsed::Failed(e, l) => Parsed::Failed(e, l),
                Parsed::Done(_, c3) => if kind_at(toks, c2) is Be {
                    matched_stmt_body(toks, c3, f, first, arity)
                } else {
                    matched_expr_body(toks, c3, f, first, arity)
                },
            },
        },
    }
}

/// A function: its name, its parameters in parentheses if it has any, and
/// its body. The return type is that of the body.
pub open spec fn function_decl(toks: Seq<Lexeme>, c: Cursor, loc: Location, recursive: bool) -> Parsed<
    FunctionView,
>
    decreases left(toks, c), 39nat,
{
    match expect_ident(toks, c) {
        Parsed::Failed(e, l) => Parsed::Failed(e, l),
        Parsed::Done(name, c1) => match forward(c1, param_list(toks, c1)) {
            Parsed::Failed(e, l) => Parsed::Failed(e, l),
            Parsed::Done(params, c2) => {
                let frames = seq![Frame::Function(params.len() as usize)];
                let body = if kind_at(toks, c2) is Colon {
                    matched_body(toks, c2, frames, params.len() as usize)
                } else {
                    function_body(toks, c2, frames)
                };
                match body {
                    Parsed::Failed(e, l) => Parsed::Failed(e, l),
                    Parsed::Done(b, c3) => Parsed::Done(
                        FunctionView {
                            loc,
                            is_public: true,
                            ident: name,
                            params,
                            required_params: low32(required_count(params)),
                            return_type: b.result_type(UNIT_TYPE),
                            tailcall_recursive: recursive,
                            body: b,
                        },
                        c3,
                    ),
                }
            },
        },
    }
}

/// The keywords that open a declaration.
pub open spec fn decl_keywords() -> Seq<TokenKindView> {
    seq![
        TokenKindView::Let,
        TokenKindView::And,
        TokenKindView::Global,
        TokenKindView::Manifest,
        TokenKindView::Static,
    ]
}

/// A declaration: `let` and a function, or `and` and a function that
/// continues the one before. The other kinds of declaration are not
/// provided for.
pub open spec fn decl(toks: Seq<Lexeme>, c: Cursor) -> Parsed<DeclView>
    decreases left(toks, c), 40nat,
{
    let loc = loc_at(toks, c);
    match expect(toks, c, decl_keywords()) {
        Parsed::Failed(e, l) => Parsed::Failed(e, l),
        Parsed::Done(_, c1) => match kind_at(toks, c) {
            TokenKindView::Let => match function_decl(toks, c1, loc, false) {
                Parsed::Failed(e, l) => Parsed::Failed(e, l),
                Parsed::Done(f, c2) => Parsed::Done(DeclView::Function(f), c2),
            },
            TokenKindView::And => match function_decl(toks, c1, loc, true) {
                Parsed::Failed(e, l) => Parsed::Failed(e, l),
                Parsed::Done(f, c2) => Parsed::Done(DeclView::Function(f), c2),
            },
            _ => Parsed::Failed(ParseErrorView::NotImplemented, loc),
        },
    }
}

/// What belongs to a section: `require`s, type aliases and declarations,
/// up to the next `section` or the end. A `require` after a declaration is
/// warned of; a second declaration of a name fails with `Redefinition`,
/// which cites the place of the first.
pub open spec fn section_items(toks: Seq<Lexeme>, c: Cursor, section: SectionView, had_decls: bool) -> Parsed<
    SectionView,
>
    decreases left(toks, c), 41nat,
{
    if kind_at(toks, c) is Eof || kind_at(toks, c) is Section {
        Parsed::Done(section, c)
    } else if kind_at(toks, c) is Require {
        let warned = if had_decls {
            Cursor {
                warnings: c.warnings.push(
                    Note { error: ParseErrorView::RequireAfterDecl, loc: loc_at(toks, c) },
                ),
                ..c
            }
        } else {
            c
        };
        match onward(toks, c, require(toks, warned)) {
            Parsed::Failed(e, l) => Parsed::Failed(e, l),
            Parsed::Done(name, c1) => section_items(toks, c1, section.requiring(name), had_decls),
        }
    } else if kind_at(toks, c) is Type {
        match onward(toks, c, type_alias(toks, c)) {
            Parsed::Failed(e, l) => Parsed::Failed(e, l),
            Parsed::Done(_, c1) => section_items(toks, c1, section, true),
        }
    } else {
        match onward(toks, c, decl(toks, c)) {
            Parsed::Failed(e, l) => Parsed::Failed(e, l),
            Parsed::Done(d, c1) => match section.index_of(d.name()) {
                Some(i) => Parsed::Failed(
                    ParseErrorView::Redefinition(section.declarations[i].place(), d.name()),
                    d.place(),
                ),
                None => section_items(toks, c1, section.declaring(d), true),
            },
        }
    }
}

/// `section <ident>` and what belongs to it. A section whose name is among
/// `sections` already fails with `Redefinition`, which cites the place of
/// the first.
pub open spec fn section(toks: Seq<Lexeme>, c: Cursor, sections: Seq<SectionView>) -> Parsed<
    SectionView,
>
    decreases left(toks, c), 42nat,
{
    let loc = loc_at(toks, c);
    match expect_kind(toks, c, TokenKindView::Section) {
        Parsed::Failed(e, l) => Parsed::Failed(e, l),
        Parsed::Done(_, c1) => match expect_ident(toks, c1) {
            Parsed::Failed(e, l) => Parsed::Failed(e, l),
            Parsed::Done(name, c2) => match section_items(
                toks,
                c2,
                SectionView::empty(name, loc),
                false,
            ) {
                Parsed::Failed(e, l) => Parsed::Failed(e, l),
                Parsed::Done(s, c3) => match index_of_name(section_names(sections), name) {
                    Some(i) => Parsed::Failed(
                        ParseErrorView::Redefinition(sections[i].loc, name),
                        loc,
                    ),
                    None => Parsed::Done(s, c3),
                },
            },
        },
    }
}

/// The sections of the input, up to its end, behind those of `sections`.
pub open spec fn sections_from(toks: Seq<Lexeme>, c: Cursor, sections: Seq<SectionView>) -> Parsed<
    Seq<SectionView>,
>
    decreases left(toks, c), 43nat,
{
    if kind_at(toks, c) is Eof {
        Parsed::Done(sections, c)
    } else {
        match onward(toks, c, section(toks, c, sections)) {
            Parsed::Failed(e, l) => Parsed::Failed(e, l),
            Parsed::Done(s, c1) => sections_from(toks, c1, sections.push(s)),
        }
    }
}

/// The whole input, from a cursor that stands before it: one step, which
/// fails where the first token is an error token, then sections up to the
/// end.
pub open spec fn program(toks: Seq<Lexeme>, c: Cursor, sections: Seq<SectionView>) -> Parsed<
    Seq<SectionView>,
> {
    match advance(toks, c) {
        Parsed::Failed(e, l) => Parsed::Failed(e, l),
        Parsed::Done(_, c1) => sections_from(toks, c1, sections),
    }
}

} // verus!
