//! The rules for types and type aliases.

use vstd::prelude::*;

use crate::ast::types::{
    declare_outcome, declared, index_of_alias, resolved, resolved_index, AliasError,
    builtin_named, SumVariantView, TypeIndex, TypeKindView, CHAR_TYPE, UINT64_TYPE,
};
use crate::ast::shape::bare_expr;
use crate::grammar::expr::{coerced, expr};
use crate::grammar::{
    advance, expect_either, expect_ident, expect_kind, forward, get_type, kind_at, left, loc_at,
    onward, table_full, unexpected, Cursor, Parsed,
};
use crate::parser::context::Frame;
use crate::parser::ParseErrorView;
use crate::source_file::Location;
use crate::token::{Lexeme, TokenKindView};

verus! {

/// The type of a string literal: a pointer to `Char`.
pub open spec fn string_type(toks: Seq<Lexeme>, c: Cursor) -> Parsed<TypeIndex> {
    get_type(toks, c, TypeKindView::Pointer(CHAR_TYPE))
}

/// A type identifier: a builtin type, a known alias, or a new placeholder
/// for an alias that is declared later.
pub open spec fn type_ident(toks: Seq<Lexeme>, c: Cursor, name: Seq<char>) -> Parsed<TypeIndex> {
    if builtin_named(name) is None && index_of_alias(c.types, name) is None && c.types.len()
        >= u32::MAX {
        table_full(loc_at(toks, c))
    } else {
        Parsed::Done(
            resolved_index(c.types, name) as TypeIndex,
            Cursor { types: resolved(c.types, name), ..c },
        )
    }
}

/// The alias `name = target`, declared at `loc`, entered in the table. A
/// second declaration of a name fails with `Redefinition`, which cites the
/// place of the first.
pub open spec fn define_alias(c: Cursor, name: Seq<char>, loc: Location, target: TypeIndex) -> Parsed<
    (),
> {
    match declare_outcome(c.types, name) {
        Ok(_) => Parsed::Done((), Cursor { types: declared(c.types, name, loc, target), ..c }),
        Err(AliasError::Redefined(first)) => Parsed::Failed(
            ParseErrorView::Redefinition(first, name),
            loc,
        ),
        Err(AliasError::TableFull) => table_full(loc),
    }
}

/// What a declaration `type <ident> = <type>` says, where it can be read
/// up to the end of its type: the name, the place of the name, the type,
/// and the cursor behind the type.
pub open spec fn alias_head(toks: Seq<Lexeme>, c: Cursor) -> Option<
    (Seq<char>, Location, TypeIndex, Cursor),
> {
    match expect_kind(toks, c, TokenKindView::Type) {
        Parsed::Failed(_, _) => None,
        Parsed::Done(_, c1) => match expect_ident(toks, c1) {
            Parsed::Failed(_, _) => None,
            Parsed::Done(name, c2) => match expect_kind(toks, c2, TokenKindView::Eq) {
                Parsed::Failed(_, _) => None,
                Parsed::Done(_, c3) => match type_(toks, c3) {
                    Parsed::Failed(_, _) => None,
                    Parsed::Done(target, c4) => Some((name, loc_at(toks, c1), target, c4)),
                },
            },
        },
    }
}

/// `type <ident> = <type>`
pub open spec fn type_alias(toks: Seq<Lexeme>, c: Cursor) -> Parsed<()>
    decreases left(toks, c), 40nat,
{
    match expect_kind(toks, c, TokenKindView::Type) {
        Parsed::Failed(e, l) => Parsed::Failed(e, l),
        Parsed::Done(_, c1) => match expect_ident(toks, c1) {
            Parsed::Failed(e, l) => Parsed::Failed(e, l),
            Parsed::Done(name, c2) => match expect_kind(toks, c2, TokenKindView::Eq) {
                Parsed::Failed(e, l) => Parsed::Failed(e, l),
                Parsed::Done(_, c3) => match type_(toks, c3) {
                    Parsed::Failed(e, l) => Parsed::Failed(e, l),
                    Parsed::Done(target, c4) => define_alias(c4, name, loc_at(toks, c1), target),
                },
            },
        },
    }
}

/// A type: a name, a sum of variants, a type in parentheses, an array or
/// slice type in brackets, or `&` and the type pointed to.
pub open spec fn type_(toks: Seq<Lexeme>, c: Cursor) -> Parsed<TypeIndex>
    decreases left(toks, c), 3nat,
{
    match kind_at(toks, c) {
        TokenKindView::Ident(name) => match onward(toks, c, advance(toks, c)) {
            Parsed::Failed(e, l) => Parsed::Failed(e, l),
            Parsed::Done(_, c1) => if kind_at(toks, c1) is LParen || kind_at(toks, c1) is Colon {
                sum_type(toks, c1, name)
            } else {
                type_ident(toks, c1, name)
            },
        },
        TokenKindView::LParen => match onward(toks, c, advance(toks, c)) {
            Parsed::Failed(e, l) => Parsed::Failed(e, l),
            Parsed::Done(_, c1) => match type_(toks, c1) {
                Parsed::Failed(e, l) => Parsed::Failed(e, l),
                Parsed::Done(t, c2) => match expect_kind(toks, c2, TokenKindView::RParen) {
                    Parsed::Failed(e, l) => Parsed::Failed(e, l),
                    Parsed::Done(_, c3) => Parsed::Done(t, c3),
                },
            },
        },
        TokenKindView::LBracket => array_type(toks, c),
        TokenKindView::LogAnd => match onward(toks, c, advance(toks, c)) {
            Parsed::Failed(e, l) => Parsed::Failed(e, l),
            Parsed::Done(_, c1) => match type_(toks, c1) {
                Parsed::Failed(e, l) => Parsed::Failed(e, l),
                Parsed::Done(inner, c2) => get_type(toks, c2, TypeKindView::Pointer(inner)),
            },
        },
        _ => unexpected(toks, c, "type name"@),
    }
}

/// The types of a list, the opening parenthesis having been read: types
/// with commas between them, up to the closing parenthesis, which is read
/// too.
pub open spec fn type_items(toks: Seq<Lexeme>, c: Cursor, acc: Seq<TypeIndex>) -> Parsed<
    Seq<TypeIndex>,
>
    decreases left(toks, c), 29nat,
{
    if kind_at(toks, c) is RParen {
        match advance(toks, c) {
            Parsed::Failed(e, l) => Parsed::Failed(e, l),
            Parsed::Done(_, c1) => Parsed::Done(acc, c1),
        }
    } else {
        match onward(toks, c, type_(toks, c)) {
            Parsed::Failed(e, l) => Parsed::Failed(e, l),
            Parsed::Done(t, c1) => match forward(
                c1,
                expect_either(toks, c1, TokenKindView::RParen, TokenKindView::Comma),
            ) {
                Parsed::Failed(e, l) => Parsed::Failed(e, l),
                Parsed::Done(_, c2) => if kind_at(toks, c1) is RParen {
                    Parsed::Done(acc.push(t), c2)
                } else {
                    type_items(toks, c2, acc.push(t))
                },
            },
        }
    }
}

/// The types of the fields of a sum variant: nothing, or a list of types
/// in parentheses.
pub open spec fn type_list(toks: Seq<Lexeme>, c: Cursor) -> Parsed<Seq<TypeIndex>>
    decreases left(toks, c), 30nat,
{
    if !(kind_at(toks, c) is LParen) {
        Parsed::Done(Seq::empty(), c)
    } else {
        match onward(toks, c, advance(toks, c)) {
            Parsed::Failed(e, l) => Parsed::Failed(e, l),
            Parsed::Done(_, c1) => type_items(toks, c1, Seq::empty()),
        }
    }
}

/// A variant of a sum type, its name having been read: the types of its
/// fields.
pub open spec fn sum_variant(toks: Seq<Lexeme>, c: Cursor, name: Seq<char>) -> Parsed<SumVariantView>
    decreases left(toks, c), 31nat,
{
    match type_list(toks, c) {
        Parsed::Failed(e, l) => Parsed::Failed(e, l),
        Parsed::Done(fields, c1) => Parsed::Done(SumVariantView::Basic(name, fields), c1),
    }
}

/// The variants of a sum type after the first: each `:`, a name, and the
/// types of its fields.
pub open spec fn sum_variants(toks: Seq<Lexeme>, c: Cursor, acc: Seq<SumVariantView>) -> Parsed<
    Seq<SumVariantView>,
>
    decreases left(toks, c), 33nat,
{
    if !(kind_at(toks, c) is Colon) {
        Parsed::Done(acc, c)
    } else {
        match onward(toks, c, advance(toks, c)) {
            Parsed::Failed(e, l) => Parsed::Failed(e, l),
            Parsed::Done(_, c1) => match forward(c1, expect_ident(toks, c1)) {
                Parsed::Failed(e, l) => Parsed::Failed(e, l),
                Parsed::Done(name, c2) => match forward(c2, sum_variant(toks, c2, name)) {
                    Parsed::Failed(e, l) => Parsed::Failed(e, l),
                    Parsed::Done(v, c3) => sum_variants(toks, c3, acc.push(v)),
                },
            },
        }
    }
}

/// A sum type: variants, each a name with the types of its fields, with
/// `:` between them. The name of the first variant was read.
pub open spec fn sum_type(toks: Seq<Lexeme>, c: Cursor, first: Seq<char>) -> Parsed<TypeIndex>
    decreases left(toks, c), 34nat,
{
    match forward(c, sum_variant(toks, c, first)) {
        Parsed::Failed(e, l) => Parsed::Failed(e, l),
        Parsed::Done(v, c1) => match sum_variants(toks, c1, seq![v]) {
            Parsed::Failed(e, l) => Parsed::Failed(e, l),
            Parsed::Done(variants, c2) => get_type(toks, c2, TypeKindView::Sum(variants)),
        },
    }
}

/// `[<type>]`, a slice, or `[<type>, <size>]`, an array, whose size is
/// coerced to `UInt64`.
pub open spec fn array_type(toks: Seq<Lexeme>, c: Cursor) -> Parsed<TypeIndex>
    decreases left(toks, c), 2nat,
{
    match onward(toks, c, advance(toks, c)) {
        Parsed::Failed(e, l) => Parsed::Failed(e, l),
        Parsed::Done(_, c1) => match forward(c1, type_(toks, c1)) {
            Parsed::Failed(e, l) => Parsed::Failed(e, l),
            Parsed::Done(inner, c2) => match forward(
                c2,
                expect_either(toks, c2, TokenKindView::RBracket, TokenKindView::Comma),
            ) {
                Parsed::Failed(e, l) => Parsed::Failed(e, l),
                Parsed::Done(_, c3) => if kind_at(toks, c2) is Comma {
                    match expr(toks, c3, seq![Frame::Empty]) {
                        Parsed::Failed(e, l) => Parsed::Failed(e, l),
                        Parsed::Done(size, c4) => match expect_kind(
                            toks,
                            c4,
                            TokenKindView::RBracket,
                        ) {
                            Parsed::Failed(e, l) => Parsed::Failed(e, l),
                            Parsed::Done(_, c5) => get_type(
                                toks,
                                c5,
                                TypeKindView::Array(
                                    inner,
                                    bare_expr(coerced(size.0, Some(UINT64_TYPE))),
                                ),
                            ),
                        },
                    }
                } else {
                    get_type(toks, c3, TypeKindView::Slice(inner))
                },
            },
        },
    }
}

} // verus!
