//! What the parser computes, stated as functions of the tokens and of the
//! tables: for every rule of the grammar, the tree that it yields and the
//! tokens that it reads, or the error that it ends with.

use vstd::prelude::*;
use crate::ast::types::{
    index_of_kind, interned, interned_index, TypeIndex, TypeKindView, TypeView,
};
use crate::parser::{ParseError, ParseErrorView};
use crate::source_file::{Located, Location};
use crate::token::{Lexeme, TokenKindView};

pub mod types;
pub mod expr;
pub mod pattern;
pub mod stmt;
pub mod decls;
pub mod laws;

verus! {

/// A warning: what is warned of, and where.
pub ghost struct Note {
    pub error: ParseErrorView,
    pub loc: Location,
}

/// The views of a list of warnings.
pub open spec fn notes(warnings: Seq<Located<ParseError>>) -> Seq<Note> {
    Seq::new(warnings.len(), |i: int| Note { error: warnings[i].inner.view(), loc: warnings[i].loc })
}

/// The views of a list of texts.
pub open spec fn texts(list: Seq<String>) -> Seq<Seq<char>> {
    Seq::new(list.len(), |i: int| list[i]@)
}

/// Where the parser stands: the index of the token under the cursor, the
/// table of types, the atoms, and the warnings given so far.
pub ghost struct Cursor {
    pub pos: int,
    pub types: Seq<TypeView>,
    pub atoms: Seq<Seq<char>>,
    pub warnings: Seq<Note>,
}

/// How a rule ends: with a value and the cursor behind what was read, or
/// with an error at a place.
pub ghost enum Parsed<T> {
    Done(T, Cursor),
    Failed(ParseErrorView, Location),
}

/// The kind of the token under the cursor.
pub open spec fn kind_at(toks: Seq<Lexeme>, c: Cursor) -> TokenKindView {
    toks[c.pos].kind
}

/// The place of the token under the cursor.
pub open spec fn loc_at(toks: Seq<Lexeme>, c: Cursor) -> Location {
    toks[c.pos].loc
}

/// The number of tokens from the cursor to the end.
pub open spec fn left(toks: Seq<Lexeme>, c: Cursor) -> nat {
    if c.pos < toks.len() {
        (toks.len() - c.pos) as nat
    } else {
        0
    }
}

/// The end of a rule that cannot be reached: a rule never moves the cursor
/// back.
pub open spec fn stuck<T>() -> Parsed<T> {
    Parsed::Failed(
        ParseErrorView::NotImplemented,
        Location { source_file_id: 0, line: 0, column: 0, width: 0 },
    )
}

/// `r`, the end of a rule that started at `c`.
pub open spec fn forward<T>(c: Cursor, r: Parsed<T>) -> Parsed<T> {
    match r {
        Parsed::Done(_, after) => if after.pos >= c.pos {
            r
        } else {
            stuck()
        },
        Parsed::Failed(_, _) => r,
    }
}

/// `r`, the end of a rule that started at `c` and read at least one token.
pub open spec fn onward<T>(toks: Seq<Lexeme>, c: Cursor, r: Parsed<T>) -> Parsed<T> {
    match r {
        Parsed::Done(_, after) => if c.pos < after.pos < toks.len() {
            r
        } else {
            stuck()
        },
        Parsed::Failed(_, _) => r,
    }
}

/// The text of an optional message.
pub open spec fn message_of(msg: Option<Seq<char>>) -> Seq<char> {
    match msg {
        Some(m) => m,
        None => Seq::empty(),
    }
}

/// One step of the cursor: to the next token, or nowhere at the end of the
/// input. The step fails where it ends on an error token, with the message
/// and at the place of that token.
pub open spec fn advance(toks: Seq<Lexeme>, c: Cursor) -> Parsed<()> {
    let next = if c.pos + 1 < toks.len() {
        c.pos + 1
    } else {
        c.pos
    };
    match toks[next].kind {
        TokenKindView::Error(msg) => Parsed::Failed(
            ParseErrorView::Generic(message_of(msg)),
            toks[next].loc,
        ),
        _ => Parsed::Done((), Cursor { pos: next, ..c }),
    }
}

/// A step over the token under the cursor if it is of one of the `kinds`;
/// else `UnexpectedEof` at the end of the input and `UnexpectedToken`
/// before it.
pub open spec fn expect(toks: Seq<Lexeme>, c: Cursor, kinds: Seq<TokenKindView>) -> Parsed<()> {
    if kind_at(toks, c) is Eof {
        Parsed::Failed(ParseErrorView::UnexpectedEof(kinds), loc_at(toks, c))
    } else if !kinds.contains(kind_at(toks, c)) {
        Parsed::Failed(
            ParseErrorView::UnexpectedToken(kind_at(toks, c).text(), kinds),
            loc_at(toks, c),
        )
    } else {
        advance(toks, c)
    }
}

/// `expect` for one kind.
pub open spec fn expect_kind(toks: Seq<Lexeme>, c: Cursor, kind: TokenKindView) -> Parsed<()> {
    expect(toks, c, seq![kind])
}

/// `expect` for two kinds.
pub open spec fn expect_either(
    toks: Seq<Lexeme>,
    c: Cursor,
    first: TokenKindView,
    second: TokenKindView,
) -> Parsed<()> {
    expect(toks, c, seq![first, second])
}

/// A failure that names what was wanted in the place of the token under the
/// cursor.
pub open spec fn unexpected<T>(toks: Seq<Lexeme>, c: Cursor, what: Seq<char>) -> Parsed<T> {
    Parsed::Failed(
        ParseErrorView::UnexpectedToken(kind_at(toks, c).text(), seq![TokenKindView::Ident(what)]),
        loc_at(toks, c),
    )
}

/// A step over an identifier, whose text is the value.
pub open spec fn expect_ident(toks: Seq<Lexeme>, c: Cursor) -> Parsed<Seq<char>> {
    match kind_at(toks, c) {
        TokenKindView::Ident(name) => match advance(toks, c) {
            Parsed::Done(_, after) => Parsed::Done(name, after),
            Parsed::Failed(e, l) => Parsed::Failed(e, l),
        },
        _ => unexpected(toks, c, "section name"@),
    }
}

/// A step over the token under the cursor if it is of the given kind; the
/// value says whether it was.
pub open spec fn take_if(toks: Seq<Lexeme>, c: Cursor, kind: TokenKindView) -> Parsed<bool> {
    if kind_at(toks, c) == kind {
        match advance(toks, c) {
            Parsed::Done(_, after) => Parsed::Done(true, after),
            Parsed::Failed(e, l) => Parsed::Failed(e, l),
        }
    } else {
        Parsed::Done(false, c)
    }
}

/// The failure of a table that is full.
pub open spec fn table_full<T>(loc: Location) -> Parsed<T> {
    Parsed::Failed(ParseErrorView::Generic("The type table is full."@), loc)
}

/// The index of the type of the given kind, which is entered in the table
/// if it is new. Fails, at the token under the cursor, where the table is
/// full.
pub open spec fn get_type(toks: Seq<Lexeme>, c: Cursor, kind: TypeKindView) -> Parsed<TypeIndex> {
    if index_of_kind(c.types, kind) is None && c.types.len() >= u32::MAX {
        table_full(loc_at(toks, c))
    } else {
        Parsed::Done(
            interned_index(c.types, kind) as TypeIndex,
            Cursor { types: interned(c.types, kind), ..c },
        )
    }
}

} // verus!
