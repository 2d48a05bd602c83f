//! The lexer: from the characters of a source file to tokens.

use vstd::prelude::*;
use crate::source_file::{low32, Location, SourceFile, SourceFileId};
use crate::text::{from_chars, to_chars};
use crate::token::{lexeme_of, lexemes_of, Lexeme, Token, TokenKind, TokenKindView};

verus! {

/// Whether the character is white space, as the standard library has it
/// (the Unicode property `White_Space`).
pub uninterp spec fn is_whitespace_char(ch: char) -> bool;

/// Whether the character is alphabetic, as the standard library has it
/// (the Unicode property `Alphabetic`).
pub uninterp spec fn is_alphabetic_char(ch: char) -> bool;

/// Whether the character is numeric, as the standard library has it (the
/// Unicode general categories `Nd`, `Nl` and `No`).
pub uninterp spec fn is_numeric_char(ch: char) -> bool;

/// `char::is_whitespace` of the standard library: a function of the
/// character alone. Of the ASCII characters, the blank and the characters
/// from the tabulator to the carriage return are white space, and no
/// other.
pub assume_specification[ char::is_whitespace ](ch: char) -> (r: bool)
    ensures
        r == is_whitespace_char(ch),
        ch <= '\x7f' ==> r == (ch == ' ' || '\x09' <= ch <= '\x0d'),
;

/// `char::is_alphabetic` of the standard library: a function of the
/// character alone. Of the ASCII characters, the letters are alphabetic,
/// and no other.
pub assume_specification[ char::is_alphabetic ](ch: char) -> (r: bool)
    ensures
        r == is_alphabetic_char(ch),
        ch <= '\x7f' ==> r == ('a' <= ch <= 'z' || 'A' <= ch <= 'Z'),
;

/// `char::is_numeric` of the standard library: a function of the character
/// alone. Of the ASCII characters, the digits are numeric, and no other.
pub assume_specification[ char::is_numeric ](ch: char) -> (r: bool)
    ensures
        r == is_numeric_char(ch),
        ch <= '\x7f' ==> r == ('0' <= ch <= '9'),
;

/// `char::is_alphanumeric` of the standard library: true of the characters
/// that are alphabetic or numeric.
pub assume_specification[ char::is_alphanumeric ](ch: char) -> (r: bool)
    ensures
        r == (is_alphabetic_char(ch) || is_numeric_char(ch)),
;

/// The character that escapes the next one in a string literal.
pub const ESCAPE_CHAR: char = '\\';

/// The base of a number literal.
#[derive(Clone, Copy, Debug, PartialEq, Eq, Structural)]
pub enum Base {
    Binary,
    Octal,
    Decimal,
    Hexadecimal,
}

impl Base {
    pub open spec fn radix(self) -> nat {
        match self {
            Base::Binary => 2,
            Base::Octal => 8,
            Base::Decimal => 10,
            Base::Hexadecimal => 16,
        }
    }

    pub fn value(self) -> (r: u32)
        ensures
            r == self.radix(),
    {
        match self {
            Base::Binary => 2,
            Base::Octal => 8,
            Base::Decimal => 10,
            Base::Hexadecimal => 16,
        }
    }
}

/// The value of a character as a digit: `0` to `9`, then the letters of
/// either case from ten on.
pub open spec fn digit_value(ch: char) -> Option<nat> {
    if '0' <= ch <= '9' {
        Some((ch as u32 - '0' as u32) as nat)
    } else if 'a' <= ch <= 'z' {
        Some((ch as u32 - 'a' as u32 + 10) as nat)
    } else if 'A' <= ch <= 'Z' {
        Some((ch as u32 - 'A' as u32 + 10) as nat)
    } else {
        None
    }
}

/// Whether the character is a digit of the base.
pub open spec fn is_digit_of(ch: char, base: Base) -> bool {
    digit_value(ch) matches Some(v) && v < base.radix()
}

pub fn is_digit(ch: char, base: Base) -> (r: bool)
    ensures
        r == is_digit_of(ch, base),
{
    let v: u32 = if '0' <= ch && ch <= '9' {
        ch as u32 - '0' as u32
    } else if 'a' <= ch && ch <= 'z' {
        ch as u32 - 'a' as u32 + 10
    } else if 'A' <= ch && ch <= 'Z' {
        ch as u32 - 'A' as u32 + 10
    } else {
        return false;
    };
    v < base.value()
}

/// The classes of characters that the lexer reads runs of.
#[derive(Clone, Copy, Debug, PartialEq, Eq, Structural)]
pub enum CharClass {
    Whitespace,
    /// The characters of a word after its first: alphabetic, numeric, `_`.
    Word,
    Digit(Base),
    /// Everything but a line feed.
    Line,
}

impl CharClass {
    pub open spec fn holds(self, ch: char) -> bool {
        match self {
            CharClass::Whitespace => is_whitespace_char(ch),
            CharClass::Word => is_alphabetic_char(ch) || is_numeric_char(ch) || ch == '_',
            CharClass::Digit(base) => is_digit_of(ch, base),
            CharClass::Line => ch != '\n',
        }
    }

    pub fn accepts(self, ch: char) -> (r: bool)
        ensures
            r == self.holds(ch),
    {
        match self {
            CharClass::Whitespace => ch.is_whitespace(),
            CharClass::Word => ch.is_alphanumeric() || ch == '_',
            CharClass::Digit(base) => is_digit(ch, base),
            CharClass::Line => ch != '\n',
        }
    }
}

/// The end of the longest run of characters of the class that starts at
/// `start`.
pub open spec fn run_end(chars: Seq<char>, start: int, class: CharClass) -> int
    decreases chars.len() - start,
{
    if 0 <= start < chars.len() && class.holds(chars[start]) {
        run_end(chars, start + 1, class)
    } else {
        start
    }
}

pub proof fn lemma_run_end(chars: Seq<char>, start: int, class: CharClass)
    requires
        0 <= start <= chars.len(),
    ensures
        start <= run_end(chars, start, class) <= chars.len(),
        forall|k: int| start <= k < run_end(chars, start, class) ==> class.holds(#[trigger] chars[k]),
        run_end(chars, start, class) < chars.len() ==> !class.holds(
            chars[run_end(chars, start, class)],
        ),
    decreases chars.len() - start,
{
    if start < chars.len() && class.holds(chars[start]) {
        lemma_run_end(chars, start + 1, class);
    }
}

/// One more than `n`, but for the largest number.
pub open spec fn bump(n: usize) -> usize {
    if n < usize::MAX {
        (n + 1) as usize
    } else {
        n
    }
}

pub fn bumped(n: usize) -> (r: usize)
    ensures
        r == bump(n),
{
    if n < usize::MAX {
        n + 1
    } else {
        n
    }
}

/// Line and column after the character `ch` was read at the given line and
/// column: a line feed starts a line, any other character is a column.
pub open spec fn place_after_char(line: usize, column: usize, ch: char) -> (usize, usize) {
    if ch == '\n' {
        (bump(line), 0usize)
    } else {
        (line, bump(column))
    }
}

/// Line and column after the characters from `from` up to `to` were read.
pub open spec fn place_after(chars: Seq<char>, from: int, to: int, line: usize, column: usize) -> (
    usize,
    usize,
)
    decreases to - from,
{
    if from < to {
        let before = place_after(chars, from, to - 1, line, column);
        place_after_char(before.0, before.1, chars[to - 1])
    } else {
        (line, column)
    }
}

/// The decimal number that the characters write, if they are decimal
/// digits, at least one.
pub open spec fn decimal_value(digits: Seq<char>) -> Option<nat>
    decreases digits.len(),
{
    if digits.len() == 0 {
        None
    } else if !('0' <= digits.last() <= '9') {
        None
    } else if digits.len() == 1 {
        Some((digits.last() as u32 - '0' as u32) as nat)
    } else {
        match decimal_value(digits.drop_last()) {
            Some(v) => Some(v * 10 + (digits.last() as u32 - '0' as u32) as nat),
            None => None,
        }
    }
}

/// The number that `chars[start..end]` writes in decimal, if it writes one
/// that fits 64 bits.
pub fn parse_decimal(chars: &Vec<char>, start: usize, end: usize) -> (r: Option<u64>)
    requires
        start <= end <= chars@.len(),
    ensures
        match decimal_value(chars@.subrange(start as int, end as int)) {
            Some(v) => if v <= u64::MAX {
                r == Some(v as u64)
            } else {
                r is None
            },
            None => r is None,
        },
{
    if start == end {
        return None;
    }
    let mut value: u64 = 0;
    let mut i: usize = start;
    while i < end
        invariant
            start <= i <= end <= chars@.len(),
            start < end,
            i > start ==> decimal_value(chars@.subrange(start as int, i as int)) == Some(
                value as nat,
            ),
            i == start ==> value == 0,
        decreases end - i,
    {
        let ch = chars[i];
        let ghost part = chars@.subrange(start as int, i + 1);
        proof {
            assert(part.last() == ch);
            assert(part.drop_last() =~= chars@.subrange(start as int, i as int));
        }
        if !('0' <= ch && ch <= '9') {
            proof {
                lemma_decimal_prefix(chars@.subrange(start as int, end as int), i - start);
            }
            return None;
        }
        let d: u64 = (ch as u32 - '0' as u32) as u64;
        let next = match value.checked_mul(10) {
            Some(x) => x.checked_add(d),
            None => None,
        };
        match next {
            Some(x) => {
                value = x;
            },
            None => {
                proof {
                    lemma_decimal_grows(
                        chars@.subrange(start as int, end as int),
                        i + 1 - start,
                    );
                    assert(chars@.subrange(start as int, end as int).take(i + 1 - start) =~= part);
                }
                return None;
            },
        }
        i += 1;
    }
    Some(value)
}

/// A text with a character that is no decimal digit writes no number.
pub proof fn lemma_decimal_prefix(digits: Seq<char>, k: int)
    requires
        0 <= k < digits.len(),
        !('0' <= digits[k] <= '9'),
    ensures
        decimal_value(digits) is None,
    decreases digits.len(),
{
    if k < digits.len() - 1 {
        lemma_decimal_prefix(digits.drop_last(), k);
    }
}

/// The number that a text writes is no less than the number that any
/// beginning of it writes.
pub proof fn lemma_decimal_grows(digits: Seq<char>, k: int)
    requires
        1 <= k <= digits.len(),
    ensures
        decimal_value(digits) matches Some(v) ==> decimal_value(digits.take(k)) matches Some(w)
            && w <= v,
    decreases digits.len(),
{
    if k == digits.len() {
        assert(digits.take(k) =~= digits);
    } else {
        assert(digits.drop_last().take(k) =~= digits.take(k));
        lemma_decimal_grows(digits.drop_last(), k);
    }
}

/// Where a lexer stands in its input.
pub struct Place {
    pub offset: int,
    pub line: usize,
    pub column: usize,
}

/// The place after the characters from `p` up to `to` were read.
pub open spec fn walk(chars: Seq<char>, p: Place, to: int) -> Place {
    let after = place_after(chars, p.offset, to, p.line, p.column);
    Place { offset: to, line: after.0, column: after.1 }
}

/// To read up to `mid` and then up to `to` is to read up to `to`.
pub proof fn lemma_walk_on(chars: Seq<char>, p: Place, mid: int, to: int)
    requires
        p.offset <= mid <= to,
    ensures
        walk(chars, walk(chars, p, mid), to) == walk(chars, p, to),
    decreases to - mid,
{
    if mid < to {
        lemma_walk_on(chars, p, mid, to - 1);
    }
}

/// To read one character is to count it.
pub proof fn lemma_walk_one(chars: Seq<char>, p: Place)
    ensures
        walk(chars, p, p.offset) == p,
        walk(chars, p, p.offset + 1) == (Place {
            offset: p.offset + 1,
            line: place_after_char(p.line, p.column, chars[p.offset]).0,
            column: place_after_char(p.line, p.column, chars[p.offset]).1,
        }),
{
    assert(place_after(chars, p.offset, p.offset, p.line, p.column) == (p.line, p.column));
}

/// Whether the character at `at` is `ch`.
pub open spec fn stands(chars: Seq<char>, at: int, ch: char) -> bool {
    0 <= at < chars.len() && chars[at] == ch
}

/// The end of a comment between `/*` and `*/`, in which comments of the
/// same kind may stand: where the reading ends that starts at `at`, `depth`
/// comments deep. A comment that is not closed ends with the input.
pub open spec fn comment_end(chars: Seq<char>, at: int, depth: nat) -> int
    decreases chars.len() - at,
{
    if depth == 0 || at < 0 || at >= chars.len() {
        at
    } else if chars[at] == '/' && stands(chars, at + 1, '*') {
        comment_end(chars, at + 2, depth + 1)
    } else if chars[at] == '*' && stands(chars, at + 1, '/') {
        comment_end(chars, at + 2, (depth - 1) as nat)
    } else {
        comment_end(chars, at + 1, depth)
    }
}

/// Where the reading of a literal ends that starts at `p`, behind the
/// opening quote, and whether the literal is closed. The literal ends with
/// the next `quote`; a backslash takes the character behind it along; a
/// line feed counts for two lines.
pub open spec fn literal_end(chars: Seq<char>, p: Place, quote: char) -> (bool, Place)
    decreases chars.len() - p.offset,
{
    if p.offset < 0 || p.offset >= chars.len() {
        (false, p)
    } else if chars[p.offset] == quote {
        (true, walk(chars, p, p.offset + 1))
    } else if chars[p.offset] == ESCAPE_CHAR {
        if p.offset + 1 < chars.len() {
            literal_end(chars, walk(chars, p, p.offset + 2), quote)
        } else {
            (false, walk(chars, p, p.offset + 1))
        }
    } else if chars[p.offset] == '\n' {
        literal_end(
            chars,
            Place { offset: p.offset + 1, line: bump(bump(p.line)), column: 0 },
            quote,
        )
    } else {
        literal_end(chars, walk(chars, p, p.offset + 1), quote)
    }
}

/// The kind of the word: that of a keyword, else an identifier.
pub open spec fn word_kind(word: Seq<char>) -> TokenKindView {
    match TokenKind::keyword(word) {
        Some(k) => k@,
        None => TokenKindView::Ident(word),
    }
}

/// The base that the letter behind a leading `0` stands for.
pub open spec fn base_after_zero(chars: Seq<char>, at: int) -> Base {
    if stands(chars, at, 'b') || stands(chars, at, 'B') {
        Base::Binary
    } else if stands(chars, at, 'o') || stands(chars, at, 'O') {
        Base::Octal
    } else if stands(chars, at, 'x') || stands(chars, at, 'X') {
        Base::Hexadecimal
    } else {
        Base::Decimal
    }
}

/// The parts of the number literal that starts at `at`.
pub struct NumberParts {
    pub base: Base,
    /// Where the digits start: behind the prefix, where there is one.
    pub start: int,
    /// Where the digits and the fraction end.
    pub end: int,
    pub has_fraction: bool,
    pub has_exponent: bool,
    /// Where the exponent ends, and with it the literal.
    pub exponent_end: int,
}

/// A number literal is an optional prefix `0b`, `0o` or `0x`, the digits
/// of that base, an optional fraction after `.`, and an optional exponent
/// after `e`, which has digits only behind a sign.
pub open spec fn number_parts(chars: Seq<char>, at: int) -> NumberParts {
    let base = if stands(chars, at, '0') {
        base_after_zero(chars, at + 1)
    } else {
        Base::Decimal
    };
    let start = if base != Base::Decimal {
        at + 2
    } else {
        at
    };
    let whole_end = run_end(chars, start, CharClass::Digit(base));
    let has_fraction = stands(chars, whole_end, '.');
    let end = if has_fraction {
        run_end(chars, whole_end + 1, CharClass::Digit(base))
    } else {
        whole_end
    };
    let has_exponent = stands(chars, end, 'e') || stands(chars, end, 'E');
    let signed = stands(chars, end + 1, '+') || stands(chars, end + 1, '-');
    let exponent_end = if !has_exponent {
        end
    } else if signed {
        run_end(chars, end + 2, CharClass::Digit(base))
    } else {
        end + 1
    };
    NumberParts { base, start, end, has_fraction, has_exponent, exponent_end }
}

/// The kind of the number literal that starts at `at`. One with a fraction
/// or an exponent is a floating-point literal, which has to be decimal;
/// any other is an integer literal, whose digits are read as decimal and
/// have to give a number of 64 bits.
pub open spec fn number_kind(chars: Seq<char>, at: int) -> TokenKindView {
    let parts = number_parts(chars, at);
    if parts.has_fraction || parts.has_exponent {
        if parts.base == Base::Decimal {
            TokenKindView::FloatLit(
                chars.subrange(parts.start, parts.end),
                if parts.has_exponent {
                    Some(chars.subrange(parts.end + 1, parts.exponent_end))
                } else {
                    None
                },
            )
        } else {
            TokenKindView::Error(Some("float literals have to be of base 10."@))
        }
    } else {
        match decimal_value(chars.subrange(parts.start, parts.end)) {
            Some(v) => if v <= u64::MAX {
                TokenKindView::IntegerLit(v as u64)
            } else {
                TokenKindView::Error(Some("could not parse integer literal"@))
            },
            None => TokenKindView::Error(Some("could not parse integer literal"@)),
        }
    }
}

/// The operator that starts with `first`, whose second character would
/// stand at `at`: its kind and the number of its characters.
pub open spec fn operator(chars: Seq<char>, first: char, at: int) -> Option<(TokenKindView, int)> {
    if first == '=' {
        Some(if stands(chars, at, '>') { (TokenKindView::Arrow, 2int) } else { (TokenKindView::Eq, 1int) })
    } else if first == '-' {
        Some(if stands(chars, at, '>') { (TokenKindView::Condition, 2int) } else { (TokenKindView::Minus, 1int) })
    } else if first == '/' {
        Some((TokenKindView::Slash, 1int))
    } else if first == ':' {
        Some(
            if stands(chars, at, '=') {
                (TokenKindView::Assign, 2int)
            } else if stands(chars, at, ':') {
                (TokenKindView::Of, 2int)
            } else {
                (TokenKindView::Colon, 1int)
            },
        )
    } else if first == '.' {
        Some(if stands(chars, at, '.') { (TokenKindView::Range, 2int) } else { (TokenKindView::Period, 1int) })
    } else if first == '<' {
        Some(
            if stands(chars, at, '=') {
                (TokenKindView::Le, 2int)
            } else if stands(chars, at, '>') {
                (TokenKindView::Compound, 2int)
            } else if stands(chars, at, '<') {
                (TokenKindView::LShift, 2int)
            } else {
                (TokenKindView::Lt, 1int)
            },
        )
    } else if first == '>' {
        Some(
            if stands(chars, at, '=') {
                (TokenKindView::Ge, 2int)
            } else if stands(chars, at, '>') {
                (TokenKindView::RShift, 2int)
            } else {
                (TokenKindView::Gt, 1int)
            },
        )
    } else if first == '~' {
        Some(if stands(chars, at, '=') { (TokenKindView::Ne, 2int) } else { (TokenKindView::Not, 1int) })
    } else {
        None
    }
}

/// The place `p`, one column wide, in the file.
pub open spec fn loc_of(file: SourceFileId, p: Place) -> Location {
    Location::at(file, p.line, p.column, 1)
}

/// `loc`, `width` columns wide.
pub open spec fn widened(loc: Location, width: int) -> Location {
    Location { width: low32(width), ..loc }
}

/// The word that starts at `p`.
pub open spec fn word_lexeme(chars: Seq<char>, file: SourceFileId, p: Place) -> (Lexeme, Place) {
    let end = run_end(chars, p.offset, CharClass::Word);
    let word = chars.subrange(p.offset, end);
    (Lexeme { kind: word_kind(word), loc: widened(loc_of(file, p), word.len() as int) }, walk(chars, p, end))
}

/// The number that starts at `p`, as wide as it has characters. Where a
/// numeric character starts no number, it is read alone, as an error.
pub open spec fn number_lexeme(chars: Seq<char>, file: SourceFileId, p: Place) -> (Lexeme, Place) {
    let end = number_parts(chars, p.offset).exponent_end;
    if end == p.offset {
        (
            Lexeme {
                kind: TokenKindView::Error(Some("could not parse integer literal"@)),
                loc: loc_of(file, p),
            },
            walk(chars, p, p.offset + 1),
        )
    } else {
        (
            Lexeme {
                kind: number_kind(chars, p.offset),
                loc: widened(loc_of(file, p), end - p.offset),
            },
            walk(chars, p, end),
        )
    }
}

/// The string or character literal whose opening quote stands at `p`. Both
/// end with the next `"`. The width counts the two quotes. One that is not
/// closed is an error, as wide as its opening quote.
pub open spec fn literal_lexeme(chars: Seq<char>, file: SourceFileId, p: Place, is_char: bool) -> (
    Lexeme,
    Place,
) {
    let inside = walk(chars, p, p.offset + 1);
    let (closed, after) = literal_end(chars, inside, '"');
    let text = chars.subrange(inside.offset, after.offset - 1);
    let kind = if !closed {
        TokenKindView::Error(
            Some(
                if is_char {
                    "character literal is not closed"@
                } else {
                    "string literal is not closed"@
                },
            ),
        )
    } else if is_char {
        TokenKindView::CharLit(text)
    } else {
        TokenKindView::StringLit(text)
    };
    let loc = if closed {
        widened(loc_of(file, p), text.len() as int + 2)
    } else {
        loc_of(file, p)
    };
    (Lexeme { kind, loc }, after)
}

/// The atom whose `#` stands at `p`: the word behind the `#`, which has to
/// have a character; the width counts the `#`.
pub open spec fn atom_lexeme(chars: Seq<char>, file: SourceFileId, p: Place) -> (Lexeme, Place) {
    let inside = walk(chars, p, p.offset + 1);
    let end = run_end(chars, inside.offset, CharClass::Word);
    let name = chars.subrange(inside.offset, end);
    if name.len() == 0 {
        (
            Lexeme {
                kind: TokenKindView::Error(Some("expect atom identifier after `#`"@)),
                loc: loc_of(file, inside),
            },
            inside,
        )
    } else {
        (
            Lexeme { kind: TokenKindView::Atom(name), loc: widened(loc_of(file, p), name.len() as int + 1) },
            walk(chars, inside, end),
        )
    }
}

/// What is read of a comment whose `/` stands at `at`: up to the end of
/// the line behind `//`, up to the closing `*/` behind `/*`. `None` where no
/// comment starts.
pub open spec fn comment_at(chars: Seq<char>, at: int) -> Option<int> {
    if !stands(chars, at, '/') {
        None
    } else if stands(chars, at + 1, '/') {
        Some(run_end(chars, at + 1, CharClass::Line))
    } else if stands(chars, at + 1, '*') {
        Some(comment_end(chars, at + 1, 1))
    } else {
        None
    }
}

/// The message on a character that starts no token.
pub open spec fn unexpected_character(ch: char) -> Seq<char> {
    "unexpected character `"@.push(ch).push('`')
}

/// The token that starts at `p`, where neither white space nor a comment
/// stands, nor the end of the input.
pub open spec fn token_at(chars: Seq<char>, file: SourceFileId, p: Place) -> (Lexeme, Place) {
    let ch = chars[p.offset];
    if is_alphabetic_char(ch) || ch == '_' {
        word_lexeme(chars, file, p)
    } else if is_numeric_char(ch) {
        number_lexeme(chars, file, p)
    } else if ch == '"' {
        literal_lexeme(chars, file, p, false)
    } else if ch == '\'' {
        literal_lexeme(chars, file, p, true)
    } else if ch == '#' {
        atom_lexeme(chars, file, p)
    } else if TokenKind::symbol(ch) is Some {
        (
            Lexeme { kind: TokenKind::symbol(ch)->Some_0@, loc: loc_of(file, p) },
            walk(chars, p, p.offset + 1),
        )
    } else {
        match operator(chars, ch, p.offset + 1) {
            Some((kind, width)) => (
                Lexeme { kind, loc: widened(loc_of(file, p), width) },
                walk(chars, p, p.offset + width),
            ),
            None => (
                Lexeme {
                    kind: TokenKindView::Error(Some(unexpected_character(ch))),
                    loc: loc_of(file, p),
                },
                walk(chars, p, p.offset + 1),
            ),
        }
    }
}

/// The next token from `p` on, and the place behind it. White space and
/// comments are passed over; at the end of the input the token is `Eof`;
/// what cannot start a token, a number that cannot be read and a literal
/// that is not closed give an `Error` token. (A comment always ends behind
/// where it starts, as `law_comment_ends_further_on` shows: the test for it is what
/// makes the definition well-founded.)
pub open spec fn lexeme(chars: Seq<char>, file: SourceFileId, p: Place) -> (Lexeme, Place)
    decreases chars.len() - p.offset,
{
    let p1 = walk(chars, p, run_end(chars, p.offset, CharClass::Whitespace));
    if p1.offset < 0 || p1.offset >= chars.len() {
        (Lexeme { kind: TokenKindView::Eof, loc: loc_of(file, p1) }, p1)
    } else {
        match comment_at(chars, p1.offset) {
            Some(end) => if p.offset < end <= chars.len() {
                lexeme(chars, file, walk(chars, p1, end))
            } else {
                (Lexeme { kind: TokenKindView::Eof, loc: loc_of(file, p1) }, p1)
            },
            None => token_at(chars, file, p1),
        }
    }
}

/// The tokens from `p` on, up to and with the `Eof` token.
pub open spec fn lexemes(chars: Seq<char>, file: SourceFileId, p: Place) -> Seq<Lexeme>
    decreases chars.len() - p.offset,
{
    let (first, after) = lexeme(chars, file, p);
    if first.kind is Eof || after.offset <= p.offset || after.offset > chars.len() {
        seq![first]
    } else {
        seq![first].add(lexemes(chars, file, after))
    }
}

/// What a parser of the input is given: an `Eof` token at the place `p`,
/// which stands for nothing read yet, and the tokens from `p` on.
pub open spec fn stream(chars: Seq<char>, file: SourceFileId, p: Place) -> Seq<Lexeme> {
    seq![Lexeme { kind: TokenKindView::Eof, loc: loc_of(file, p) }].add(lexemes(chars, file, p))
}

/// What the lexer found where a number starts.
#[derive(Debug)]
pub struct NumberLit {
    pub kind: TokenKind,
    pub width: usize,
}

/// The lexer of one source file: its characters and the place of the next
/// one.
#[derive(Debug)]
pub struct Lexer {
    pub file_id: SourceFileId,
    pub chars: Vec<char>,
    pub offset: usize,
    pub line: usize,
    pub column: usize,
}

impl Lexer {
    pub open spec fn wf(&self) -> bool {
        self.offset <= self.chars@.len()
    }

    /// The number of characters that are left.
    pub open spec fn remaining(&self) -> nat {
        (self.chars@.len() - self.offset) as nat
    }

    /// Where the lexer stands.
    pub open spec fn place(&self) -> Place {
        Place { offset: self.offset as int, line: self.line, column: self.column }
    }

    /// What a step of the lexer keeps: the file and its characters, and an
    /// offset that never goes back.
    pub open spec fn follows(&self, before: &Lexer) -> bool {
        &&& self.wf()
        &&& self.file_id == before.file_id
        &&& self.chars == before.chars
        &&& self.offset >= before.offset
    }

    /// The lexer has read on from `before` up to `to`, one character after
    /// the other.
    pub open spec fn read_on(&self, before: &Lexer, to: int) -> bool {
        self.follows(before) && self.place() == walk(before.chars@, before.place(), to)
    }

    /// A lexer at the start of `source_file`.
    pub fn from(source_file: &SourceFile) -> (lexer: Self)
        ensures
            lexer.wf(),
            lexer.file_id == source_file.id,
            lexer.chars@ == source_file.contents@,
            lexer.place() == (Place { offset: 0, line: 1, column: 0 }),
    {
        Lexer {
            file_id: source_file.id(),
            chars: to_chars(source_file.contents().as_str()),
            offset: 0,
            line: 1,
            column: 0,
        }
    }

    /// The place of the next character, one column wide.
    pub fn current_loc(&self) -> (loc: Location)
        ensures
            loc == loc_of(self.file_id, self.place()),
    {
        Location::in_file(self.file_id, self.line, self.column, 1)
    }

    /// The next character, if there is one.
    pub fn peek(&self) -> (r: Option<char>)
        requires
            self.wf(),
        ensures
            r == (if self.offset < self.chars@.len() {
                Some(self.chars@[self.offset as int])
            } else {
                None
            }),
    {
        if self.offset < self.chars.len() {
            Some(self.chars[self.offset])
        } else {
            None
        }
    }

    /// Whether the next character is `ch`.
    pub fn peek_is(&self, ch: char) -> (r: bool)
        requires
            self.wf(),
        ensures
            r == stands(self.chars@, self.offset as int, ch),
    {
        self.offset < self.chars.len() && self.chars[self.offset] == ch
    }

    /// Reads one character.
    pub fn next_char(&mut self)
        requires
            old(self).wf(),
            old(self).offset < old(self).chars@.len(),
        ensures
            final(self).read_on(old(self), old(self).offset + 1),
    {
        let ch = self.chars[self.offset];
        if self.offset < self.chars.len() {
            self.offset += 1;
        }
        if ch == '\n' {
            self.line = bumped(self.line);
            self.column = 0;
        } else {
            self.column = bumped(self.column);
        }
        proof {
            let p = old(self).place();
            assert(place_after(self.chars@, p.offset, p.offset, p.line, p.column) == (
                p.line,
                p.column,
            ));
        }
    }

    /// Reads the longest run of characters of the class.
    pub fn skip_while(&mut self, class: CharClass)
        requires
            old(self).wf(),
        ensures
            final(self).read_on(
                old(self),
                run_end(old(self).chars@, old(self).offset as int, class),
            ),
    {
        while self.offset < self.chars.len() && class.accepts(self.chars[self.offset])
            invariant
                self.read_on(old(self), self.offset as int),
                run_end(self.chars@, self.offset as int, class) == run_end(
                    old(self).chars@,
                    old(self).offset as int,
                    class,
                ),
            decreases self.remaining(),
        {
            let ghost before = *self;
            self.next_char();
            proof {
                lemma_walk_on(self.chars@, old(self).place(), before.offset as int, self.offset as int);
            }
        }
    }

    /// Reads the rest of the line, a comment.
    pub fn skip_comment(&mut self)
        requires
            old(self).wf(),
        ensures
            final(self).read_on(
                old(self),
                run_end(old(self).chars@, old(self).offset as int, CharClass::Line),
            ),
    {
        self.skip_while(CharClass::Line);
    }

    /// Reads a comment between `/*` and `*/`, in which comments of the
    /// same kind may stand, from its `*` on.
    pub fn skip_multiline_comment(&mut self)
        requires
            old(self).wf(),
        ensures
            final(self).read_on(old(self), comment_end(old(self).chars@, old(self).offset as int, 1)),
            old(self).offset < old(self).chars@.len() ==> final(self).offset > old(self).offset,
    {
        let mut depth: usize = 1;
        while self.offset < self.chars.len() && depth > 0
            invariant
                self.read_on(old(self), self.offset as int),
                2 * (depth - 1) <= self.offset - old(self).offset,
                depth == 1 || self.offset > old(self).offset,
                comment_end(self.chars@, self.offset as int, depth as nat) == comment_end(
                    old(self).chars@,
                    old(self).offset as int,
                    1,
                ),
            decreases self.remaining(),
        {
            let ghost before = *self;
            let ch = self.chars[self.offset];
            self.next_char();
            let ghost middle = *self;
            if ch == '/' && self.peek_is('*') {
                self.next_char();
                depth += 1;
                proof {
                    lemma_walk_on(self.chars@, before.place(), middle.offset as int, self.offset as int);
                }
            } else if ch == '*' && self.peek_is('/') {
                self.next_char();
                depth -= 1;
                proof {
                    lemma_walk_on(self.chars@, before.place(), middle.offset as int, self.offset as int);
                }
            }
            proof {
                lemma_walk_on(self.chars@, old(self).place(), before.offset as int, self.offset as int);
            }
        }
    }

    pub fn skip_whitespace(&mut self)
        requires
            old(self).wf(),
        ensures
            final(self).read_on(
                old(self),
                run_end(old(self).chars@, old(self).offset as int, CharClass::Whitespace),
            ),
    {
        self.skip_while(CharClass::Whitespace);
    }

    /// Reads a word: the longest run of alphabetic and numeric characters
    /// and `_`.
    pub fn parse_ident(&mut self) -> (r: String)
        requires
            old(self).wf(),
        ensures
            final(self).read_on(
                old(self),
                run_end(old(self).chars@, old(self).offset as int, CharClass::Word),
            ),
            r@ == old(self).chars@.subrange(old(self).offset as int, final(self).offset as int),
    {
        let start = self.offset;
        self.skip_while(CharClass::Word);
        from_chars(&self.chars, start, self.offset)
    }

    pub fn skip_digits(&mut self, base: Base)
        requires
            old(self).wf(),
        ensures
            final(self).read_on(
                old(self),
                run_end(old(self).chars@, old(self).offset as int, CharClass::Digit(base)),
            ),
    {
        self.skip_while(CharClass::Digit(base));
    }

    /// Reads a number literal, and says of what kind it is and how many
    /// characters it has.
    #[verifier::rlimit(30)]
    pub fn parse_number(&mut self) -> (r: NumberLit)
        requires
            old(self).wf(),
        ensures
            final(self).read_on(
                old(self),
                number_parts(old(self).chars@, old(self).offset as int).exponent_end,
            ),
            r.kind@ == number_kind(old(self).chars@, old(self).offset as int),
            r.width == final(self).offset - old(self).offset,
    {
        let ghost parts = number_parts(self.chars@, self.offset as int);
        let ghost first = self.place();
        let mut base = Base::Decimal;
        let begin = self.offset;
        let mut start = self.offset;
        if self.peek_is('0') {
            self.next_char();
            base = match self.peek() {
                Some('b') | Some('B') => Base::Binary,
                Some('o') | Some('O') => Base::Octal,
                Some('x') | Some('X') => Base::Hexadecimal,
                _ => Base::Decimal,
            };
            if base != Base::Decimal {
                let ghost middle = self.offset as int;
                self.next_char();
                start = self.offset;
                proof {
                    lemma_walk_on(self.chars@, first, middle, self.offset as int);
                }
            }
        }
        assert(base == parts.base);
        assert(start == parts.start);
        let ghost middle = self.offset as int;
        self.skip_digits(base);
        proof {
            lemma_run_end(self.chars@, middle, CharClass::Digit(base));
            lemma_walk_on(self.chars@, first, middle, self.offset as int);
        }
        let mut is_float = self.peek_is('.');
        if is_float {
            let ghost point = self.offset as int;
            self.next_char();
            let ghost middle = self.offset as int;
            self.skip_digits(base);
            proof {
                lemma_run_end(self.chars@, middle, CharClass::Digit(base));
                lemma_walk_on(self.chars@, first, point, middle);
                lemma_walk_on(self.chars@, first, middle, self.offset as int);
            }
        }
        let end = self.offset;
        assert(end == parts.end);
        assert(is_float == parts.has_fraction);
        let mut exponent_start: usize = end;
        let has_exponent = self.peek_is('e') || self.peek_is('E');
        if has_exponent {
            self.next_char();
            is_float = true;
            exponent_start = self.offset;
            proof {
                lemma_walk_on(self.chars@, first, end as int, self.offset as int);
            }
            if self.peek_is('+') || self.peek_is('-') {
                self.next_char();
                let ghost middle = self.offset as int;
                self.skip_digits(base);
                proof {
                    lemma_run_end(self.chars@, middle, CharClass::Digit(base));
                    lemma_walk_on(self.chars@, first, exponent_start as int, middle);
                    lemma_walk_on(self.chars@, first, middle, self.offset as int);
                }
            }
        }
        let exponent_end = self.offset;
        assert(exponent_end == parts.exponent_end);
        let width = exponent_end - begin;
        let kind = if is_float {
            if base == Base::Decimal {
                let exponent = if has_exponent {
                    Some(from_chars(&self.chars, exponent_start, exponent_end))
                } else {
                    None
                };
                TokenKind::FloatLit(from_chars(&self.chars, start, end), exponent)
            } else {
                TokenKind::Error(Some(String::from_str("float literals have to be of base 10.")))
            }
        } else {
            match parse_decimal(&self.chars, start, end) {
                Some(value) => TokenKind::IntegerLit(value),
                None => TokenKind::Error(Some(String::from_str("could not parse integer literal"))),
            }
        };
        NumberLit { kind, width }
    }

    /// Reads a string literal up to and with the quote that ends it, and
    /// returns what stands before that quote. A backslash takes the next
    /// character with it. `None` where the input ends first.
    pub fn parse_string_lit(&mut self, quote: char) -> (r: Option<String>)
        requires
            old(self).wf(),
        ensures
            final(self).follows(old(self)),
            final(self).place() == literal_end(old(self).chars@, old(self).place(), quote).1,
            r is Some == literal_end(old(self).chars@, old(self).place(), quote).0,
            r matches Some(s) ==> final(self).offset > old(self).offset && s@ == old(
                self,
            ).chars@.subrange(old(self).offset as int, final(self).offset - 1),
    {
        let start = self.offset;
        while self.offset < self.chars.len() && self.chars[self.offset] != quote
            invariant
                self.follows(old(self)),
                start == old(self).offset,
                literal_end(self.chars@, self.place(), quote) == literal_end(
                    old(self).chars@,
                    old(self).place(),
                    quote,
                ),
            decreases self.remaining(),
        {
            let ghost before = *self;
            let ch = self.chars[self.offset];
            self.next_char();
            proof {
                lemma_walk_one(self.chars@, before.place());
            }
            if ch == ESCAPE_CHAR {
                if self.offset < self.chars.len() {
                    let ghost middle = self.offset as int;
                    self.next_char();
                    proof {
                        lemma_walk_on(self.chars@, before.place(), middle, self.offset as int);
                    }
                } else {
                    return None;
                }
            } else if ch == '\n' {
                self.line = bumped(self.line);
                self.column = 0;
            }
        }
        if self.offset < self.chars.len() {
            self.next_char();
            Some(from_chars(&self.chars, start, self.offset - 1))
        } else {
            None
        }
    }

    /// Reads the word at which the lexer stands: a keyword or an
    /// identifier.
    pub fn next_word(&mut self) -> (r: Token)
        requires
            old(self).wf(),
        ensures
            final(self).follows(old(self)),
            (lexeme_of(r), final(self).place()) == word_lexeme(
                old(self).chars@,
                old(self).file_id,
                old(self).place(),
            ),
    {
        let loc = self.current_loc();
        let word = self.parse_ident();
        Token::ident(loc, word)
    }

    /// Reads the number at which the lexer stands.
    pub fn next_number(&mut self) -> (r: Token)
        requires
            old(self).wf(),
            old(self).offset < old(self).chars@.len(),
        ensures
            final(self).follows(old(self)),
            (lexeme_of(r), final(self).place()) == number_lexeme(
                old(self).chars@,
                old(self).file_id,
                old(self).place(),
            ),
    {
        let loc = self.current_loc();
        let before = self.offset;
        let number = self.parse_number();
        if self.offset == before {
            self.next_char();
            return Token::with_width(
                loc,
                1,
                TokenKind::Error(Some(String::from_str("could not parse integer literal"))),
            );
        }
        Token::with_width(loc, number.width, number.kind)
    }

    /// Reads the string or character literal at whose opening quote the
    /// lexer stands.
    pub fn next_literal(&mut self, is_char: bool) -> (r: Token)
        requires
            old(self).wf(),
            old(self).offset < old(self).chars@.len(),
        ensures
            final(self).follows(old(self)),
            (lexeme_of(r), final(self).place()) == literal_lexeme(
                old(self).chars@,
                old(self).file_id,
                old(self).place(),
                is_char,
            ),
    {
        let loc = self.current_loc();
        self.next_char();
        match self.parse_string_lit('"') {
            Some(text) => if is_char {
                Token::char_lit(loc, text)
            } else {
                Token::string_lit(loc, text)
            },
            None => Token::error(
                loc,
                Some(
                    String::from_str(
                        if is_char {
                            "character literal is not closed"
                        } else {
                            "string literal is not closed"
                        },
                    ),
                ),
            ),
        }
    }

    /// Reads the atom at whose `#` the lexer stands.
    pub fn next_atom(&mut self) -> (r: Token)
        requires
            old(self).wf(),
            old(self).offset < old(self).chars@.len(),
        ensures
            final(self).follows(old(self)),
            (lexeme_of(r), final(self).place()) == atom_lexeme(
                old(self).chars@,
                old(self).file_id,
                old(self).place(),
            ),
    {
        let loc = self.current_loc();
        self.next_char();
        let ghost inside = self.place();
        let atom = self.parse_ident();
        if atom.as_str().unicode_len() == 0 {
            proof {
                lemma_run_end(self.chars@, inside.offset, CharClass::Word);
            }
            Token::error(self.current_loc(), Some(String::from_str("expect atom identifier after `#`")))
        } else {
            let width = atom.as_str().unicode_len().wrapping_add(1);
            Token::with_width(loc, width, TokenKind::Atom(atom))
        }
    }

    /// Reads the operator that starts with `first`, which was read, at
    /// `loc`; `None` where `first` starts none.
    pub fn next_operator(&mut self, loc: Location, first: char) -> (r: Option<Token>)
        requires
            old(self).wf(),
        ensures
            final(self).follows(old(self)),
            match operator(old(self).chars@, first, old(self).offset as int) {
                Some((kind, width)) => r matches Some(t) && lexeme_of(t) == (Lexeme {
                    kind,
                    loc: widened(loc, width),
                }) && final(self).read_on(old(self), old(self).offset + width - 1),
                None => r is None && *final(self) == *old(self),
            },
    {
        let second = self.peek();
        let kind = match (first, second) {
            ('=', Some('>')) => TokenKind::Arrow,
            ('-', Some('>')) => TokenKind::Condition,
            (':', Some('=')) => TokenKind::Assign,
            (':', Some(':')) => TokenKind::Of,
            ('.', Some('.')) => TokenKind::Range,
            ('<', Some('=')) => TokenKind::Le,
            ('<', Some('>')) => TokenKind::Compound,
            ('<', Some('<')) => TokenKind::LShift,
            ('>', Some('=')) => TokenKind::Ge,
            ('>', Some('>')) => TokenKind::RShift,
            ('~', Some('=')) => TokenKind::Ne,
            _ => {
                let single = match first {
                    '=' => TokenKind::Eq,
                    '-' => TokenKind::Minus,
                    '/' => TokenKind::Slash,
                    ':' => TokenKind::Colon,
                    '.' => TokenKind::Period,
                    '<' => TokenKind::Lt,
                    '>' => TokenKind::Gt,
                    '~' => TokenKind::Not,
                    _ => {
                        return None;
                    },
                };
                proof {
                    let p = self.place();
                    assert(walk(self.chars@, p, p.offset) == p);
                }
                return Some(Token::with_width(loc, 1, single));
            },
        };
        self.next_char();
        Some(Token::with_width(loc, 2, kind))
    }

    /// Reads the token at which the lexer stands, where neither white
    /// space nor a comment stands, nor the end of the input.
    pub fn next_token(&mut self) -> (r: Token)
        requires
            old(self).wf(),
            old(self).offset < old(self).chars@.len(),
        ensures
            final(self).follows(old(self)),
            final(self).offset > old(self).offset,
            !(r.kind is Eof),
            (lexeme_of(r), final(self).place()) == token_at(
                old(self).chars@,
                old(self).file_id,
                old(self).place(),
            ),
    {
        let ch = self.chars[self.offset];
        if ch.is_alphabetic() || ch == '_' {
            proof {
                lemma_run_end(self.chars@, self.offset as int, CharClass::Word);
                lemma_keyword_not_eof(
                    self.chars@.subrange(
                        self.offset as int,
                        run_end(self.chars@, self.offset as int, CharClass::Word),
                    ),
                );
            }
            return self.next_word();
        }
        if ch.is_numeric() {
            proof {
                lemma_number_end(self.chars@, self.offset as int);
            }
            return self.next_number();
        }
        if ch == '"' {
            proof {
                lemma_literal_end(self.chars@, walk(self.chars@, self.place(), self.offset + 1), '"');
            }
            return self.next_literal(false);
        }
        if ch == '\'' {
            proof {
                lemma_literal_end(self.chars@, walk(self.chars@, self.place(), self.offset + 1), '"');
            }
            return self.next_literal(true);
        }
        if ch == '#' {
            proof {
                lemma_run_end(self.chars@, self.offset + 1, CharClass::Word);
            }
            return self.next_atom();
        }
        let loc = self.current_loc();
        let ghost before = *self;
        self.next_char();
        if let Some(kind) = TokenKind::try_from(ch) {
            return Token::new(loc, kind);
        }
        let ghost middle = *self;
        match self.next_operator(loc, ch) {
            Some(token) => {
                proof {
                    lemma_walk_on(self.chars@, before.place(), middle.offset as int, self.offset as int);
                }
                token
            },
            None => {
                let mut message = String::from_str("unexpected character `");
                message.push(ch);
                message.push('`');
                Token::error(loc, Some(message))
            },
        }
    }

    /// The next token. White space and comments are passed over; at the end
    /// of the input the token is `Eof`; what cannot start a token, a number
    /// that cannot be read and a literal that is not closed give an `Error`
    /// token.
    pub fn next(&mut self) -> (r: Token)
        requires
            old(self).wf(),
        ensures
            final(self).follows(old(self)),
            (lexeme_of(r), final(self).place()) == lexeme(
                old(self).chars@,
                old(self).file_id,
                old(self).place(),
            ),
            r.kind is Eof ==> final(self).offset == old(self).chars@.len(),
            !(r.kind is Eof) ==> final(self).offset > old(self).offset,
    {
        loop
            invariant
                self.follows(old(self)),
                lexeme(self.chars@, self.file_id, self.place()) == lexeme(
                    old(self).chars@,
                    old(self).file_id,
                    old(self).place(),
                ),
            decreases self.remaining(),
        {
            let ghost before = *self;
            self.skip_whitespace();
            proof {
                lemma_run_end(self.chars@, before.offset as int, CharClass::Whitespace);
            }
            if self.offset >= self.chars.len() {
                return Token::eof(self.current_loc());
            }
            let ghost middle = *self;
            if self.peek_is('/') {
                if self.offset + 1 < self.chars.len() && self.chars[self.offset + 1] == '/' {
                    self.next_char();
                    let ghost inside = self.offset as int;
                    self.skip_comment();
                    proof {
                        lemma_run_end(self.chars@, inside, CharClass::Line);
                        lemma_walk_on(self.chars@, middle.place(), inside, self.offset as int);
                    }
                    continue ;
                } else if self.offset + 1 < self.chars.len() && self.chars[self.offset + 1] == '*' {
                    self.next_char();
                    let ghost inside = self.offset as int;
                    self.skip_multiline_comment();
                    proof {
                        lemma_walk_on(self.chars@, middle.place(), inside, self.offset as int);
                    }
                    continue ;
                }
            }
            return self.next_token();
        }
    }

    /// The tokens of what is left of the input, up to and with the `Eof`
    /// token, which stands once, at the end.
    pub fn tokenize(&mut self) -> (r: Vec<Token>)
        requires
            old(self).wf(),
        ensures
            final(self).follows(old(self)),
            lexemes_of(r@) == lexemes(old(self).chars@, old(self).file_id, old(self).place()),
            r@.len() >= 1,
            r@.last().kind is Eof,
            forall|i: int| 0 <= i < r@.len() - 1 ==> !((#[trigger] r@[i]).kind is Eof),
    {
        let mut tokens: Vec<Token> = Vec::new();
        proof {
            reveal(lexemes_of);
            assert(lexemes_of(tokens@).add(lexemes(self.chars@, self.file_id, self.place()))
                =~= lexemes(self.chars@, self.file_id, self.place()));
        }
        loop
            invariant
                self.follows(old(self)),
                forall|i: int| 0 <= i < tokens@.len() ==> !((#[trigger] tokens@[i]).kind is Eof),
                lexemes_of(tokens@).add(lexemes(self.chars@, self.file_id, self.place())) == lexemes(
                    old(self).chars@,
                    old(self).file_id,
                    old(self).place(),
                ),
            decreases self.remaining(),
        {
            let ghost before = *self;
            let ghost read = tokens@;
            let token = self.next();
            let done = token.is_eof();
            tokens.push(token);
            proof {
                reveal(lexemes_of);
                let rest = lexemes(before.chars@, before.file_id, before.place());
                assert(lexemes_of(tokens@) =~= lexemes_of(read).add(seq![lexeme_of(token)]));
                if done {
                    assert(rest == seq![lexeme_of(token)]);
                } else {
                    assert(rest == seq![lexeme_of(token)].add(
                        lexemes(self.chars@, self.file_id, self.place()),
                    ));
                    assert(lexemes_of(tokens@).add(lexemes(self.chars@, self.file_id, self.place()))
                        =~= lexemes_of(read).add(rest));
                }
            }
            if done {
                proof {
                    assert(lexemes_of(tokens@).add(Seq::empty()) =~= lexemes_of(tokens@));
                }
                return tokens;
            }
        }
    }
}

/// No word is the end of the input.
pub proof fn lemma_keyword_not_eof(word: Seq<char>)
    ensures
        !(word_kind(word) is Eof),
{
}

/// A number that starts with a digit has a character.
pub proof fn lemma_number_end(chars: Seq<char>, at: int)
    requires
        0 <= at < chars.len(),
    ensures
        at <= number_parts(chars, at).exponent_end <= chars.len(),
{
    let parts = number_parts(chars, at);
    if parts.start <= chars.len() {
        lemma_run_end(chars, parts.start, CharClass::Digit(parts.base));
    }
    let whole_end = run_end(chars, parts.start, CharClass::Digit(parts.base));
    if parts.has_fraction {
        lemma_run_end(chars, whole_end + 1, CharClass::Digit(parts.base));
    }
    if parts.has_exponent && parts.end + 2 <= chars.len() {
        lemma_run_end(chars, parts.end + 2, CharClass::Digit(parts.base));
    }
}

/// The reading of a literal ends inside the input, and behind a closing
/// quote where the literal is closed.
pub proof fn lemma_literal_end(chars: Seq<char>, p: Place, quote: char)
    requires
        0 <= p.offset <= chars.len(),
    ensures
        p.offset <= literal_end(chars, p, quote).1.offset <= chars.len(),
        literal_end(chars, p, quote).0 ==> literal_end(chars, p, quote).1.offset > p.offset,
    decreases chars.len() - p.offset,
{
    if p.offset < chars.len() && chars[p.offset] != quote {
        if chars[p.offset] == ESCAPE_CHAR {
            if p.offset + 1 < chars.len() {
                lemma_literal_end(chars, walk(chars, p, p.offset + 2), quote);
            }
        } else if chars[p.offset] == '\n' {
            lemma_literal_end(
                chars,
                Place { offset: p.offset + 1, line: bump(bump(p.line)), column: 0 },
                quote,
            );
        } else {
            lemma_literal_end(chars, walk(chars, p, p.offset + 1), quote);
        }
    }
}

/// The reading of a comment ends inside the input and not before where it
/// starts.
pub proof fn lemma_comment_end(chars: Seq<char>, at: int, depth: nat)
    requires
        0 <= at <= chars.len(),
    ensures
        at <= comment_end(chars, at, depth) <= chars.len(),
    decreases chars.len() - at,
{
    if depth > 0 && at < chars.len() {
        if chars[at] == '/' && stands(chars, at + 1, '*') {
            lemma_comment_end(chars, at + 2, depth + 1);
        } else if chars[at] == '*' && stands(chars, at + 1, '/') {
            lemma_comment_end(chars, at + 2, (depth - 1) as nat);
        } else {
            lemma_comment_end(chars, at + 1, depth);
        }
    }
}

/// A comment ends behind its first character and inside the input: the
/// next token is always looked for further on.
pub proof fn law_comment_ends_further_on(chars: Seq<char>, at: int)
    requires
        0 <= at < chars.len(),
    ensures
        comment_at(chars, at) matches Some(end) ==> at < end <= chars.len(),
{
    if stands(chars, at + 1, '/') {
        lemma_run_end(chars, at + 1, CharClass::Line);
    } else if stands(chars, at + 1, '*') {
        lemma_comment_end(chars, at + 1, 1);
    }
}

} // verus!
