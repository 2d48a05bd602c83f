//! Source files, locations inside them, and values tagged with a location.

use core::hash::{Hash, Hasher};
use core::ops::Deref;
use vstd::prelude::*;
use vstd::std_specs::cmp::{PartialEqSpec, PartialEqSpecImpl};
use crate::error::CompilerError;
use crate::paint::{
    bold_bright_black, bold_bright_grey, bold_bright_yellow, bright_black, bright_grey, wears,
    wears_bold, yellow,
};
use crate::text::{decimal, from_chars, push_decimal, push_repeated, push_text, to_chars};

verus! {

pub type SourceFileId = u32;

/// The lines of `s`: the pieces between line feeds. A text without a line
/// feed is one line; a text that ends in a line feed has an empty last line.
pub open spec fn split_lines(s: Seq<char>) -> Seq<Seq<char>>
    decreases s.len(),
{
    if s.len() == 0 {
        seq![Seq::<char>::empty()]
    } else {
        let init = split_lines(s.drop_last());
        if s.last() == '\n' {
            init.push(Seq::<char>::empty())
        } else {
            init.update(init.len() - 1, init.last().push(s.last()))
        }
    }
}

/// `count` times the character `ch`.
pub open spec fn repeated(ch: char, count: nat) -> Seq<char> {
    Seq::new(count, |i: int| ch)
}

/// The texts of `parts`, one behind the other.
pub open spec fn joined_parts(parts: Seq<Seq<char>>) -> Seq<char>
    decreases parts.len(),
{
    if parts.len() == 0 {
        Seq::empty()
    } else {
        joined_parts(parts.drop_last()) + parts.last()
    }
}

/// Whether `text` is the first line of what shows the diagnostic: the tag
/// of the severity in bold and in its colour, the path of the file, line
/// and column, and the message.
pub open spec fn heads(path: Seq<char>, err: Located<CompilerError>, text: Seq<char>) -> bool {
    exists|tag: Seq<char>| #[trigger]
        wears_bold(err.inner.severity.colour(), err.inner.severity.label_text(), tag) && text
            == tag + " "@ + path + ":"@ + decimal(err.loc.line as nat) + ":"@ + decimal(
            err.loc.column as nat,
        ) + ": "@ + err.inner.message@ + "\n"@
}

/// Whether `text` is the second line: the number of the line in bold
/// bright black, a bar in bright black, and the line of the source, with
/// what the diagnostic marks in bold bright yellow.
pub open spec fn quotes(line: Seq<char>, loc: Location, text: Seq<char>) -> bool {
    exists|number: Seq<char>, bar: Seq<char>, marked: Seq<char>|
        #![trigger wears_bold(90, line_number_text(loc.line), number), wears(90, "|"@, bar), wears_bold(93, line.subrange(loc.column as int, loc.column + loc.width), marked)]
        {
            &&& wears_bold(90, line_number_text(loc.line), number)
            &&& wears(90, "|"@, bar)
            &&& wears_bold(93, line.subrange(loc.column as int, loc.column + loc.width), marked)
            &&& text == number + " "@ + bar + " "@ + line.subrange(0, loc.column as int) + marked
                + line.subrange(loc.column + loc.width, line.len() as int) + "\n"@
        }
}

/// Whether `text` is the advice behind an underline: nothing where the
/// diagnostic has no hint; else an arrow in bright black, `hint:` in bold
/// bright grey, and the hint in bright grey.
pub open spec fn advises(hint: Option<String>, text: Seq<char>) -> bool {
    match hint {
        None => text == Seq::<char>::empty(),
        Some(h) => exists|arrow: Seq<char>, label: Seq<char>, advice: Seq<char>|
            #![trigger wears(90, "<-"@, arrow), wears_bold(97, "hint:"@, label), wears(97, h@, advice)]
            {
                &&& wears(90, "<-"@, arrow)
                &&& wears_bold(97, "hint:"@, label)
                &&& wears(97, h@, advice)
                &&& text == " "@ + arrow + " "@ + label + " "@ + advice
            },
    }
}

/// Whether `text` is the third line: below the number nothing, a bar in
/// bright black, and below what the diagnostic marks an underline in
/// yellow, with the advice behind it.
pub open spec fn underlines(loc: Location, hint: Option<String>, text: Seq<char>) -> bool {
    exists|bar: Seq<char>, line: Seq<char>, advice: Seq<char>|
        #![trigger wears(90, "|"@, bar), wears(33, repeated('~', loc.width as nat), line), advises(hint, advice)]
        {
            &&& wears(90, "|"@, bar)
            &&& wears(33, repeated('~', loc.width as nat), line)
            &&& advises(hint, advice)
            &&& text == "      "@ + bar + " "@ + repeated(' ', loc.column as nat) + line + advice
                + "\n"@
        }
}

/// The second line of the text that shows a diagnostic at `loc` in `line`.
pub fn quote_line(line: &String, loc: Location) -> (r: String)
    requires
        loc.column + loc.width <= line@.len(),
    ensures
        quotes(line@, loc, r@),
{
    let chars = to_chars(line.as_str());
    let start = loc.column();
    let wide = loc.width();
    let count = chars.len();
    assert(start + wide <= count);
    let end: usize = start + wide;
    let number = bold_bright_black(line_number(loc.line));
    let bar = bright_black(String::from_str("|"));
    let marked = bold_bright_yellow(from_chars(&chars, start, end));
    let mut text = String::new();
    push_text(&mut text, number.as_str());
    push_text(&mut text, " ");
    push_text(&mut text, bar.as_str());
    push_text(&mut text, " ");
    push_text(&mut text, from_chars(&chars, 0, start).as_str());
    push_text(&mut text, marked.as_str());
    push_text(&mut text, from_chars(&chars, end, chars.len()).as_str());
    push_text(&mut text, "\n");
    proof {
        assert(wears_bold(90, line_number_text(loc.line), number@));
        assert(wears(90, "|"@, bar@));
        assert(wears_bold(93, line@.subrange(loc.column as int, loc.column + loc.width), marked@));
        assert(text@ =~= number@ + " "@ + bar@ + " "@ + line@.subrange(0, loc.column as int)
            + marked@ + line@.subrange(loc.column + loc.width, line@.len() as int) + "\n"@);
    }
    text
}

/// The advice behind an underline.
pub fn advice_text(hint: &Option<String>) -> (r: String)
    ensures
        advises(*hint, r@),
{
    let mut text = String::new();
    match hint {
        Some(h) => {
            let arrow = bright_black(String::from_str("<-"));
            let label = bold_bright_grey(String::from_str("hint:"));
            let advice = bright_grey(h.clone());
            push_text(&mut text, " ");
            push_text(&mut text, arrow.as_str());
            push_text(&mut text, " ");
            push_text(&mut text, label.as_str());
            push_text(&mut text, " ");
            push_text(&mut text, advice.as_str());
            proof {
                assert(wears(90, "<-"@, arrow@));
                assert(wears_bold(97, "hint:"@, label@));
                assert(wears(97, h@, advice@));
                assert(text@ =~= " "@ + arrow@ + " "@ + label@ + " "@ + advice@);
            }
        },
        None => {},
    }
    text
}

/// The third line of the text that shows a diagnostic at `loc`.
pub fn under_line(loc: Location, hint: &Option<String>) -> (r: String)
    ensures
        underlines(loc, *hint, r@),
{
    let bar = bright_black(String::from_str("|"));
    let mut tildes = String::new();
    push_repeated(&mut tildes, '~', loc.width());
    assert(tildes@ =~= repeated('~', loc.width as nat));
    let line = yellow(tildes);
    let advice = advice_text(hint);
    let mut text = String::from_str("      ");
    push_text(&mut text, bar.as_str());
    push_text(&mut text, " ");
    push_repeated(&mut text, ' ', loc.column());
    push_text(&mut text, line.as_str());
    push_text(&mut text, advice.as_str());
    push_text(&mut text, "\n");
    proof {
        assert(wears(90, "|"@, bar@));
        assert(wears(33, repeated('~', loc.width as nat), line@));
        assert(advises(*hint, advice@));
        assert(text@ =~= "      "@ + bar@ + " "@ + repeated(' ', loc.column as nat) + line@
            + advice@ + "\n"@);
    }
    text
}

#[derive(Debug)]
pub struct SourceFile {
    pub id: SourceFileId,
    pub path: String,
    pub contents: String,
    pub lines: Vec<String>,
}

impl SourceFile {
    /// The texts of the stored lines.
    pub open spec fn line_texts(&self) -> Seq<Seq<char>> {
        Seq::new(self.lines@.len(), |i: int| self.lines@[i]@)
    }

    /// The stored lines are the lines of the contents.
    pub open spec fn wf(&self) -> bool {
        self.line_texts() == split_lines(self.contents@)
    }

    /// A source file with the given contents, split into lines.
    pub fn new(path: String, contents: String, id: SourceFileId) -> (file: Self)
        ensures
            file.wf(),
            file.id == id,
            file.path == path,
            file.contents == contents,
    {
        let chars = to_chars(contents.as_str());
        let mut lines: Vec<String> = Vec::new();
        let mut current = String::new();
        let mut i: usize = 0;
        while i < chars.len()
            invariant
                i <= chars.len(),
                chars@ == contents@,
                Seq::new(lines@.len(), |k: int| lines@[k]@).push(current@) == split_lines(
                    chars@.take(i as int),
                ),
            decreases chars.len() - i,
        {
            let ghost before = Seq::new(lines@.len(), |k: int| lines@[k]@).push(current@);
            let ch = chars[i];
            proof {
                assert(chars@.take(i + 1).drop_last() =~= chars@.take(i as int));
                assert(chars@.take(i + 1).last() == ch);
            }
            if ch == '\n' {
                lines.push(current);
                current = String::new();
                assert(Seq::new(lines@.len(), |k: int| lines@[k]@).push(current@) =~= before.push(
                    Seq::<char>::empty(),
                ));
            } else {
                current.push(ch);
                assert(Seq::new(lines@.len(), |k: int| lines@[k]@).push(current@) =~= before.update(
                    before.len() - 1,
                    before.last().push(ch),
                ));
            }
            i += 1;
        }
        assert(chars@.take(i as int) =~= chars@);
        let ghost before = Seq::new(lines@.len(), |k: int| lines@[k]@).push(current@);
        lines.push(current);
        let file = SourceFile { id, path, contents, lines };
        assert(file.line_texts() =~= before);
        file
    }

    pub fn contents(&self) -> (r: &String)
        ensures
            *r == self.contents,
    {
        &self.contents
    }

    /// Line `line_num`, counted from 1; `None` when there is no such line.
    pub fn line(&self, line_num: usize) -> (r: Option<&String>)
        ensures
            1 <= line_num <= self.lines@.len() ==> r == Some(&self.lines@[line_num - 1]),
            !(1 <= line_num <= self.lines@.len()) ==> r is None,
    {
        if line_num >= 1 && line_num <= self.lines.len() {
            Some(&self.lines[line_num - 1])
        } else {
            None
        }
    }

    /// Whether the file has the line of the diagnostic, and the line the
    /// columns that the diagnostic marks; and the same of each diagnostic
    /// that goes with it.
    pub open spec fn shows(&self, err: Located<CompilerError>) -> bool
        decreases err,
    {
        &&& 1 <= err.loc.line <= self.lines@.len()
        &&& err.loc.column + err.loc.width <= self.lines@[err.loc.line - 1]@.len()
        &&& forall|i: int|
            0 <= i < err.inner.additional@.len() ==> self.shows(
                #[trigger] err.inner.additional@[i],
            )
    }

    /// Whether `text` shows the diagnostic in this file: a line with its
    /// severity, place and message; the line of the source with what the
    /// diagnostic marks in bold; an underline below that, and the hint
    /// behind it; then the same for each diagnostic that goes with it.
    pub open spec fn pictures(&self, err: Located<CompilerError>, text: Seq<char>) -> bool
        decreases err,
    {
        &&& 1 <= err.loc.line <= self.lines@.len()
        &&& err.loc.column + err.loc.width <= self.lines@[err.loc.line - 1]@.len()
        &&& exists|head: Seq<char>, quote: Seq<char>, under: Seq<char>, more: Seq<Seq<char>>|
            #![trigger heads(self.path@, err, head), quotes(self.lines@[err.loc.line - 1]@, err.loc, quote), underlines(err.loc, err.inner.hint, under), joined_parts(more)]
            {
                &&& heads(self.path@, err, head)
                &&& quotes(self.lines@[err.loc.line - 1]@, err.loc, quote)
                &&& underlines(err.loc, err.inner.hint, under)
                &&& more.len() == err.inner.additional@.len()
                &&& forall|i: int|
                    0 <= i < err.inner.additional@.len() ==> self.pictures(
                        #[trigger] err.inner.additional@[i],
                        more[i],
                    )
                &&& text == head + quote + under + joined_parts(more)
            }
    }

    /// The first line of the text that shows a diagnostic.
    pub fn head_line(&self, err: &Located<CompilerError>) -> (r: String)
        ensures
            heads(self.path@, *err, r@),
    {
        let tag = err.inner.severity.to_string();
        let ghost worn = tag@;
        let mut text = tag;
        push_text(&mut text, " ");
        push_text(&mut text, self.path.as_str());
        push_text(&mut text, ":");
        push_decimal(&mut text, err.loc.line as u64);
        push_text(&mut text, ":");
        push_decimal(&mut text, err.loc.column as u64);
        push_text(&mut text, ": ");
        push_text(&mut text, err.inner.message.as_str());
        push_text(&mut text, "\n");
        assert(wears_bold(err.inner.severity.colour(), err.inner.severity.label_text(), worn));
        text
    }

    /// The text that shows a diagnostic: its severity, place and message;
    /// the line of the source with what the diagnostic marks in bold; an
    /// underline below that, and the hint behind it; then the same for
    /// each diagnostic that goes with it. `None` where the file has no
    /// such line or the line no such columns.
    pub fn highlight_error(&self, err: &Located<CompilerError>) -> (r: Option<String>)
        ensures
            r is Some <==> self.shows(*err),
            r matches Some(text) ==> self.pictures(*err, text@),
        decreases err,
    {
        let loc = err.loc;
        let line = match self.line(loc.line()) {
            Some(l) => l,
            None => {
                return None;
            },
        };
        let wide: u64 = loc.column as u64 + loc.width as u64;
        if wide > line.as_str().unicode_len() as u64 {
            return None;
        }
        let head = self.head_line(err);
        let quote = quote_line(line, loc);
        let under = under_line(loc, &err.inner.hint);
        let mut text = String::new();
        push_text(&mut text, head.as_str());
        push_text(&mut text, quote.as_str());
        push_text(&mut text, under.as_str());
        let ghost mut more: Seq<Seq<char>> = Seq::empty();
        let mut i: usize = 0;
        assert(text@ =~= head@ + quote@ + under@ + joined_parts(more));
        while i < err.inner.additional.len()
            invariant
                i <= err.inner.additional@.len(),
                1 <= err.loc.line <= self.lines@.len(),
                err.loc.column + err.loc.width <= self.lines@[err.loc.line - 1]@.len(),
                forall|j: int| 0 <= j < i ==> self.shows(#[trigger] err.inner.additional@[j]),
                more.len() == i,
                forall|j: int|
                    0 <= j < i ==> self.pictures(#[trigger] err.inner.additional@[j], more[j]),
                text@ == head@ + quote@ + under@ + joined_parts(more),
            decreases err.inner.additional@.len() - i,
        {
            match self.highlight_error(&err.inner.additional[i]) {
                Some(part) => {
                    let ghost before = more;
                    push_text(&mut text, part.as_str());
                    proof {
                        more = before.push(part@);
                        assert(more.drop_last() =~= before);
                        assert(text@ =~= head@ + quote@ + under@ + joined_parts(more));
                    }
                },
                None => {
                    return None;
                },
            }
            i += 1;
        }
        Some(text)
    }

    pub fn id(&self) -> (r: SourceFileId)
        ensures
            r == self.id,
    {
        self.id
    }

    pub fn path(&self) -> (r: &String)
        ensures
            *r == self.path,
    {
        &self.path
    }
}

/// A line number as it stands in front of a line of source: in decimal,
/// filled up with spaces in front to four characters, after one space.
pub open spec fn line_number_text(n: u32) -> Seq<char> {
    let digits = decimal(n as nat);
    let fill: nat = if digits.len() < 4 {
        (4 - digits.len()) as nat
    } else {
        0
    };
    " "@ + Seq::new(fill, |i: int| ' ') + digits
}

pub fn line_number(n: u32) -> (r: String)
    ensures
        r@ == line_number_text(n),
{
    let mut digits = String::new();
    push_decimal(&mut digits, n as u64);
    let len = digits.as_str().unicode_len();
    let mut r = String::from_str(" ");
    if len < 4 {
        push_repeated(&mut r, ' ', 4 - len);
    } else {
        assert(Seq::new(0nat, |i: int| ' ') =~= Seq::<char>::empty());
    }
    push_text(&mut r, digits.as_str());
    assert(r@ =~= line_number_text(n));
    r
}

/// The number that the low 32 bits of `x` write.
pub open spec fn low32(x: int) -> u32 {
    (x % 0x1_0000_0000) as u32
}

/// The low 32 bits of `x`.
pub fn low_u32(x: usize) -> (r: u32)
    ensures
        r == low32(x as int),
{
    let y: u64 = x as u64;
    (y % 0x1_0000_0000u64) as u32
}

/// A span of `width` columns on one line of one source file.
#[derive(Clone, Copy, Debug, PartialEq, Eq, Structural)]
pub struct Location {
    pub source_file_id: SourceFileId,
    pub line: u32,
    pub column: u32,
    pub width: u32,
}

impl Location {
    /// The location in `source_file` with the low 32 bits of each measure.
    pub fn new(source_file: &SourceFile, line: usize, column: usize, width: usize) -> (loc: Self)
        ensures
            loc == Location::at(source_file.id, line, column, width),
    {
        Location {
            source_file_id: source_file.id(),
            line: low_u32(line),
            column: low_u32(column),
            width: low_u32(width),
        }
    }

    pub open spec fn at(id: SourceFileId, line: usize, column: usize, width: usize) -> Location {
        Location {
            source_file_id: id,
            line: low32(line as int),
            column: low32(column as int),
            width: low32(width as int),
        }
    }

    /// The same, for a file known by its id alone.
    pub fn in_file(id: SourceFileId, line: usize, column: usize, width: usize) -> (loc: Self)
        ensures
            loc == Location::at(id, line, column, width),
    {
        Location {
            source_file_id: id,
            line: low_u32(line),
            column: low_u32(column),
            width: low_u32(width),
        }
    }

    pub fn set_width(&mut self, width: usize)
        ensures
            *final(self) == (Location { width: low32(width as int), ..*old(self) }),
    {
        self.width = low_u32(width);
    }

    pub fn file_id(&self) -> (r: SourceFileId)
        ensures
            r == self.source_file_id,
    {
        self.source_file_id
    }

    pub fn line(&self) -> (r: usize)
        ensures
            r == self.line,
    {
        self.line as usize
    }

    pub fn column(&self) -> (r: usize)
        ensures
            r == self.column,
    {
        self.column as usize
    }

    pub fn width(&self) -> (r: usize)
        ensures
            r == self.width,
    {
        self.width as usize
    }
}

/// A value together with the place in the source that it came from.
#[derive(Debug)]
pub struct Located<T> {
    pub inner: T,
    pub loc: Location,
}

impl<T> Located<T> {
    pub fn with_location(inner: T, loc: Location) -> (r: Self)
        ensures
            r.inner == inner,
            r.loc == loc,
    {
        Located { inner, loc }
    }

    pub fn location(&self) -> (r: &Location)
        ensures
            *r == self.loc,
    {
        &self.loc
    }

    /// The value inside, by reference.
    pub fn inner(&self) -> (r: &T)
        ensures
            *r == self.inner,
    {
        &self.inner
    }

    /// Applies `func` to the value and keeps the location.
    pub fn map<U, F: FnOnce(T) -> U>(self, func: F) -> (r: Located<U>)
        requires
            func.requires((self.inner,)),
        ensures
            func.ensures((self.inner,), r.inner),
            r.loc == self.loc,
    {
        Located { inner: func(self.inner), loc: self.loc }
    }

    pub fn unwrap(self) -> (r: T)
        ensures
            r == self.inner,
    {
        self.inner
    }
}

impl<T: PartialEq> PartialEq for Located<T> {
    /// Two located values are equal where the values are, whatever their
    /// places.
    fn eq(&self, other: &Self) -> (r: bool) {
        self.inner == other.inner
    }
}

impl<T: PartialEq> PartialEqSpecImpl for Located<T> {
    open spec fn obeys_eq_spec() -> bool {
        T::obeys_eq_spec()
    }

    open spec fn eq_spec(&self, other: &Self) -> bool {
        self.inner.eq_spec(&other.inner)
    }
}

impl<T: Eq> Eq for Located<T> {

}

impl<T: Hash> Hash for Located<T> {
    /// `Hash::hash` of the standard library on the value inside: a located
    /// value hashes as its value does, whatever its place. Nothing is
    /// claimed of what the hasher then holds.
    #[verifier::external_body]
    fn hash<H: Hasher>(&self, state: &mut H) {
        self.inner.hash(state)
    }
}

impl<T> Deref for Located<T> {
    type Target = T;

    /// The value inside.
    fn deref(&self) -> (r: &T)
        ensures
            *r == self.inner,
    {
        &self.inner
    }
}

/// Values that can be tagged with a location.
pub trait WithLocation: Sized {
    fn with_location(self, loc: Location) -> (r: Located<Self>)
        ensures
            r.inner == self,
            r.loc == loc,
    ;
}

impl WithLocation for String {
    fn with_location(self, loc: Location) -> (r: Located<Self>) {
        Located::with_location(self, loc)
    }
}

} // verus!
