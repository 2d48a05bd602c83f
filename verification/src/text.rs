//! Small string utilities over `char` sequences, with exact contracts.

use vstd::prelude::*;

verus! {

/// `String::push` of the standard library: appends exactly one character to
/// the end of the string and leaves the rest as it was.
pub assume_specification[ String::push ](s: &mut String, ch: char)
    ensures
        final(s)@ == old(s)@.push(ch),
;

/// The characters of `s`, in order.
pub fn to_chars(s: &str) -> (v: Vec<char>)
    ensures
        v@ == s@,
{
    let mut v: Vec<char> = Vec::new();
    for c in it: s.chars()
        invariant
            it.seq() == s@,
            v@ == it.seq().take(it.index() as int),
    {
        v.push(c);
    }
    v
}

/// The string made of `chars[start..end]`.
pub fn from_chars(chars: &Vec<char>, start: usize, end: usize) -> (s: String)
    requires
        start <= end <= chars@.len(),
    ensures
        s@ == chars@.subrange(start as int, end as int),
{
    let mut s = String::new();
    let mut i: usize = start;
    while i < end
        invariant
            start <= i <= end <= chars@.len(),
            s@ == chars@.subrange(start as int, i as int),
        decreases end - i,
    {
        s.push(chars[i]);
        i += 1;
        assert(chars@.subrange(start as int, i as int) == chars@.subrange(
            start as int,
            i - 1,
        ).push(chars@[i - 1]));
    }
    s
}

/// Whether two strings hold the same characters.
pub fn str_eq(a: &str, b: &str) -> (r: bool)
    ensures
        r == (a@ == b@),
{
    let x = to_chars(a);
    let y = to_chars(b);
    if x.len() != y.len() {
        return false;
    }
    let mut i: usize = 0;
    while i < x.len()
        invariant
            i <= x.len(),
            x.len() == y.len(),
            x@ == a@,
            y@ == b@,
            forall|j: int| 0 <= j < i ==> x@[j] == y@[j],
        decreases x.len() - i,
    {
        if x[i] != y[i] {
            return false;
        }
        i += 1;
    }
    assert(x@ =~= y@);
    true
}

/// The index of the first of `names` that is `name`.
pub open spec fn index_of_name(names: Seq<Seq<char>>, name: Seq<char>) -> Option<int>
    decreases names.len(),
{
    if names.len() == 0 {
        None
    } else {
        match index_of_name(names.drop_last(), name) {
            Some(i) => Some(i),
            None => if names.last() == name {
                Some(names.len() - 1)
            } else {
                None
            },
        }
    }
}

/// What the index of a name says of the names.
pub proof fn lemma_index_of_name(names: Seq<Seq<char>>, name: Seq<char>)
    ensures
        match index_of_name(names, name) {
            Some(i) => 0 <= i < names.len() && names[i] == name && forall|j: int|
                0 <= j < i ==> #[trigger] names[j] != name,
            None => forall|j: int| 0 <= j < names.len() ==> #[trigger] names[j] != name,
        },
    decreases names.len(),
{
    if names.len() > 0 {
        let init = names.drop_last();
        lemma_index_of_name(init, name);
        match index_of_name(init, name) {
            Some(i) => {
                assert(init[i] == names[i]);
                assert forall|j: int| 0 <= j < i implies #[trigger] names[j] != name by {
                    assert(init[j] == names[j]);
                }
            },
            None => {
                assert forall|j: int| 0 <= j < names.len() - 1 implies #[trigger] names[j]
                    != name by {
                    assert(init[j] == names[j]);
                }
            },
        }
    }
}

/// The first place of a name is its index.
pub proof fn lemma_first_name(names: Seq<Seq<char>>, name: Seq<char>, i: int)
    requires
        0 <= i <= names.len(),
        forall|j: int| 0 <= j < i ==> #[trigger] names[j] != name,
        i < names.len() ==> names[i] == name,
    ensures
        index_of_name(names, name) == (if i < names.len() {
            Some(i)
        } else {
            None
        }),
{
    lemma_index_of_name(names, name);
}

/// The character that writes the decimal digit `d`.
pub open spec fn digit_char(d: nat) -> char
    recommends
        d < 10,
{
    (('0' as u8) + d) as char
}

/// The decimal notation of `n`, most significant digit first, without
/// leading zeros (`0` is written "0").
pub open spec fn decimal(n: nat) -> Seq<char>
    decreases n,
{
    if n < 10 {
        seq![digit_char(n)]
    } else {
        decimal(n / 10).push(digit_char(n % 10))
    }
}

/// Appends the decimal notation of `n` to `s`.
pub fn push_decimal(s: &mut String, n: u64)
    ensures
        final(s)@ == old(s)@ + decimal(n as nat),
    decreases n,
{
    if n >= 10 {
        push_decimal(s, n / 10);
    }
    let d: u8 = (n % 10) as u8;
    let ch: char = (48u8 + d) as char;
    assert(ch == digit_char((n % 10) as nat));
    let ghost before = s@;
    s.push(ch);
    assert(before.push(ch) =~= before + seq![ch]);
    if n >= 10 {
        assert(old(s)@ + decimal((n / 10) as nat) + seq![ch] =~= old(s)@ + decimal(n as nat));
    }
}

/// Appends the text of `other` to `s`.
pub fn push_text(s: &mut String, other: &str)
    ensures
        final(s)@ == old(s)@ + other@,
{
    s.append(other);
}

/// Appends `count` copies of `ch` to `s`.
pub fn push_repeated(s: &mut String, ch: char, count: usize)
    ensures
        final(s)@ == old(s)@ + Seq::new(count as nat, |i: int| ch),
{
    let mut i: usize = 0;
    while i < count
        invariant
            i <= count,
            s@ == old(s)@ + Seq::new(i as nat, |j: int| ch),
        decreases count - i,
    {
        s.push(ch);
        i += 1;
        assert(s@ =~= old(s)@ + Seq::new(i as nat, |j: int| ch));
    }
}

/// The view of an optional text.
pub open spec fn opt_text(s: Option<String>) -> Option<Seq<char>> {
    match s {
        Some(t) => Some(t@),
        None => None,
    }
}

} // verus!
