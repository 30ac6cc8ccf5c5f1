//! Text as sequences of characters, and the small string operations the crate needs.

use vstd::prelude::*;

verus! {

/// The characters of each string of a sequence.
pub open spec fn texts(strings: Seq<String>) -> Seq<Seq<char>> {
    strings.map_values(|s: String| s@)
}

/// Adds a string to a list.
pub(crate) fn push_text(strings: &mut Vec<String>, string: String)
    ensures
        texts(final(strings)@) == texts(old(strings)@).push(string@),
{
    strings.push(string);
    assert(texts(strings@) =~= texts(old(strings)@).push(string@));
}

/// The decimal digit for a number below ten.
pub open spec fn digit(d: nat) -> char {
    (48 + d) as char
}

/// A number in decimal notation, without leading zeros.
pub open spec fn decimal(n: nat) -> Seq<char>
    decreases n,
{
    if n < 10 {
        seq![digit(n)]
    } else {
        decimal(n / 10).push(digit(n % 10))
    }
}

/// Different numbers have different decimal notations.
pub proof fn decimal_is_injective(m: nat, n: nat)
    requires
        decimal(m) == decimal(n),
    ensures
        m == n,
    decreases m,
{
    decimal_len(m);
    decimal_len(n);
    let last = decimal(m).last();
    assert(last == digit(m % 10));
    assert(last == digit(n % 10));
    assert(m % 10 == n % 10);
    if m >= 10 && n >= 10 {
        assert(decimal(m).drop_last() =~= decimal(m / 10));
        assert(decimal(n).drop_last() =~= decimal(n / 10));
        decimal_is_injective(m / 10, n / 10);
    }
}

proof fn decimal_len(n: nat)
    ensures
        n < 10 <==> decimal(n).len() == 1,
        decimal(n).len() >= 1,
    decreases n,
{
    if n >= 10 {
        decimal_len(n / 10);
    }
}

/// The given texts one after the other, with `separator` between two of them.
pub open spec fn joined(parts: Seq<Seq<char>>, separator: Seq<char>) -> Seq<char>
    decreases parts.len(),
{
    if parts.len() == 0 {
        Seq::empty()
    } else if parts.len() == 1 {
        parts.last()
    } else {
        joined(parts.drop_last(), separator) + separator + parts.last()
    }
}

/// Whether `part` occurs in `text` as a run of neighbouring characters.
pub open spec fn occurs_in(part: Seq<char>, text: Seq<char>) -> bool {
    exists|at: int|
        0 <= at <= text.len() - part.len() && #[trigger] text.subrange(at, at + part.len()) == part
}

/// Whether a character has the Unicode property White_Space.
pub open spec fn is_blank(c: char) -> bool {
    ||| '\u{9}' <= c <= '\u{d}'
    ||| c == ' '
    ||| c == '\u{85}'
    ||| c == '\u{a0}'
    ||| c == '\u{1680}'
    ||| '\u{2000}' <= c <= '\u{200a}'
    ||| c == '\u{2028}'
    ||| c == '\u{2029}'
    ||| c == '\u{202f}'
    ||| c == '\u{205f}'
    ||| c == '\u{3000}'
}

/// Whether a character has the Unicode property White_Space.
pub(crate) fn is_blank_char(c: char) -> (result: bool)
    ensures
        result == is_blank(c),
{
    ('\u{9}' <= c && c <= '\u{d}') || c == ' ' || c == '\u{85}' || c == '\u{a0}' || c == '\u{1680}'
        || ('\u{2000}' <= c && c <= '\u{200a}') || c == '\u{2028}' || c == '\u{2029}' || c
        == '\u{202f}' || c == '\u{205f}' || c == '\u{3000}'
}

/// Where the first blank of a text is, from the given place on; its length if there is none.
pub open spec fn next_blank(text: Seq<char>, i: int) -> int
    decreases text.len() - i,
{
    if i >= text.len() {
        text.len() as int
    } else if is_blank(text[i]) {
        i
    } else {
        next_blank(text, i + 1)
    }
}

/// Where the first blank of a text is; its length if there is none.
pub(crate) fn find_blank(text: &str) -> (result: usize)
    ensures
        result == next_blank(text@, 0),
        result <= text@.len(),
{
    let length = text.unicode_len();
    let mut i: usize = 0;
    while i < length
        invariant
            i <= length,
            length == text@.len(),
            next_blank(text@, 0) == next_blank(text@, i as int),
        decreases length - i,
    {
        if is_blank_char(text.get_char(i)) {
            return i;
        }
        i = i + 1;
    }
    length
}

/// A text without the blanks it starts with.
pub open spec fn without_leading_blanks(text: Seq<char>) -> Seq<char>
    decreases text.len(),
{
    if text.len() > 0 && is_blank(text.first()) {
        without_leading_blanks(text.drop_first())
    } else {
        text
    }
}

/// A text without the blanks it ends with.
pub open spec fn without_trailing_blanks(text: Seq<char>) -> Seq<char>
    decreases text.len(),
{
    if text.len() > 0 && is_blank(text.last()) {
        without_trailing_blanks(text.drop_last())
    } else {
        text
    }
}

/// A text without the blanks around it.
pub open spec fn trimmed(text: Seq<char>) -> Seq<char> {
    without_trailing_blanks(without_leading_blanks(text))
}

/// `str::trim` of std: the text without leading and trailing white space, where
/// white space is what has the Unicode property White_Space.
#[verifier::external_body]
pub(crate) fn trim(text: &str) -> (result: &str)
    ensures
        result@ == trimmed(text@),
{
    text.trim()
}

/// `str::contains` of std with a string as the pattern: whether the pattern is a
/// sub-slice of the text.
#[verifier::external_body]
pub(crate) fn contains(text: &str, part: &str) -> (result: bool)
    ensures
        result == occurs_in(part@, text@),
{
    text.contains(part)
}

/// Whether a string holds exactly the characters of a literal.
pub(crate) fn is_text(text: &String, literal: &str) -> (result: bool)
    ensures
        result == (text@ == literal@),
{
    *text == literal.to_owned()
}

fn digit_text(d: u8) -> (result: &'static str)
    requires
        d < 10,
    ensures
        result@ == seq![digit(d as nat)],
{
    proof {
        reveal_strlit("0");
        reveal_strlit("1");
        reveal_strlit("2");
        reveal_strlit("3");
        reveal_strlit("4");
        reveal_strlit("5");
        reveal_strlit("6");
        reveal_strlit("7");
        reveal_strlit("8");
        reveal_strlit("9");
    }
    match d {
        0 => "0",
        1 => "1",
        2 => "2",
        3 => "3",
        4 => "4",
        5 => "5",
        6 => "6",
        7 => "7",
        8 => "8",
        _ => "9",
    }
}

/// A number in decimal notation.
pub fn decimal_text(n: u64) -> (result: String)
    ensures
        result@ == decimal(n as nat),
    decreases n,
{
    let mut result = if n < 10 {
        String::new()
    } else {
        decimal_text(n / 10)
    };
    result.append(digit_text((n % 10) as u8));
    result
}

/// The given strings one after the other, with `separator` between two of them.
pub fn join(parts: &Vec<String>, separator: &str) -> (result: String)
    ensures
        result@ == joined(texts(parts@), separator@),
{
    let mut result = String::new();
    let mut i: usize = 0;
    while i < parts.len()
        invariant
            i <= parts@.len(),
            result@ == joined(texts(parts@).take(i as int), separator@),
        decreases parts@.len() - i,
    {
        if i > 0 {
            result.append(separator);
        }
        result.append(parts[i].as_str());
        proof {
            let before = texts(parts@).take(i as int);
            let after = texts(parts@).take(i + 1);
            assert(after.drop_last() =~= before);
            assert(after.last() == parts@[i as int]@);
            assert(result@ =~= joined(after, separator@));
        }
        i = i + 1;
    }
    assert(texts(parts@).take(i as int) =~= texts(parts@));
    result
}

} // verus!
