//! Characters, whitespace trimming and decimal rendering.
//!
//! Which characters count as whitespace or as alphanumeric is decided by the
//! standard library's Unicode tables. The rules built on those two answers
//! take them as plain flags beside each character, so they say what happens
//! whatever the tables hold.

use vstd::prelude::*;

verus! {

/// What `char::is_whitespace` answers for `c`.
pub uninterp spec fn char_is_whitespace(c: char) -> bool;

/// What `char::is_alphanumeric` answers for `c`.
pub uninterp spec fn char_is_alphanumeric(c: char) -> bool;

/// Calls `char::is_whitespace`. The standard library decides the answer from
/// the Unicode `White_Space` property of `c` alone; the contract only gives
/// that answer its name.
#[verifier::external_body]
fn is_whitespace(c: char) -> (b: bool)
    ensures
        b == char_is_whitespace(c),
{
    c.is_whitespace()
}

/// Calls `char::is_alphanumeric`. The standard library decides the answer from
/// the Unicode alphabetic and numeric properties of `c` alone; the contract
/// only gives that answer its name.
#[verifier::external_body]
fn is_alphanumeric(c: char) -> (b: bool)
    ensures
        b == char_is_alphanumeric(c),
{
    c.is_alphanumeric()
}

/// For each character of `s`, whether it is whitespace.
pub open spec fn blank_flags(s: Seq<char>) -> Seq<bool> {
    Seq::new(s.len(), |i: int| char_is_whitespace(s[i]))
}

/// How many entries at the front of `blank` are set.
pub open spec fn leading_blanks(blank: Seq<bool>) -> nat
    decreases blank.len(),
{
    if blank.len() > 0 && blank[0] {
        1 + leading_blanks(blank.drop_first())
    } else {
        0
    }
}

/// How many entries at the back of `blank` are set.
pub open spec fn trailing_blanks(blank: Seq<bool>) -> nat
    decreases blank.len(),
{
    if blank.len() > 0 && blank.last() {
        1 + trailing_blanks(blank.drop_last())
    } else {
        0
    }
}

/// The half-open index range that is left once the set entries at both ends
/// of `blank` are dropped. Where every entry is set the range is empty and
/// sits at the end.
pub open spec fn trim_range(blank: Seq<bool>) -> (int, int) {
    let start = leading_blanks(blank) as int;
    if start == blank.len() {
        (start, start)
    } else {
        (start, blank.len() - trailing_blanks(blank))
    }
}

/// `s` without its leading and trailing whitespace.
pub open spec fn trimmed(s: Seq<char>) -> Seq<char> {
    let range = trim_range(blank_flags(s));
    s.subrange(range.0, range.1)
}

/// `leading_blanks` is the index of the first clear entry, or the length
/// where there is none.
proof fn lemma_leading_blanks(blank: Seq<bool>, start: int)
    requires
        0 <= start <= blank.len(),
        forall|i: int| 0 <= i < start ==> blank[i],
        start < blank.len() ==> !blank[start],
    ensures
        leading_blanks(blank) == start,
    decreases start,
{
    if start > 0 {
        lemma_leading_blanks(blank.drop_first(), start - 1);
    }
}

/// `trailing_blanks` counts back to the last clear entry, or over the whole
/// sequence where there is none.
proof fn lemma_trailing_blanks(blank: Seq<bool>, end: int)
    requires
        0 <= end <= blank.len(),
        forall|i: int| end <= i < blank.len() ==> blank[i],
        end > 0 ==> !blank[end - 1],
    ensures
        trailing_blanks(blank) == blank.len() - end,
    decreases blank.len() - end,
{
    if end < blank.len() {
        lemma_trailing_blanks(blank.drop_last(), end);
    }
}

/// The entries that `leading_blanks` counts are set, and the one after them,
/// if there is one, is clear.
proof fn lemma_leading_set(blank: Seq<bool>)
    ensures
        leading_blanks(blank) <= blank.len(),
        forall|i: int| 0 <= i < leading_blanks(blank) ==> blank[i],
        leading_blanks(blank) < blank.len() ==> !blank[leading_blanks(blank) as int],
    decreases blank.len(),
{
    if blank.len() > 0 && blank[0] {
        let rest = blank.drop_first();
        lemma_leading_set(rest);
        assert forall|i: int| 0 <= i < leading_blanks(blank) implies blank[i] by {
            if i > 0 {
                assert(rest[i - 1]);
            }
        }
    }
}

/// The entries that `trailing_blanks` counts are set, and the one before
/// them, if there is one, is clear.
proof fn lemma_trailing_set(blank: Seq<bool>)
    ensures
        trailing_blanks(blank) <= blank.len(),
        forall|i: int| blank.len() - trailing_blanks(blank) <= i < blank.len() ==> blank[i],
        trailing_blanks(blank) < blank.len() ==> !blank[blank.len() - trailing_blanks(blank) - 1],
    decreases blank.len(),
{
    if blank.len() > 0 && blank.last() {
        let rest = blank.drop_last();
        lemma_trailing_set(rest);
        assert forall|i: int|
            blank.len() - trailing_blanks(blank) <= i < blank.len() implies blank[i] by {
            if i < blank.len() - 1 {
                assert(rest[i]);
            }
        }
    }
}

/// The range that `trim_range` gives lies inside the sequence, has only set
/// entries outside it, and, unless it is empty, starts and ends on a clear
/// entry.
pub proof fn lemma_trim_range(blank: Seq<bool>)
    ensures
        0 <= trim_range(blank).0 <= trim_range(blank).1 <= blank.len(),
        forall|i: int| 0 <= i < trim_range(blank).0 ==> blank[i],
        forall|i: int| trim_range(blank).1 <= i < blank.len() ==> blank[i],
        trim_range(blank).0 < trim_range(blank).1 ==> !blank[trim_range(blank).0]
            && !blank[trim_range(blank).1 - 1],
        trim_range(blank).0 == trim_range(blank).1 ==> trim_range(blank).0 == blank.len(),
{
    lemma_leading_set(blank);
    lemma_trailing_set(blank);
}

/// A character together with what the standard library says of it.
#[derive(Clone, Copy, Debug, PartialEq, Eq, Structural)]
pub struct Classified {
    pub ch: char,
    /// Whether the character is whitespace.
    pub whitespace: bool,
    /// Whether the character is alphanumeric.
    pub alphanumeric: bool,
}

/// The character `c` with its classes.
pub open spec fn class_of(c: char) -> Classified {
    Classified {
        ch: c,
        whitespace: char_is_whitespace(c),
        alphanumeric: char_is_alphanumeric(c),
    }
}

/// The characters of `s`, each with its classes.
pub open spec fn classified(s: Seq<char>) -> Seq<Classified> {
    s.map_values(|c: char| class_of(c))
}

/// The characters of `text`, without their classes.
pub open spec fn plain(text: Seq<Classified>) -> Seq<char> {
    text.map_values(|c: Classified| c.ch)
}

/// For each character of `text`, whether it is marked as whitespace.
pub open spec fn whitespace_of(text: Seq<Classified>) -> Seq<bool> {
    text.map_values(|c: Classified| c.whitespace)
}

/// Classifying keeps the characters, and marks as whitespace exactly those
/// that are.
pub proof fn lemma_classified(s: Seq<char>)
    ensures
        plain(classified(s)) == s,
        whitespace_of(classified(s)) == blank_flags(s),
{
}

/// Looks up the classes of `c`.
pub fn classify_char(c: char) -> (class: Classified)
    ensures
        class == class_of(c),
{
    Classified { ch: c, whitespace: is_whitespace(c), alphanumeric: is_alphanumeric(c) }
}

/// Looks up the classes of every character of `s`.
pub fn classify(s: &str) -> (text: Vec<Classified>)
    ensures
        text@ == classified(s@),
{
    let mut text: Vec<Classified> = Vec::new();
    for c in it: s.chars()
        invariant
            it.seq() == s@,
            text@ == classified(s@.take(it.index())),
    {
        text.push(classify_char(c));
    }
    text
}

/// Finds the part of `text` that is left once the characters marked as
/// whitespace are dropped from both ends.
pub fn trim_bounds(text: &Vec<Classified>) -> (range: (usize, usize))
    ensures
        (range.0 as int, range.1 as int) == trim_range(whitespace_of(text@)),
        range.0 <= range.1 <= text.len(),
{
    let n = text.len();
    let mut start: usize = 0;
    while start < n && text[start].whitespace
        invariant
            start <= n,
            n == text.len(),
            forall|i: int| 0 <= i < start ==> text[i].whitespace,
        decreases n - start,
    {
        start += 1;
    }
    let mut end: usize = n;
    while end > start && text[end - 1].whitespace
        invariant
            start <= end <= n,
            n == text.len(),
            forall|i: int| end <= i < n ==> text[i].whitespace,
        decreases end,
    {
        end -= 1;
    }
    proof {
        let blank = whitespace_of(text@);
        assert forall|i: int| 0 <= i < blank.len() implies blank[i] == text[i].whitespace by {}
        lemma_leading_blanks(blank, start as int);
        if start < n {
            lemma_trailing_blanks(blank, end as int);
        }
    }
    (start, end)
}

/// Removes leading and trailing whitespace from `s`.
pub fn trim(s: &str) -> (t: String)
    ensures
        t@ == trimmed(s@),
{
    let text = classify(s);
    proof {
        lemma_classified(s@);
    }
    let range = trim_bounds(&text);
    String::from_str(s.substring_char(range.0, range.1))
}

/// Whether `a` and `b` hold the same characters.
pub fn same_text(a: &str, b: &str) -> (same: bool)
    ensures
        same == (a@ == b@),
{
    String::from_str(a) == String::from_str(b)
}

/// The texts of `lines`, in order.
pub open spec fn texts(lines: Seq<String>) -> Seq<Seq<char>> {
    lines.map_values(|l: String| l@)
}

/// Whether one of `lines` holds exactly the characters of `text`.
pub fn contains_text(lines: &Vec<String>, text: &str) -> (found: bool)
    ensures
        found == texts(lines@).contains(text@),
{
    let mut i: usize = 0;
    while i < lines.len()
        invariant
            i <= lines.len(),
            forall|j: int| 0 <= j < i ==> texts(lines@)[j] != text@,
        decreases lines.len() - i,
    {
        if same_text(lines[i].as_str(), text) {
            assert(texts(lines@)[i as int] == text@);
            return true;
        }
        i += 1;
    }
    false
}

/// The character that stands for the digit `d`.
pub open spec fn digit_char(d: int) -> char {
    if d == 0 {
        '0'
    } else if d == 1 {
        '1'
    } else if d == 2 {
        '2'
    } else if d == 3 {
        '3'
    } else if d == 4 {
        '4'
    } else if d == 5 {
        '5'
    } else if d == 6 {
        '6'
    } else if d == 7 {
        '7'
    } else if d == 8 {
        '8'
    } else {
        '9'
    }
}

/// The decimal digits of `n`, most significant first, without leading zeros.
pub open spec fn decimal(n: nat) -> Seq<char>
    decreases n,
{
    if n < 10 {
        seq![digit_char(n as int)]
    } else {
        decimal(n / 10).push(digit_char((n % 10) as int))
    }
}

/// The digit `d` as text.
fn digit_str(d: usize) -> (s: &'static str)
    requires
        d < 10,
    ensures
        s@ == seq![digit_char(d as int)],
{
    proof {
        reveal_strlit("0");
        reveal_strlit("1");
        reveal_strlit("2");
        reveal_strlit("3");
        reveal_strlit("4");
        reveal_strlit("5");
        reveal_strlit("6");
        reveal_strlit("7");
        reveal_strlit("8");
        reveal_strlit("9");
    }
    if d == 0 {
        "0"
    } else if d == 1 {
        "1"
    } else if d == 2 {
        "2"
    } else if d == 3 {
        "3"
    } else if d == 4 {
        "4"
    } else if d == 5 {
        "5"
    } else if d == 6 {
        "6"
    } else if d == 7 {
        "7"
    } else if d == 8 {
        "8"
    } else {
        "9"
    }
}

/// Appends the decimal digits of `n` to `out`.
pub fn push_decimal(out: &mut String, n: usize)
    ensures
        final(out)@ == old(out)@ + decimal(n as nat),
    decreases n,
{
    if n >= 10 {
        push_decimal(out, n / 10);
    }
    out.append(digit_str(n % 10));
}

} // verus!
