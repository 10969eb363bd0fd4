//! Helpers for text: characters of a string, search for a pattern, decimal numbers.

use vstd::prelude::*;
use vstd::string::StringExecFns;

verus! {

/// The characters of a string.
pub fn chars_of(text: &str) -> (chars: Vec<char>)
    ensures
        chars@ == text@,
{
    let mut chars: Vec<char> = Vec::new();
    for c in iter: text.chars()
        invariant
            iter.seq() == text@,
            chars@ == iter.seq().take(iter.index()),
    {
        chars.push(c);
        assert(chars@ =~= iter.seq().take(iter.index() + 1));
    }
    assert(chars@ =~= text@);
    chars
}

/// Whether `pattern` stands in `text` at position `at`.
pub open spec fn occurs_at(text: Seq<char>, pattern: Seq<char>, at: int) -> bool {
    0 <= at && at + pattern.len() <= text.len() && text.subrange(at, at + pattern.len()) == pattern
}

/// The first position at or after `from` at which `pattern` stands in `text`; the length of
/// `text` if there is none.
pub open spec fn find_from(text: Seq<char>, pattern: Seq<char>, from: int) -> int
    decreases text.len() - from,
{
    if from < 0 || from >= text.len() || from + pattern.len() > text.len() {
        text.len() as int
    } else if occurs_at(text, pattern, from) {
        from
    } else {
        find_from(text, pattern, from + 1)
    }
}

/// Whether `pattern` stands in `text` at position `at`.
pub fn matches_at(text: &[char], pattern: &[char], at: usize) -> (found: bool)
    requires
        at <= text.len(),
    ensures
        found == occurs_at(text@, pattern@, at as int),
{
    if pattern.len() > text.len() - at {
        return false;
    }
    let mut i: usize = 0;
    while i < pattern.len()
        invariant
            i <= pattern.len(),
            at + pattern.len() <= text.len(),
            forall|j: int| 0 <= j < i ==> text@[at + j] == pattern@[j],
        decreases pattern.len() - i,
    {
        if text[at + i] != pattern[i] {
            assert(text@.subrange(at as int, at + pattern@.len())[i as int] != pattern@[i as int]);
            return false;
        }
        i += 1;
    }
    assert(text@.subrange(at as int, at + pattern@.len()) =~= pattern@);
    true
}

/// The first position at or after `from` at which `pattern` stands in `text`; the length of
/// `text` if there is none.
pub fn find(text: &[char], pattern: &[char], from: usize) -> (at: usize)
    requires
        from <= text.len(),
    ensures
        at == find_from(text@, pattern@, from as int),
        from <= at <= text.len(),
        at < text.len() ==> occurs_at(text@, pattern@, at as int),
{
    let mut at = from;
    while at < text.len() && pattern.len() <= text.len() - at
        invariant
            from <= at <= text.len(),
            find_from(text@, pattern@, from as int) == find_from(text@, pattern@, at as int),
        decreases text.len() - at,
    {
        if matches_at(text, pattern, at) {
            return at;
        }
        at += 1;
    }
    text.len()
}

/// The decimal digit for a number below ten.
pub open spec fn digit(d: nat) -> char {
    if d == 0 {
        '0'
    } else if d == 1 {
        '1'
    } else if d == 2 {
        '2'
    } else if d == 3 {
        '3'
    } else if d == 4 {
        '4'
    } else if d == 5 {
        '5'
    } else if d == 6 {
        '6'
    } else if d == 7 {
        '7'
    } else if d == 8 {
        '8'
    } else {
        '9'
    }
}

/// A number in decimal, without leading zeros.
pub open spec fn decimal(n: nat) -> Seq<char>
    decreases n,
{
    if n < 10 {
        seq![digit(n)]
    } else {
        decimal(n / 10).push(digit(n % 10))
    }
}

fn digit_text(d: u64) -> (text: &'static str)
    requires
        d < 10,
    ensures
        text@ == seq![digit(d as nat)],
{
    let text = if d == 0 {
        "0"
    } else if d == 1 {
        "1"
    } else if d == 2 {
        "2"
    } else if d == 3 {
        "3"
    } else if d == 4 {
        "4"
    } else if d == 5 {
        "5"
    } else if d == 6 {
        "6"
    } else if d == 7 {
        "7"
    } else if d == 8 {
        "8"
    } else {
        "9"
    };
    proof {
        reveal_strlit("0");
        reveal_strlit("1");
        reveal_strlit("2");
        reveal_strlit("3");
        reveal_strlit("4");
        reveal_strlit("5");
        reveal_strlit("6");
        reveal_strlit("7");
        reveal_strlit("8");
        reveal_strlit("9");
        assert(text@ =~= seq![digit(d as nat)]);
    }
    text
}

/// Append a number in decimal to a text.
pub fn push_decimal(text: &mut String, n: u64)
    ensures
        final(text)@ == old(text)@ + decimal(n as nat),
    decreases n,
{
    let ghost before = text@;
    if n < 10 {
        text.append(digit_text(n));
    } else {
        push_decimal(text, n / 10);
        text.append(digit_text(n % 10));
        assert(text@ =~= before + decimal(n as nat));
    }
}

} // verus!
