//! Character-level helpers: separator search and decimal numbers.

use vstd::prelude::*;
use vstd::std_specs::iter::IteratorSpec;

verus! {

broadcast use vstd::string::group_string_axioms;

/// Index of the first occurrence of `c` in `s` at or after `from`, if any.
pub open spec fn position_from(s: Seq<char>, c: char, from: int) -> Option<int>
    decreases s.len() - from,
{
    if from < 0 || from >= s.len() {
        None
    } else if s[from] == c {
        Some(from)
    } else {
        position_from(s, c, from + 1)
    }
}

/// `position_from` returns the least matching index, and `None` exactly when
/// no index at or after `from` matches.
pub proof fn lemma_position_from(s: Seq<char>, c: char, from: int)
    requires
        0 <= from,
    ensures
        match position_from(s, c, from) {
            Some(i) => from <= i < s.len() && s[i] == c && forall|j: int|
                from <= j < i ==> s[j] != c,
            None => forall|j: int| from <= j < s.len() ==> s[j] != c,
        },
    decreases s.len() - from,
{
    if from < s.len() && s[from] != c {
        lemma_position_from(s, c, from + 1);
    }
}

/// Finds the first `target` in `text` at or after character position `from`.
pub fn find_char(text: &str, target: char, from: usize) -> (found: Option<usize>)
    ensures
        match found {
            Some(i) => position_from(text@, target, from as int) == Some(i as int) && from <= i
                < text@.len() && text@[i as int] == target && forall|j: int|
                from <= j < i ==> text@[j] != target,
            None => position_from(text@, target, from as int) is None && forall|j: int|
                from <= j < text@.len() ==> text@[j] != target,
        },
{
    let total: usize = text.unicode_len();
    let mut it = text.chars();
    let mut index: usize = 0;
    loop
        invariant
            total == text@.len(),
            it.obeys_prophetic_iter_laws(),
            index + it.remaining().len() == text@.len(),
            it.remaining() == text@.skip(index as int),
            index > from ==> position_from(text@, target, from as int) == position_from(
                text@,
                target,
                index as int,
            ),
        decreases text@.len() - index,
    {
        let next = it.next();
        match next {
            None => {
                proof {
                    lemma_position_from(text@, target, from as int);
                }
                return None;
            },
            Some(c) => {
                if index >= from && c == target {
                    proof {
                        lemma_position_from(text@, target, from as int);
                    }
                    return Some(index);
                }
                index = index + 1;
            },
        }
    }
}

/// The character that writes the decimal digit `d`.
pub open spec fn digit_char(d: nat) -> char {
    if d == 0 {
        '0'
    } else if d == 1 {
        '1'
    } else if d == 2 {
        '2'
    } else if d == 3 {
        '3'
    } else if d == 4 {
        '4'
    } else if d == 5 {
        '5'
    } else if d == 6 {
        '6'
    } else if d == 7 {
        '7'
    } else if d == 8 {
        '8'
    } else {
        '9'
    }
}

/// Whether `c` is one of the ten ASCII digits.
pub open spec fn is_digit(c: char) -> bool {
    '0' <= c <= '9'
}

/// The number that the digit `c` stands for.
pub open spec fn digit_value(c: char) -> nat {
    (c as int - '0' as int) as nat
}

/// Whether every character of `s` is an ASCII digit.
pub open spec fn all_digits(s: Seq<char>) -> bool {
    forall|i: int| 0 <= i < s.len() ==> is_digit(#[trigger] s[i])
}

/// The number written by the digits `s`, most significant first.
pub open spec fn digits_value(s: Seq<char>) -> nat
    decreases s.len(),
{
    if s.len() == 0 {
        0
    } else {
        digits_value(s.drop_last()) * 10 + digit_value(s.last())
    }
}

/// The number that the text `s` writes in decimal: an optional `+`, then one
/// or more ASCII digits, the whole no larger than `u32::MAX`. `None` for any
/// other text.
pub open spec fn decimal_value(s: Seq<char>) -> Option<u32> {
    let digits = if s.len() > 0 && s[0] == '+' {
        s.skip(1)
    } else {
        s
    };
    if digits.len() > 0 && all_digits(digits) && digits_value(digits) <= u32::MAX {
        Some(digits_value(digits) as u32)
    } else {
        None
    }
}

/// `n` in decimal, without padding.
pub open spec fn decimal(n: nat) -> Seq<char>
    decreases n,
{
    if n < 10 {
        seq![digit_char(n)]
    } else {
        decimal(n / 10).push(digit_char(n % 10))
    }
}

/// The last two decimal digits of `n`.
pub open spec fn two_digits(n: nat) -> Seq<char> {
    seq![digit_char((n / 10) % 10), digit_char(n % 10)]
}

/// `n` in decimal, zero-padded on the left to at least four digits.
pub open spec fn padded4(n: nat) -> Seq<char> {
    if n < 10 {
        seq!['0', '0', '0'] + decimal(n)
    } else if n < 100 {
        seq!['0', '0'] + decimal(n)
    } else if n < 1000 {
        seq!['0'] + decimal(n)
    } else {
        decimal(n)
    }
}

/// A longer run of digits never writes a smaller number than its prefix.
pub proof fn lemma_digits_value_monotonic(s: Seq<char>, k: int)
    requires
        0 <= k <= s.len(),
    ensures
        digits_value(s.take(k)) <= digits_value(s),
    decreases s.len(),
{
    if k == s.len() {
        assert(s.take(k) =~= s);
    } else {
        lemma_digits_value_monotonic(s.drop_last(), k);
        assert(s.drop_last().take(k) =~= s.take(k));
    }
}

/// Reads a decimal number: an optional `+`, then one or more ASCII digits.
/// `None` for any other text and for a number above `u32::MAX`.
pub fn parse_decimal(text: &str) -> (value: Option<u32>)
    ensures
        value == decimal_value(text@),
{
    let total: usize = text.unicode_len();
    let mut it = text.chars();
    let mut index: usize = 0;
    let mut value: u64 = 0;
    let mut seen: usize = 0;
    let ghost offset: int = if text@.len() > 0 && text@[0] == '+' {
        1
    } else {
        0
    };
    let ghost digits = text@.skip(offset);
    loop
        invariant
            total == text@.len(),
            it.obeys_prophetic_iter_laws(),
            index + it.remaining().len() == total,
            it.remaining() == text@.skip(index as int),
            offset == if text@.len() > 0 && text@[0] == '+' {
                1int
            } else {
                0int
            },
            digits == text@.skip(offset),
            index == 0 ==> seen == 0 && value == 0,
            index > 0 ==> seen == index - offset,
            index > 0 ==> all_digits(digits.take(seen as int)),
            index > 0 ==> value == digits_value(digits.take(seen as int)),
            value <= u32::MAX,
        decreases total - index,
    {
        let next = it.next();
        match next {
            None => {
                proof {
                    assert(text@.skip(0) =~= text@);
                    if index > 0 {
                        assert(digits.take(seen as int) =~= digits);
                    } else {
                        assert(digits.len() == 0);
                    }
                }
                if seen == 0 {
                    return None;
                }
                return Some(value as u32);
            },
            Some(c) => {
                assert(c == text@[index as int]);
                if index == 0 && c == '+' {
                    assert(digits.take(0) =~= Seq::<char>::empty());
                } else if '0' <= c && c <= '9' {
                    let digit: u64 = (c as u32 - '0' as u32) as u64;
                    proof {
                        assert(c == digits[seen as int]);
                        assert(digits.take(seen + 1).drop_last() =~= digits.take(seen as int));
                        assert(digits.take(seen + 1).last() == c);
                        assert(digit == digit_value(c));
                    }
                    value = value * 10 + digit;
                    seen = seen + 1;
                    assert(value == digits_value(digits.take(seen as int)));
                    if value > 0xffff_ffff {
                        proof {
                            assert(text@.skip(0) =~= text@);
                            lemma_digits_value_monotonic(digits, seen as int);
                        }
                        return None;
                    }
                } else {
                    proof {
                        assert(text@.skip(0) =~= text@);
                        assert(!is_digit(digits[seen as int]));
                    }
                    return None;
                }
                index = index + 1;
            },
        }
    }
}

/// The one-character text of the decimal digit `d`.
fn digit_text(d: u32) -> (text: &'static str)
    requires
        d < 10,
    ensures
        text@ == seq![digit_char(d as nat)],
{
    proof {
        reveal_strlit("0");
        reveal_strlit("1");
        reveal_strlit("2");
        reveal_strlit("3");
        reveal_strlit("4");
        reveal_strlit("5");
        reveal_strlit("6");
        reveal_strlit("7");
        reveal_strlit("8");
        reveal_strlit("9");
    }
    let text = if d == 0 {
        "0"
    } else if d == 1 {
        "1"
    } else if d == 2 {
        "2"
    } else if d == 3 {
        "3"
    } else if d == 4 {
        "4"
    } else if d == 5 {
        "5"
    } else if d == 6 {
        "6"
    } else if d == 7 {
        "7"
    } else if d == 8 {
        "8"
    } else {
        "9"
    };
    assert(text@ =~= seq![digit_char(d as nat)]);
    text
}

/// Appends `n` in decimal to `out`.
pub fn push_decimal(out: &mut String, n: u32)
    ensures
        final(out)@ == old(out)@ + decimal(n as nat),
    decreases n,
{
    if n >= 10 {
        push_decimal(out, n / 10);
    }
    out.append(digit_text(n % 10));
    proof {
        if n >= 10 {
            assert(old(out)@ + decimal((n / 10) as nat) + seq![digit_char((n % 10) as nat)] =~= old(
                out,
            )@ + decimal(n as nat));
        }
    }
}

/// `n` in decimal, without padding.
pub fn decimal_text(n: u32) -> (text: String)
    ensures
        text@ == decimal(n as nat),
{
    let mut text = String::new();
    push_decimal(&mut text, n);
    assert(Seq::<char>::empty() + decimal(n as nat) =~= decimal(n as nat));
    text
}

/// `n` in decimal, with a minus sign in front of a negative number.
pub open spec fn signed_decimal(n: int) -> Seq<char> {
    if n < 0 {
        seq!['-'] + decimal((-n) as nat)
    } else {
        decimal(n as nat)
    }
}

/// `n` in decimal, with a minus sign in front of a negative number.
pub fn signed_decimal_text(n: i32) -> (text: String)
    ensures
        text@ == signed_decimal(n as int),
{
    let mut text = String::new();
    if n < 0 {
        proof {
            reveal_strlit("-");
        }
        text.append("-");
        let magnitude: u32 = (-(n as i64)) as u32;
        push_decimal(&mut text, magnitude);
        assert(text@ =~= seq!['-'] + decimal((-n) as nat));
    } else {
        push_decimal(&mut text, n as u32);
        assert(text@ =~= decimal(n as nat));
    }
    text
}

} // verus!
