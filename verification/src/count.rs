//! The argument of a request to summarize: how many messages to take.

use vstd::prelude::*;

verus! {

/// How many messages are summarized where the request names no number.
pub const DEFAULT_COUNT: usize = 100;

/// Whether `c` is white space: a character with the Unicode property
/// `White_Space`.
pub open spec fn is_whitespace(c: char) -> bool {
    ||| '\u{9}' <= c <= '\u{D}'
    ||| c == ' '
    ||| c == '\u{85}'
    ||| c == '\u{A0}'
    ||| c == '\u{1680}'
    ||| '\u{2000}' <= c <= '\u{200A}'
    ||| c == '\u{2028}'
    ||| c == '\u{2029}'
    ||| c == '\u{202F}'
    ||| c == '\u{205F}'
    ||| c == '\u{3000}'
}

/// `text` without the white space it begins with.
pub open spec fn trim_start(text: Seq<char>) -> Seq<char>
    decreases text.len(),
{
    if text.len() > 0 && is_whitespace(text.first()) {
        trim_start(text.drop_first())
    } else {
        text
    }
}

/// `text` without the white space it ends with.
pub open spec fn trim_end(text: Seq<char>) -> Seq<char>
    decreases text.len(),
{
    if text.len() > 0 && is_whitespace(text.last()) {
        trim_end(text.drop_last())
    } else {
        text
    }
}

/// `text` without the white space around it.
pub open spec fn trimmed(text: Seq<char>) -> Seq<char> {
    trim_end(trim_start(text))
}

/// Whether `c` is one of the digits `0` to `9`.
pub open spec fn is_digit(c: char) -> bool {
    '0' <= c <= '9'
}

/// Whether `text` is made of digits alone.
pub open spec fn all_digits(text: Seq<char>) -> bool {
    forall|i: int| 0 <= i < text.len() ==> is_digit(#[trigger] text[i])
}

/// The value of a digit; zero for any other character.
pub open spec fn digit_value(c: char) -> nat {
    if is_digit(c) {
        (c as int - '0' as int) as nat
    } else {
        0
    }
}

/// The number that a row of digits stands for in decimal.
pub open spec fn digits_value(digits: Seq<char>) -> nat
    decreases digits.len(),
{
    if digits.len() == 0 {
        0
    } else {
        digits_value(digits.drop_last()) * 10 + digit_value(digits.last())
    }
}

/// The number that `word` stands for: one or more digits, with at most one
/// plus sign before them. Anything else is no number.
pub open spec fn unsigned_number(word: Seq<char>) -> Option<nat> {
    let digits = if word.len() > 0 && word.first() == '+' {
        word.drop_first()
    } else {
        word
    };
    if digits.len() > 0 && all_digits(digits) {
        Some(digits_value(digits))
    } else {
        None
    }
}

/// The number of messages that a request asks for, given the text after the
/// command and the capacity of the store: [`DEFAULT_COUNT`] where the text is
/// blank, the number it holds where that is at least 1 and at most the
/// capacity, and `None` for anything else.
pub open spec fn requested_count(argument: Seq<char>, capacity: nat) -> Option<nat> {
    let word = trimmed(argument);
    if word.len() == 0 {
        Some(DEFAULT_COUNT as nat)
    } else {
        match unsigned_number(word) {
            Some(n) => if 1 <= n <= capacity {
                Some(n)
            } else {
                None
            },
            None => None,
        }
    }
}

/// Whether `c` is white space, as the standard library's
/// `char::is_whitespace` has it.
pub fn is_whitespace_char(c: char) -> (yes: bool)
    ensures
        yes == is_whitespace(c),
{
    ('\u{9}' <= c && c <= '\u{D}') || c == ' ' || c == '\u{85}' || c == '\u{A0}' || c
        == '\u{1680}' || ('\u{2000}' <= c && c <= '\u{200A}') || c == '\u{2028}' || c
        == '\u{2029}' || c == '\u{202F}' || c == '\u{205F}' || c == '\u{3000}'
}

fn collect_chars(text: &str) -> (chars: Vec<char>)
    ensures
        chars@ == text@,
{
    let mut chars: Vec<char> = Vec::new();
    for c in it: text.chars()
        invariant
            it.seq() == text@,
            chars@ == text@.take(it.index()),
    {
        chars.push(c);
        assert(chars@ =~= text@.take(it.index() + 1));
    }
    assert(text@.take(text@.len() as int) =~= text@);
    chars
}

/// Where the text without the white space around it begins and ends.
fn trim_bounds(chars: &Vec<char>) -> (bounds: (usize, usize))
    ensures
        bounds.0 <= bounds.1 <= chars@.len(),
        trimmed(chars@) == chars@.subrange(bounds.0 as int, bounds.1 as int),
{
    let mut start: usize = 0;
    assert(chars@.skip(0) =~= chars@);
    while start < chars.len() && is_whitespace_char(chars[start])
        invariant
            start <= chars@.len(),
            trim_start(chars@) == trim_start(chars@.skip(start as int)),
        decreases chars@.len() - start,
    {
        assert(chars@.skip(start as int).drop_first() =~= chars@.skip(start + 1));
        start = start + 1;
    }
    let ghost rest = chars@.skip(start as int);
    assert(trim_start(chars@) == rest);
    let mut end: usize = chars.len();
    assert(rest.take(end - start) =~= rest);
    while end > start && is_whitespace_char(chars[end - 1])
        invariant
            start <= end <= chars@.len(),
            rest == chars@.skip(start as int),
            trim_end(rest) == trim_end(rest.take(end - start)),
        decreases end,
    {
        assert(rest.take(end - start).drop_last() =~= rest.take(end - start - 1));
        end = end - 1;
    }
    assert(rest.take(end - start) =~= chars@.subrange(start as int, end as int));
    (start, end)
}

/// Digit values only grow as digits are added at the end.
proof fn lemma_digits_value_grows(digits: Seq<char>, shorter: int)
    requires
        0 <= shorter <= digits.len(),
    ensures
        digits_value(digits.take(shorter)) <= digits_value(digits),
    decreases digits.len(),
{
    if shorter == digits.len() {
        assert(digits.take(shorter) =~= digits);
    } else {
        assert(digits.drop_last().take(shorter) =~= digits.take(shorter));
        lemma_digits_value_grows(digits.drop_last(), shorter);
    }
}

/// Reads the number of messages that a request asks for from the text after
/// the command. A blank text asks for [`DEFAULT_COUNT`]. Otherwise the text,
/// with the white space around it set aside, has to be a number in decimal
/// that is at least 1 and at most `capacity`; if it is not, the answer is
/// `None`.
pub fn parse_count(argument: &str, capacity: usize) -> (count: Option<usize>)
    ensures
        count matches Some(n) ==> requested_count(argument@, capacity as nat) == Some(n as nat),
        count is None ==> requested_count(argument@, capacity as nat) is None,
{
    let chars = collect_chars(argument);
    let (start, end) = trim_bounds(&chars);
    if start == end {
        return Some(DEFAULT_COUNT);
    }
    let ghost word = chars@.subrange(start as int, end as int);
    let first: usize = if chars[start] == '+' {
        start + 1
    } else {
        start
    };
    let ghost digits = chars@.subrange(first as int, end as int);
    assert(digits =~= if word.len() > 0 && word.first() == '+' {
        word.drop_first()
    } else {
        word
    });
    if first == end {
        return None;
    }
    let mut value: u128 = 0;
    let mut i: usize = first;
    assert(digits.take(0) =~= Seq::<char>::empty());
    while i < end
        invariant
            first <= i <= end <= chars@.len(),
            first < end,
            digits == chars@.subrange(first as int, end as int),
            trimmed(argument@) == word,
            word.len() > 0,
            digits == if word.first() == '+' {
                word.drop_first()
            } else {
                word
            },
            all_digits(digits.take(i - first)),
            value == digits_value(digits.take(i - first)),
            value <= capacity,
        decreases end - i,
    {
        let c = chars[i];
        assert(c == digits[i - first]);
        if !('0' <= c && c <= '9') {
            return None;
        }
        let ghost longer = digits.take(i - first + 1);
        assert(longer.drop_last() =~= digits.take(i - first));
        assert(all_digits(longer)) by {
            assert forall|j: int| 0 <= j < longer.len() implies is_digit(#[trigger] longer[j]) by {
                if j < i - first {
                    assert(longer[j] == digits.take(i - first)[j]);
                }
            }
        }
        value = value * 10 + (c as u32 - '0' as u32) as u128;
        if value > capacity as u128 {
            proof {
                lemma_digits_value_grows(digits, i - first + 1);
            }
            return None;
        }
        i = i + 1;
    }
    assert(digits.take(end - first) =~= digits);
    if value == 0 {
        None
    } else {
        Some(value as usize)
    }
}

} // verus!
