//! Text as characters: splitting at a separator and reading decimal numbers.

use vstd::prelude::*;
use vstd::string::StrSliceExecFns;
use vstd::string::StringExecFns;

verus! {

/// The place of the first separator in the text, or the length of the text where it
/// holds none.
pub open spec fn find(text: Seq<char>, sep: char) -> int
    decreases text.len(),
{
    if text.len() == 0 || text[0] == sep {
        0
    } else {
        1 + find(text.drop_first(), sep)
    }
}

/// The pieces between the separators of the text: one more than there are
/// separators, and each without a separator.
pub open spec fn split(text: Seq<char>, sep: char) -> Seq<Seq<char>>
    decreases text.len(),
{
    let i = find(text, sep);
    if 0 <= i < text.len() {
        seq![text.take(i)] + split(text.skip(i + 1), sep)
    } else {
        seq![text]
    }
}

/// The value of a decimal digit.
pub open spec fn digit(c: char) -> Option<int> {
    if '0' as u32 <= c as u32 <= '9' as u32 {
        Some(c as u32 - '0' as u32)
    } else {
        None
    }
}

/// The value of a text of decimal digits; nothing for the empty text and for a text
/// that holds anything else.
pub open spec fn decimal(text: Seq<char>) -> Option<int>
    decreases text.len(),
{
    if text.len() == 0 {
        None
    } else if text.len() == 1 {
        digit(text[0])
    } else {
        match (decimal(text.drop_last()), digit(text.last())) {
            (Some(value), Some(d)) => Some(10 * value + d),
            _ => None,
        }
    }
}

/// The 32-bit number that a text of decimal digits stands for, if it stands for one.
pub open spec fn number(text: Seq<char>) -> Option<i32> {
    match decimal(text) {
        Some(value) => if value <= i32::MAX {
            Some(value as i32)
        } else {
            None
        },
        None => None,
    }
}

/// Where no separator stands before place `k`, and one stands at `k` or the text ends
/// there, `k` is the place that `find` gives.
pub proof fn lemma_find_is_first(text: Seq<char>, sep: char, k: int)
    requires
        0 <= k <= text.len(),
        forall|j: int| 0 <= j < k ==> text[j] != sep,
        k == text.len() || text[k] == sep,
    ensures
        find(text, sep) == k,
    decreases text.len(),
{
    if k > 0 {
        let rest = text.drop_first();
        assert forall|j: int| 0 <= j < k - 1 implies rest[j] != sep by {
            assert(rest[j] == text[j + 1]);
        }
        lemma_find_is_first(rest, sep, k - 1);
    }
}

/// A text of digits has a value that is not negative, and so has each of its
/// beginnings, with a value that is not higher.
pub proof fn lemma_decimal_grows(text: Seq<char>, i: int)
    requires
        1 <= i <= text.len(),
        decimal(text).is_some(),
    ensures
        decimal(text.take(i)).is_some(),
        0 <= decimal(text.take(i)).unwrap() <= decimal(text).unwrap(),
    decreases text.len(),
{
    if i == text.len() {
        assert(text.take(i) =~= text);
        if text.len() > 1 {
            lemma_decimal_grows(text.drop_last(), i - 1);
        }
    } else {
        assert(text.drop_last().take(i) =~= text.take(i));
        lemma_decimal_grows(text.drop_last(), i);
    }
}

/// The characters of a string, in order.
pub fn chars_of(s: &str) -> (chars: Vec<char>)
    ensures
        chars@ == s@,
{
    let mut chars: Vec<char> = Vec::new();
    for c in it: s.chars()
        invariant
            it.seq() == s@,
            chars@ == it.seq().take(it.index() as int),
    {
        chars.push(c);
        assert(it.seq().take(it.index() + 1) =~= it.seq().take(it.index() as int).push(c));
    }
    assert(s@.take(s@.len() as int) =~= s@);
    chars
}

/// The 32-bit number that a text of decimal digits stands for.
pub fn parse_number(s: &str) -> (r: Option<i32>)
    ensures
        r == number(s@),
{
    let chars = chars_of(s);
    if chars.len() == 0 {
        return None;
    }
    let mut value: i64 = 0;
    let mut i: usize = 0;
    while i < chars.len()
        invariant
            i <= chars.len(),
            chars@ == s@,
            0 <= value <= i32::MAX,
            i > 0 ==> decimal(s@.take(i as int)) == Some(value as int),
            i == 0 ==> value == 0,
        decreases chars.len() - i,
    {
        let c = chars[i];
        let ghost head = s@.take(i + 1);
        proof {
            assert(head.drop_last() =~= s@.take(i as int));
            assert(head.last() == c);
        }
        let code: u32 = c as u32;
        if code < '0' as u32 || code > '9' as u32 {
            proof {
                assert(digit(c).is_none());
                assert(decimal(head).is_none());
                if decimal(s@).is_some() {
                    lemma_decimal_grows(s@, i + 1);
                }
            }
            return None;
        }
        let d: i64 = (code - '0' as u32) as i64;
        value = 10 * value + d;
        if value > i32::MAX as i64 {
            proof {
                if decimal(s@).is_some() {
                    lemma_decimal_grows(s@, i + 1);
                }
            }
            return None;
        }
        i += 1;
    }
    assert(s@.take(i as int) =~= s@);
    Some(value as i32)
}

/// The pieces between the separators of a string.
pub fn pieces<'a>(s: &'a str, sep: char) -> (parts: Vec<&'a str>)
    ensures
        parts@.len() == split(s@, sep).len(),
        forall|k: int| 0 <= k < parts@.len() ==> (#[trigger] parts@[k])@ == split(s@, sep)[k],
{
    let chars = chars_of(s);
    let mut parts: Vec<&'a str> = Vec::new();
    let mut from: usize = 0;
    let mut i: usize = 0;
    let ghost mut done: Seq<Seq<char>> = Seq::empty();
    assert(s@.skip(0) =~= s@);
    assert(done + split(s@, sep) =~= split(s@, sep));
    while i < chars.len()
        invariant
            from <= i <= chars.len(),
            chars@ == s@,
            forall|j: int| from <= j < i ==> s@[j] != sep,
            done.len() == parts@.len(),
            forall|k: int| 0 <= k < parts@.len() ==> (#[trigger] parts@[k])@ == done[k],
            split(s@, sep) == done + split(s@.skip(from as int), sep),
        decreases chars.len() - i,
    {
        if chars[i] == sep {
            let ghost rest = s@.skip(from as int);
            let ghost piece = s@.subrange(from as int, i as int);
            proof {
                assert forall|j: int| 0 <= j < i - from implies rest[j] != sep by {
                    assert(rest[j] == s@[from + j]);
                }
                lemma_find_is_first(rest, sep, i - from);
                assert(rest.take(i - from) =~= piece);
                assert(rest.skip(i - from + 1) =~= s@.skip(i + 1));
                assert(split(rest, sep) == seq![piece] + split(s@.skip(i + 1), sep));
                assert(done + (seq![piece] + split(s@.skip(i + 1), sep)) =~= done.push(piece)
                    + split(s@.skip(i + 1), sep));
                done = done.push(piece);
            }
            parts.push(s.substring_char(from, i));
            from = i + 1;
        }
        i += 1;
    }
    proof {
        let rest = s@.skip(from as int);
        assert forall|j: int| 0 <= j < rest.len() implies rest[j] != sep by {
            assert(rest[j] == s@[from + j]);
        }
        lemma_find_is_first(rest, sep, rest.len() as int);
        assert(split(rest, sep) == seq![rest]);
        assert(rest =~= s@.subrange(from as int, s@.len() as int));
        assert(done + seq![rest] =~= done.push(rest));
    }
    parts.push(s.substring_char(from, chars.len()));
    parts
}

/// The character of a decimal digit.
pub open spec fn digit_char(d: int) -> char {
    if d == 0 {
        '0'
    } else if d == 1 {
        '1'
    } else if d == 2 {
        '2'
    } else if d == 3 {
        '3'
    } else if d == 4 {
        '4'
    } else if d == 5 {
        '5'
    } else if d == 6 {
        '6'
    } else if d == 7 {
        '7'
    } else if d == 8 {
        '8'
    } else {
        '9'
    }
}

/// A number written in decimal digits, without leading zeros.
pub open spec fn digits(n: nat) -> Seq<char>
    decreases n,
{
    if n < 10 {
        seq![digit_char(n as int)]
    } else {
        digits(n / 10).push(digit_char((n % 10) as int))
    }
}

/// A number that is written in digits and read again is the number.
pub proof fn lemma_digits_read_back(n: nat)
    ensures
        digits(n).len() >= 1,
        decimal(digits(n)) == Some(n as int),
    decreases n,
{
    if n >= 10 {
        lemma_digits_read_back(n / 10);
        let text = digits(n);
        assert(text.drop_last() =~= digits(n / 10));
        assert(text.last() == digit_char((n % 10) as int));
    }
}

/// The text of one decimal digit.
fn digit_text(d: u32) -> (text: &'static str)
    requires
        d < 10,
    ensures
        text@ == seq![digit_char(d as int)],
{
    proof {
        reveal_strlit("0");
        reveal_strlit("1");
        reveal_strlit("2");
        reveal_strlit("3");
        reveal_strlit("4");
        reveal_strlit("5");
        reveal_strlit("6");
        reveal_strlit("7");
        reveal_strlit("8");
        reveal_strlit("9");
    }
    let text = if d == 0 {
        "0"
    } else if d == 1 {
        "1"
    } else if d == 2 {
        "2"
    } else if d == 3 {
        "3"
    } else if d == 4 {
        "4"
    } else if d == 5 {
        "5"
    } else if d == 6 {
        "6"
    } else if d == 7 {
        "7"
    } else if d == 8 {
        "8"
    } else {
        "9"
    };
    assert(text@ =~= seq![digit_char(d as int)]);
    text
}

/// A number written in decimal digits.
pub fn number_text(n: u32) -> (text: String)
    ensures
        text@ == digits(n as nat),
    decreases n,
{
    if n < 10 {
        String::from_str(digit_text(n))
    } else {
        let mut text = number_text(n / 10);
        text.append(digit_text(n % 10));
        assert(text@ =~= digits(n as nat));
        text
    }
}

} // verus!
