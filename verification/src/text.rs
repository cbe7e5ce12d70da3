//! Small helpers for working with text as sequences of characters.

use vstd::prelude::*;
use vstd::string::*;

verus! {

/// Collects the characters of a string slice into a vector.
pub fn chars_of(s: &str) -> (v: Vec<char>)
    ensures
        v@ == s@,
{
    let mut v: Vec<char> = Vec::new();
    for c in it: s.chars()
        invariant
            v@ == it.seq().take(it.index()),
    {
        v.push(c);
    }
    v
}

/// Whether the characters of `chars` from `from` up to `to` spell `text`.
pub fn range_is(chars: &Vec<char>, from: usize, to: usize, text: &str) -> (r: bool)
    requires
        from <= to <= chars@.len(),
    ensures
        r == (chars@.subrange(from as int, to as int) == text@),
{
    let n = text.unicode_len();
    if to - from != n {
        return false;
    }
    let mut i: usize = 0;
    while i < n
        invariant
            i <= n,
            n == text@.len(),
            from + n == to,
            to <= chars@.len(),
            forall|j: int| 0 <= j < i ==> chars@[from + j] == text@[j],
        decreases n - i,
    {
        if chars[from + i] != text.get_char(i) {
            return false;
        }
        i += 1;
    }
    assert(chars@.subrange(from as int, to as int) =~= text@);
    true
}

/// The character that writes a digit.
pub open spec fn digit_char(d: nat) -> char {
    if d == 0 {
        '0'
    } else if d == 1 {
        '1'
    } else if d == 2 {
        '2'
    } else if d == 3 {
        '3'
    } else if d == 4 {
        '4'
    } else if d == 5 {
        '5'
    } else if d == 6 {
        '6'
    } else if d == 7 {
        '7'
    } else if d == 8 {
        '8'
    } else {
        '9'
    }
}

/// The digit that a character writes, if it is a decimal digit.
pub open spec fn digit_value(c: char) -> Option<nat> {
    if c == '0' {
        Some(0)
    } else if c == '1' {
        Some(1)
    } else if c == '2' {
        Some(2)
    } else if c == '3' {
        Some(3)
    } else if c == '4' {
        Some(4)
    } else if c == '5' {
        Some(5)
    } else if c == '6' {
        Some(6)
    } else if c == '7' {
        Some(7)
    } else if c == '8' {
        Some(8)
    } else if c == '9' {
        Some(9)
    } else {
        None
    }
}

/// The decimal numeral of a natural number, without leading zeros.
pub open spec fn decimal(n: nat) -> Seq<char>
    decreases n,
{
    if n < 10 {
        seq![digit_char(n)]
    } else {
        decimal(n / 10).push(digit_char(n % 10))
    }
}

/// The number that a text writes in decimal, if the text is a nonempty
/// run of decimal digits.
pub open spec fn decimal_value(s: Seq<char>) -> Option<nat>
    decreases s.len(),
{
    if s.len() == 0 {
        None
    } else {
        match digit_value(s.last()) {
            None => None,
            Some(d) => if s.len() == 1 {
                Some(d)
            } else {
                match decimal_value(s.drop_last()) {
                    None => None,
                    Some(v) => Some(v * 10 + d),
                }
            },
        }
    }
}

/// Reading a decimal numeral gives back the number that was written.
pub proof fn lemma_decimal_round_trip(n: nat)
    ensures
        decimal_value(decimal(n)) == Some(n),
    decreases n,
{
    if n >= 10 {
        lemma_decimal_round_trip(n / 10);
        assert(decimal(n).drop_last() =~= decimal(n / 10));
        assert(decimal(n / 10).len() >= 1);
    }
}

/// The one-character text of a digit.
pub fn digit_text(d: u8) -> (r: &'static str)
    requires
        d < 10,
    ensures
        r@ == seq![digit_char(d as nat)],
{
    proof {
        reveal_strlit("0");
        reveal_strlit("1");
        reveal_strlit("2");
        reveal_strlit("3");
        reveal_strlit("4");
        reveal_strlit("5");
        reveal_strlit("6");
        reveal_strlit("7");
        reveal_strlit("8");
        reveal_strlit("9");
    }
    let r = if d == 0 {
        "0"
    } else if d == 1 {
        "1"
    } else if d == 2 {
        "2"
    } else if d == 3 {
        "3"
    } else if d == 4 {
        "4"
    } else if d == 5 {
        "5"
    } else if d == 6 {
        "6"
    } else if d == 7 {
        "7"
    } else if d == 8 {
        "8"
    } else {
        "9"
    };
    r
}

/// Writes a number in decimal.
pub fn decimal_string(n: u128) -> (r: String)
    ensures
        r@ == decimal(n as nat),
    decreases n,
{
    if n < 10 {
        digit_text(n as u8).to_owned()
    } else {
        let mut r = decimal_string(n / 10);
        r.append(digit_text((n % 10) as u8));
        r
    }
}

/// Reads one decimal digit.
pub fn digit_of(c: char) -> (r: Option<u8>)
    ensures
        match digit_value(c) {
            Some(d) => r == Some(d as u8) && d < 10,
            None => r is None,
        },
{
    if c == '0' {
        Some(0)
    } else if c == '1' {
        Some(1)
    } else if c == '2' {
        Some(2)
    } else if c == '3' {
        Some(3)
    } else if c == '4' {
        Some(4)
    } else if c == '5' {
        Some(5)
    } else if c == '6' {
        Some(6)
    } else if c == '7' {
        Some(7)
    } else if c == '8' {
        Some(8)
    } else if c == '9' {
        Some(9)
    } else {
        None
    }
}

/// A text that has a decimal value is made of digits throughout, and each
/// of its nonempty prefixes has a value that is no larger.
pub proof fn lemma_decimal_value_prefix(s: Seq<char>, k: int)
    requires
        1 <= k <= s.len(),
        decimal_value(s) is Some,
    ensures
        decimal_value(s.take(k)) is Some,
        decimal_value(s.take(k))->Some_0 <= decimal_value(s)->Some_0,
    decreases s.len(),
{
    if k == s.len() {
        assert(s.take(k) =~= s);
    } else {
        assert(s.drop_last().take(k) =~= s.take(k));
        lemma_decimal_value_prefix(s.drop_last(), k);
    }
}

/// A text with a character that is no digit has no decimal value.
pub proof fn lemma_decimal_value_digits(s: Seq<char>, i: int)
    requires
        0 <= i < s.len(),
        digit_value(s[i]) is None,
    ensures
        decimal_value(s) is None,
    decreases s.len(),
{
    if i < s.len() - 1 {
        lemma_decimal_value_digits(s.drop_last(), i);
    }
}

/// Reads a decimal number that fits a signed 64-bit integer.
pub fn parse_decimal(text: &str) -> (r: Option<i64>)
    ensures
        r == match decimal_value(text@) {
            Some(v) => if v <= i64::MAX {
                Some(v as i64)
            } else {
                None
            },
            None => None::<i64>,
        },
{
    let chars = chars_of(text);
    let n = chars.len();
    if n == 0 {
        return None;
    }
    let mut value: i64 = 0;
    let mut i: usize = 0;
    while i < n
        invariant
            i <= n,
            n == chars@.len(),
            chars@ == text@,
            0 <= value,
            i == 0 ==> value == 0,
            i > 0 ==> decimal_value(chars@.take(i as int)) == Some(value as nat),
        decreases n - i,
    {
        let d = match digit_of(chars[i]) {
            Some(d) => d,
            None => {
                proof {
                    lemma_decimal_value_digits(chars@, i as int);
                }
                return None;
            },
        };
        proof {
            assert(chars@.take(i + 1).drop_last() =~= chars@.take(i as int));
        }
        if value > (i64::MAX - d as i64) / 10 {
            proof {
                if decimal_value(chars@) is Some {
                    lemma_decimal_value_prefix(chars@, i + 1);
                }
            }
            return None;
        }
        value = value * 10 + d as i64;
        i += 1;
    }
    assert(chars@.take(n as int) =~= chars@);
    Some(value)
}

} // verus!
