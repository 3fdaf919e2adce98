//! Hexadecimal numerals.
use vstd::prelude::*;

verus! {

/// The value of a hexadecimal digit, in either case, or `None` for any
/// other character.
pub open spec fn hex_digit(c: char) -> Option<int> {
    if '0' <= c <= '9' {
        Some(c as int - '0' as int)
    } else if 'a' <= c <= 'f' {
        Some(c as int - 'a' as int + 10)
    } else if 'A' <= c <= 'F' {
        Some(c as int - 'A' as int + 10)
    } else {
        None
    }
}

/// The digits of a numeral: the text without its plus sign, if it has one.
pub open spec fn hex_digits(text: Seq<char>) -> Seq<char> {
    if text.len() > 0 && text[0] == '+' {
        text.drop_first()
    } else {
        text
    }
}

/// The number that a sequence of hexadecimal digits stands for, most
/// significant digit first.
pub open spec fn hex_value(digits: Seq<char>) -> int
    decreases digits.len(),
{
    if digits.len() == 0 {
        0
    } else {
        16 * hex_value(digits.drop_last()) + match hex_digit(digits.last()) {
            Some(value) => value,
            None => 0,
        }
    }
}

/// Whether `text` is a hexadecimal numeral of a 16-bit number: an optional
/// plus sign, then one hexadecimal digit or more, with a value of 65535 at
/// most.
pub open spec fn is_hex_word(text: Seq<char>) -> bool {
    let digits = hex_digits(text);
    &&& digits.len() > 0
    &&& forall|i: int| 0 <= i < digits.len() ==> hex_digit(#[trigger] digits[i]) is Some
    &&& hex_value(digits) <= 0xFFFF
}

/// The value of a sequence of digits is not negative, and that of its
/// first `k` digits is no more than that of all.
pub proof fn lemma_hex_prefix(digits: Seq<char>, k: int)
    requires
        0 <= k <= digits.len(),
    ensures
        0 <= hex_value(digits.take(k)) <= hex_value(digits),
    decreases digits.len() - k,
{
    lemma_hex_nonnegative(digits.take(k));
    if k == digits.len() {
        assert(digits.take(k) =~= digits);
    } else {
        lemma_hex_prefix(digits, k + 1);
        assert(digits.take(k + 1).drop_last() =~= digits.take(k));
    }
}

/// The value of a sequence of digits is not negative.
pub proof fn lemma_hex_nonnegative(digits: Seq<char>)
    ensures
        0 <= hex_value(digits),
    decreases digits.len(),
{
    if digits.len() > 0 {
        lemma_hex_nonnegative(digits.drop_last());
    }
}

/// The value of one hexadecimal digit, or `None` for any other character.
pub fn hex_digit_of(c: char) -> (value: Option<u8>)
    ensures
        match value {
            Some(v) => hex_digit(c) == Some(v as int),
            None => hex_digit(c) is None,
        },
{
    let code: u32 = c as u32;
    if 0x30 <= code && code <= 0x39 {
        Some((code - 0x30) as u8)
    } else if 0x61 <= code && code <= 0x66 {
        Some((code - 0x61 + 10) as u8)
    } else if 0x41 <= code && code <= 0x46 {
        Some((code - 0x41 + 10) as u8)
    } else {
        None
    }
}

/// The 16-bit number that the hexadecimal numeral `hex_str` stands for.
pub fn hex_to_int(hex_str: &str) -> (value: u16)
    requires
        is_hex_word(hex_str@),
    ensures
        value == hex_value(hex_digits(hex_str@)),
{
    let len: usize = hex_str.unicode_len();
    let start: usize = if hex_str.get_char(0) == '+' {
        1
    } else {
        0
    };
    let ghost digits = hex_digits(hex_str@);
    let mut value: u32 = 0;
    let mut i: usize = start;
    while i < len
        invariant
            start <= i <= len,
            len == hex_str@.len(),
            digits == hex_digits(hex_str@),
            digits.len() == len - start,
            forall|j: int| 0 <= j < digits.len() ==> digits[j] == hex_str@[j + start],
            is_hex_word(hex_str@),
            value == hex_value(digits.take(i - start)),
            value <= 0xFFFF,
        decreases len - i,
    {
        let digit = hex_digit_of(hex_str.get_char(i));
        proof {
            let k = i - start;
            assert(digits.take(k + 1).drop_last() =~= digits.take(k));
            lemma_hex_prefix(digits, k + 1);
        }
        match digit {
            Some(d) => {
                value = value * 16 + d as u32;
            },
            None => {},
        }
        i += 1;
    }
    assert(digits.take(len - start) =~= digits);
    value as u16
}

} // verus!
