//! Whole numbers as text: writing them in decimal or hexadecimal, and reading
//! them back.

use vstd::prelude::*;

use crate::text::{chars_of, digit, is_digit};

verus! {

// ---------------------------------------------------------------------------
// Writing
// ---------------------------------------------------------------------------

/// The character of a digit below sixteen; letters are lower case.
pub open spec fn digit_char(value: nat) -> char {
    if value < 10 {
        (48 + value) as char
    } else {
        (87 + value) as char
    }
}

/// A number in decimal, without leading zeros.
pub open spec fn decimal(value: nat) -> Seq<char>
    decreases value,
{
    if value < 10 {
        seq![digit_char(value)]
    } else {
        decimal(value / 10).push(digit_char(value % 10))
    }
}

/// A number in decimal, with a minus sign before a negative one.
pub open spec fn signed_decimal(value: int) -> Seq<char> {
    if value < 0 {
        "-"@ + decimal((-value) as nat)
    } else {
        decimal(value as nat)
    }
}

/// The last `width` decimal digits of a number, zeros filling up from the left.
pub open spec fn padded_decimal(value: nat, width: nat) -> Seq<char>
    decreases width,
{
    if width == 0 {
        Seq::empty()
    } else {
        padded_decimal(value / 10, (width - 1) as nat).push(digit_char(value % 10))
    }
}

/// The last `width` hexadecimal digits of a number, zeros filling up from the
/// left.
pub open spec fn padded_hex(value: nat, width: nat) -> Seq<char>
    decreases width,
{
    if width == 0 {
        Seq::empty()
    } else {
        padded_hex(value / 16, (width - 1) as nat).push(digit_char(value % 16))
    }
}

fn write_digit(value: u8) -> (result: char)
    requires
        value < 16,
    ensures
        result == digit_char(value as nat),
{
    if value < 10 {
        (48 + value) as char
    } else {
        (87 + value) as char
    }
}

pub fn write_decimal(value: u128) -> (result: String)
    ensures
        result@ == decimal(value as nat),
    decreases value,
{
    let mut result = if value < 10 {
        String::new()
    } else {
        write_decimal(value / 10)
    };
    result.push(write_digit((value % 10) as u8));
    assert(value < 10 ==> result@ =~= decimal(value as nat));
    result
}

pub fn write_u64(value: u64) -> (result: String)
    ensures
        result@ == decimal(value as nat),
{
    write_decimal(value as u128)
}

pub fn write_usize(value: usize) -> (result: String)
    ensures
        result@ == decimal(value as nat),
{
    write_decimal(value as u128)
}

pub fn write_i64(value: i64) -> (result: String)
    ensures
        result@ == signed_decimal(value as int),
{
    if value < 0 {
        let magnitude: i128 = -(value as i128);
        "-".to_owned().concat(write_decimal(magnitude as u128).as_str())
    } else {
        write_decimal(value as u128)
    }
}

pub fn write_padded(value: u128, width: usize) -> (result: String)
    ensures
        result@ == padded_decimal(value as nat, width as nat),
    decreases width,
{
    if width == 0 {
        String::new()
    } else {
        let mut result = write_padded(value / 10, width - 1);
        result.push(write_digit((value % 10) as u8));
        result
    }
}

pub fn write_hex(value: u64, width: usize) -> (result: String)
    ensures
        result@ == padded_hex(value as nat, width as nat),
    decreases width,
{
    if width == 0 {
        String::new()
    } else {
        let mut result = write_hex(value / 16, width - 1);
        result.push(write_digit((value % 16) as u8));
        result
    }
}

// ---------------------------------------------------------------------------
// Reading
// ---------------------------------------------------------------------------

/// Whether `text` holds decimal digits only.
pub open spec fn all_digits(text: Seq<char>) -> bool {
    forall|i: int| 0 <= i < text.len() ==> is_digit(#[trigger] text[i])
}

/// The number that a row of decimal digits stands for.
pub open spec fn digits_value(text: Seq<char>) -> nat
    decreases text.len(),
{
    if text.len() == 0 {
        0
    } else {
        digits_value(text.drop_last()) * 10 + (text.last() as nat - '0' as nat) as nat
    }
}

/// The number in a non-empty row of decimal digits, if it is at most `largest`.
pub open spec fn parsed_digits(text: Seq<char>, largest: nat) -> Option<nat> {
    if text.len() > 0 && all_digits(text) && digits_value(text) <= largest {
        Some(digits_value(text))
    } else {
        None
    }
}

/// A number without a sign, or with a plus sign, if it is at most `largest`.
pub open spec fn parsed_unsigned(text: Seq<char>, largest: nat) -> Option<nat> {
    if text.len() > 0 && text[0] == '+' {
        parsed_digits(text.skip(1), largest)
    } else {
        parsed_digits(text, largest)
    }
}

/// A number with an optional sign, if it lies between `smallest` and `largest`.
pub open spec fn parsed_signed(text: Seq<char>, smallest: int, largest: nat) -> Option<int> {
    if text.len() > 0 && text[0] == '-' {
        match parsed_digits(text.skip(1), (-smallest) as nat) {
            Some(value) => Some(-(value as int)),
            None => None,
        }
    } else {
        match parsed_unsigned(text, largest) {
            Some(value) => Some(value as int),
            None => None,
        }
    }
}

proof fn lemma_digits_grow(text: Seq<char>, shorter: int)
    requires
        0 <= shorter <= text.len(),
    ensures
        digits_value(text.take(shorter)) <= digits_value(text),
    decreases text.len() - shorter,
{
    if shorter < text.len() {
        lemma_digits_grow(text, shorter + 1);
        assert(text.take(shorter + 1).drop_last() =~= text.take(shorter));
    } else {
        assert(text.take(shorter) =~= text);
    }
}

/// Reads `chars[from..]` as a row of decimal digits.
fn parse_digits_from(chars: &[char], from: usize, largest: u64) -> (result: Option<u64>)
    requires
        from <= chars@.len(),
    ensures
        match (result, parsed_digits(chars@.skip(from as int), largest as nat)) {
            (Some(value), Some(expected)) => value == expected,
            (None, None) => true,
            _ => false,
        },
{
    let ghost text = chars@.skip(from as int);
    if from == chars.len() {
        return None;
    }
    let mut value: u128 = 0;
    let mut i: usize = from;
    while i < chars.len()
        invariant
            from <= i <= chars@.len(),
            text == chars@.skip(from as int),
            forall|k: int| 0 <= k < i - from ==> is_digit(#[trigger] text[k]),
            value == digits_value(text.take(i - from)),
            value <= largest,
        decreases chars.len() - i,
    {
        let c = chars[i];
        assert(text[i - from] == c);
        if !digit(c) {
            return None;
        }
        i = i + 1;
        assert(text.take(i - from).drop_last() =~= text.take(i - from - 1));
        value = value * 10 + (c as u32 - '0' as u32) as u128;
        if value > largest as u128 {
            proof {
                lemma_digits_grow(text, i - from);
            }
            return None;
        }
    }
    assert(text.take(i - from) =~= text);
    Some(value as u64)
}

/// Reads a non-empty row of decimal digits, without a sign.
pub fn parse_digits(text: &str, largest: u64) -> (result: Option<u64>)
    ensures
        match (result, parsed_digits(text@, largest as nat)) {
            (Some(value), Some(expected)) => value == expected,
            (None, None) => true,
            _ => false,
        },
{
    let chars = chars_of(text);
    assert(chars@.skip(0) =~= text@);
    parse_digits_from(&chars, 0, largest)
}

/// Reads a number that may carry a plus sign.
fn parse_unsigned(text: &str, largest: u64) -> (result: Option<u64>)
    ensures
        match (result, parsed_unsigned(text@, largest as nat)) {
            (Some(value), Some(expected)) => value == expected,
            (None, None) => true,
            _ => false,
        },
{
    let chars = chars_of(text);
    assert(chars@.skip(0) =~= text@);
    let from: usize = if chars.len() > 0 && chars[0] == '+' {
        1
    } else {
        0
    };
    parse_digits_from(&chars, from, largest)
}

/// The `u64` that a text writes out.
pub open spec fn u64_in(text: Seq<char>) -> Option<u64> {
    match parsed_unsigned(text, u64::MAX as nat) {
        Some(value) => Some(value as u64),
        None => None,
    }
}

/// The `u32` that a text writes out.
pub open spec fn u32_in(text: Seq<char>) -> Option<u32> {
    match parsed_unsigned(text, u32::MAX as nat) {
        Some(value) => Some(value as u32),
        None => None,
    }
}

/// The `i64` that a text writes out.
pub open spec fn i64_in(text: Seq<char>) -> Option<i64> {
    match parsed_signed(text, i64::MIN as int, i64::MAX as nat) {
        Some(value) => Some(value as i64),
        None => None,
    }
}

/// The `i32` that a text writes out.
pub open spec fn i32_in(text: Seq<char>) -> Option<i32> {
    match parsed_signed(text, i32::MIN as int, i32::MAX as nat) {
        Some(value) => Some(value as i32),
        None => None,
    }
}

pub fn parse_u64(text: &str) -> (result: Option<u64>)
    ensures
        result == u64_in(text@),
{
    parse_unsigned(text, u64::MAX)
}

pub fn parse_u32(text: &str) -> (result: Option<u32>)
    ensures
        result == u32_in(text@),
{
    match parse_unsigned(text, u32::MAX as u64) {
        Some(value) => Some(value as u32),
        None => None,
    }
}

pub fn parse_i64(text: &str) -> (result: Option<i64>)
    ensures
        result == i64_in(text@),
{
    let chars = chars_of(text);
    if chars.len() > 0 && chars[0] == '-' {
        match parse_digits_from(&chars, 1, 0x8000_0000_0000_0000) {
            Some(value) => Some((-(value as i128)) as i64),
            None => None,
        }
    } else {
        match parse_unsigned(text, i64::MAX as u64) {
            Some(value) => Some(value as i64),
            None => None,
        }
    }
}

pub fn parse_i32(text: &str) -> (result: Option<i32>)
    ensures
        result == i32_in(text@),
{
    let chars = chars_of(text);
    if chars.len() > 0 && chars[0] == '-' {
        match parse_digits_from(&chars, 1, 0x8000_0000) {
            Some(value) => Some((-(value as i128)) as i32),
            None => None,
        }
    } else {
        match parse_unsigned(text, i32::MAX as u64) {
            Some(value) => Some(value as i32),
            None => None,
        }
    }
}

/// Padded digits are as many digits as there is room for, and tell the number
/// if it fits.
pub proof fn lemma_padded_reads_back(value: nat, width: nat)
    requires
        1 <= width <= 3,
        value < 10 || width >= 2,
        value < 100 || width >= 3,
        value < 1_000,
    ensures
        all_digits(padded_decimal(value, width)),
        padded_decimal(value, width).len() == width,
        digits_value(padded_decimal(value, width)) == value,
    decreases width,
{
    let text = padded_decimal(value, width);
    let before = padded_decimal(value / 10, (width - 1) as nat);
    if width > 1 {
        lemma_padded_reads_back(value / 10, (width - 1) as nat);
    } else {
        assert(digits_value(before) == 0);
    }
    assert(text.drop_last() =~= before);
}

/// Every number can be read back from its decimal notation.
pub proof fn law_decimal_reads_back(value: nat)
    ensures
        all_digits(decimal(value)),
        decimal(value).len() > 0,
        digits_value(decimal(value)) == value,
        parsed_digits(decimal(value), value) == Some(value),
    decreases value,
{
    if value >= 10 {
        law_decimal_reads_back(value / 10);
        assert(decimal(value).drop_last() =~= decimal(value / 10));
    } else {
        assert(decimal(value).drop_last() =~= Seq::empty());
        assert(digits_value(decimal(value).drop_last()) == 0);
    }
}

} // verus!
