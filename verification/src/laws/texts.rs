//! What is done with texts and with the numbers in them.

use vstd::prelude::*;

use crate::laws::readings::is_blank;
use crate::number::{
    all_digits, decimal, digits_value, i32_in, i64_in, law_decimal_reads_back, padded_decimal,
    padded_hex, signed_decimal, u32_in, u64_in,
};
use crate::numeral::ten_to;
use crate::text::{
    ascii_lower, ascii_lowered, equal_ignoring_ascii_case, is_digit, is_white_space, is_word,
    joined, lemma_first_word, lemma_split_after, lemma_split_has_a_part, lemma_split_whole,
    lines_of, split_parts, text_less, without_carriage_return, words_of, words_so_far,
};

verus! {

// ---------------------------------------------------------------------------
// Characters
// ---------------------------------------------------------------------------

/// Spaces, tabs and line ends are white space, and so are the wide spaces of
/// other scripts; what can be seen in ASCII is not.
pub proof fn law_white_space_is_what_cannot_be_seen(c: char)
    ensures
        ' ' < c <= '~' ==> !is_white_space(c),
        c == ' ' || c == '\t' || c == '\n' || c == '\r' ==> is_white_space(c),
        c == '\u{b}' || c == '\u{c}' || c == '\u{85}' || c == '\u{a0}' ==> is_white_space(c),
        '\u{2000}' <= c <= '\u{200a}' || c == '\u{3000}' || c == '\u{1680}' ==> is_white_space(c),
        c == '\u{2028}' || c == '\u{2029}' || c == '\u{202f}' || c == '\u{205f}' ==> is_white_space(
            c,
        ),
        c > '\u{3000}' ==> !is_white_space(c),
        '\u{a0}' < c < '\u{1680}' ==> !is_white_space(c),
{
}

/// Capitals become small letters; nothing else changes.
pub proof fn law_capitals_become_small_letters(i: nat, c: char)
    requires
        i < 26,
    ensures
        ascii_lower((65 + i) as char) == (97 + i) as char,
        !('A' <= c <= 'Z') ==> ascii_lower(c) == c,
{
}

/// Texts are equal without regard to case if each pair of characters is.
pub proof fn law_case_is_disregarded(left: Seq<char>, right: Seq<char>)
    ensures
        equal_ignoring_ascii_case(left, right) <==> left.len() == right.len() && forall|i: int|
            0 <= i < left.len() ==> ascii_lower(#[trigger] left[i]) == ascii_lower(right[i]),
{
    let one = ascii_lowered(left);
    let other = ascii_lowered(right);
    if equal_ignoring_ascii_case(left, right) {
        assert(one.len() == other.len());
        assert forall|i: int| 0 <= i < left.len() implies ascii_lower(#[trigger] left[i])
            == ascii_lower(right[i]) by {
            assert(one[i] == other[i]);
        }
    }
    if left.len() == right.len() && forall|i: int|
        0 <= i < left.len() ==> ascii_lower(#[trigger] left[i]) == ascii_lower(right[i]) {
        assert(one =~= other);
    }
}

// ---------------------------------------------------------------------------
// Words, parts and lines
// ---------------------------------------------------------------------------

proof fn lemma_no_words(blanks: Seq<char>)
    requires
        is_blank(blanks),
    ensures
        words_so_far(blanks) == (Seq::<Seq<char>>::empty(), Seq::<char>::empty()),
    decreases blanks.len(),
{
    if blanks.len() > 0 {
        let fewer = blanks.drop_last();
        assert forall|i: int| 0 <= i < fewer.len() implies is_white_space(#[trigger] fewer[i]) by {
            assert(is_white_space(blanks[i]));
        }
        lemma_no_words(fewer);
        assert(is_white_space(blanks[blanks.len() - 1]));
    }
}

proof fn lemma_leading_blanks(blanks: Seq<char>, text: Seq<char>)
    requires
        is_blank(blanks),
    ensures
        words_so_far(blanks + text) == words_so_far(text),
    decreases text.len(),
{
    if text.len() == 0 {
        assert(blanks + text =~= blanks);
        lemma_no_words(blanks);
    } else {
        lemma_leading_blanks(blanks, text.drop_last());
        assert((blanks + text).drop_last() =~= blanks + text.drop_last());
        assert((blanks + text).last() == text.last());
    }
}

/// Words are what stands between white space.
pub proof fn law_words_stand_between_blanks(blanks: Seq<char>, word: Seq<char>, rest: Seq<char>)
    requires
        is_blank(blanks),
        is_word(word),
        rest.len() == 0 || is_white_space(rest[0]),
    ensures
        words_of(blanks) == Seq::<Seq<char>>::empty(),
        words_of(blanks + (word + rest)) == seq![word] + words_of(rest),
{
    lemma_no_words(blanks);
    lemma_leading_blanks(blanks, word + rest);
    lemma_first_word(word, rest);
}

/// Parts that are joined are split again.
pub proof fn law_splitting_undoes_joining(parts: Seq<Seq<char>>, separator: char)
    requires
        parts.len() > 0,
        forall|i: int| 0 <= i < parts.len() ==> !(#[trigger] parts[i]).contains(separator),
    ensures
        split_parts(joined(parts, seq![separator]), separator) == parts,
    decreases parts.len(),
{
    assert(!parts[parts.len() - 1].contains(separator));
    if parts.len() == 1 {
        lemma_split_whole(parts[0], separator);
        assert(parts =~= seq![parts[0]]);
    } else {
        let fewer = parts.drop_last();
        assert forall|i: int| 0 <= i < fewer.len() implies !(#[trigger] fewer[i]).contains(
            separator,
        ) by {
            assert(fewer[i] == parts[i]);
        }
        law_splitting_undoes_joining(fewer, separator);
        let front = joined(fewer, seq![separator]);
        lemma_split_after(front, parts.last(), separator);
        assert(front + seq![separator] + parts.last() =~= front.push(separator) + parts.last());
        assert(fewer.push(parts.last()) =~= parts);
    }
}

/// A line feed ends a line, with or without a carriage return before it; what
/// stands behind the last one is a line if it is not empty.
pub proof fn law_line_feeds_end_lines(text: Seq<char>, line: Seq<char>)
    requires
        !line.contains('\n'),
    ensures
        lines_of(Seq::empty()) == Seq::<Seq<char>>::empty(),
        line.len() > 0 ==> lines_of(line) == seq![line],
        line.len() > 0 ==> lines_of(text.push('\n') + line) == lines_of(text.push('\n')).push(line),
        line.len() > 0 && line.last() != '\r' ==> {
            &&& lines_of(line.push('\n')) == seq![line]
            &&& lines_of(text.push('\n') + line.push('\n')) == lines_of(text.push('\n')).push(line)
            &&& lines_of(text.push('\n') + line.push('\r').push('\n')) == lines_of(
                text.push('\n'),
            ).push(line)
        },
{
    let none = Seq::<char>::empty();
    lemma_split_whole(none, '\n');
    lemma_split_whole(line, '\n');
    lemma_split_has_a_part(text, '\n');
    lemma_split_after(text, none, '\n');
    lemma_split_after(text, line, '\n');
    assert(text.push('\n') + none =~= text.push('\n'));
    let parts = split_parts(text, '\n');
    assert(parts.push(none).drop_last() =~= parts);
    assert(parts.push(line).drop_last() =~= parts);
    assert(seq![line].drop_last() =~= Seq::<Seq<char>>::empty());
    let cut = |part: Seq<char>| without_carriage_return(part);
    assert(Seq::<Seq<char>>::empty().map_values(cut) =~= Seq::<Seq<char>>::empty());
    assert(lines_of(none) =~= Seq::<Seq<char>>::empty());
    if line.len() > 0 {
        assert(lines_of(line) =~= seq![line]);
        assert(lines_of(text.push('\n') + line) =~= lines_of(text.push('\n')).push(line));
    }
    if line.len() > 0 && line.last() != '\r' {
        lemma_split_after(line, none, '\n');
        assert(line.push('\n') + none =~= line.push('\n'));
        assert(seq![line].push(none).drop_last() =~= seq![line]);
        assert(lines_of(line.push('\n')) =~= seq![line]);
        let before = text.push('\n') + line;
        lemma_split_after(before, none, '\n');
        assert(before.push('\n') + none =~= text.push('\n') + line.push('\n'));
        assert(parts.push(line).push(none).drop_last() =~= parts.push(line));
        assert(lines_of(text.push('\n') + line.push('\n')) =~= lines_of(text.push('\n')).push(line));
        let returned = line.push('\r');
        assert forall|i: int| 0 <= i < returned.len() implies returned[i] != '\n' by {
            if i < line.len() {
                assert(line.contains(line[i]));
            }
        }
        lemma_split_after(text, returned, '\n');
        let longer = text.push('\n') + returned;
        lemma_split_after(longer, none, '\n');
        assert(longer.push('\n') + none =~= text.push('\n') + returned.push('\n'));
        assert(parts.push(returned).push(none).drop_last() =~= parts.push(returned));
        assert(returned.drop_last() =~= line);
        assert(lines_of(text.push('\n') + returned.push('\n')) =~= lines_of(
            text.push('\n'),
        ).push(line));
    }
}

/// Texts are ordered as in a dictionary: by the first character in which they
/// differ, and a text comes before its continuations.
pub proof fn law_texts_are_ordered_as_in_a_dictionary(
    before: Seq<char>,
    one: char,
    other: char,
    left: Seq<char>,
    right: Seq<char>,
)
    ensures
        one != other ==> text_less(before + (seq![one] + left), before + (seq![other] + right)) == (
        one < other),
        left.len() > 0 ==> text_less(before, before + left),
        !text_less(before + left, before),
    decreases before.len(),
{
    if before.len() == 0 {
        assert(before + (seq![one] + left) =~= seq![one] + left);
        assert(before + (seq![other] + right) =~= seq![other] + right);
        assert(before + left =~= left);
    } else {
        let rest = before.skip(1);
        law_texts_are_ordered_as_in_a_dictionary(rest, one, other, left, right);
        assert((before + (seq![one] + left)).skip(1) =~= rest + (seq![one] + left));
        assert((before + (seq![other] + right)).skip(1) =~= rest + (seq![other] + right));
        assert((before + left).skip(1) =~= rest + left);
        assert((before + (seq![one] + left))[0] == before[0]);
        assert((before + (seq![other] + right))[0] == before[0]);
        assert((before + left)[0] == before[0]);
    }
}

// ---------------------------------------------------------------------------
// Numbers
// ---------------------------------------------------------------------------

/// Numbers read back, with or without a plus sign, as far as their type reaches,
/// and no further.
pub proof fn law_numbers_read_back(number: nat)
    ensures
        number <= u64::MAX ==> u64_in(decimal(number)) == Some(number as u64) && u64_in(
            "+"@ + decimal(number),
        ) == Some(number as u64),
        number > u64::MAX ==> u64_in(decimal(number)) is None,
        number <= u32::MAX ==> u32_in(decimal(number)) == Some(number as u32),
        number > u32::MAX ==> u32_in(decimal(number)) is None,
        u64_in("-"@ + decimal(number)) is None,
        u64_in(Seq::empty()) is None,
{
    reveal_strlit("+");
    reveal_strlit("-");
    let digits = decimal(number);
    law_decimal_reads_back(number);
    assert(is_digit(digits[0]));
    assert(("+"@ + digits).skip(1) =~= digits);
    assert(("-"@ + digits)[0] == '-');
    assert(!is_digit(("-"@ + digits)[0]));
}

/// Numbers with a minus sign read back, as far as their type reaches, and no
/// further.
pub proof fn law_signed_numbers_read_back(value: int)
    ensures
        i64::MIN <= value <= i64::MAX ==> i64_in(signed_decimal(value)) == Some(value as i64),
        !(i64::MIN <= value <= i64::MAX) ==> i64_in(signed_decimal(value)) is None,
        i32::MIN <= value <= i32::MAX ==> i32_in(signed_decimal(value)) == Some(value as i32),
        !(i32::MIN <= value <= i32::MAX) ==> i32_in(signed_decimal(value)) is None,
{
    reveal_strlit("-");
    if value < 0 {
        let digits = decimal((-value) as nat);
        law_decimal_reads_back((-value) as nat);
        assert(is_digit(digits[0]));
        assert(("-"@ + digits).skip(1) =~= digits);
    } else {
        law_decimal_reads_back(value as nat);
        assert(is_digit(decimal(value as nat)[0]));
    }
}

/// What holds a character that is no digit is no number.
pub proof fn law_letters_are_no_numbers(text: Seq<char>, i: int)
    requires
        0 <= i < text.len(),
        !is_digit(text[i]),
        i > 0 || (text[0] != '+' && text[0] != '-'),
    ensures
        u64_in(text) is None,
        u32_in(text) is None,
        i64_in(text) is None,
        i32_in(text) is None,
{
    assert(!all_digits(text));
    if i > 0 {
        assert(text.skip(1)[i - 1] == text[i]);
        assert(!all_digits(text.skip(1)));
    }
}

/// Hexadecimal digits are written one by one, the last one last.
pub proof fn law_hexadecimal_digits(value: nat, digit: nat, width: nat)
    requires
        digit < 16,
    ensures
        padded_hex(value, 0) == Seq::<char>::empty(),
        padded_hex(16 * value + digit, width + 1) == padded_hex(value, width).push(
            "0123456789abcdef"@[digit as int],
        ),
{
    reveal_strlit("0123456789abcdef");
    assert((16 * value + digit) / 16 == value);
    assert((16 * value + digit) % 16 == digit);
}

/// Padding with zeros keeps the number, if it has so many digits at most.
pub proof fn law_padding_keeps_the_number(value: nat, width: nat)
    requires
        value < ten_to(width),
    ensures
        padded_decimal(value, width).len() == width,
        all_digits(padded_decimal(value, width)),
        digits_value(padded_decimal(value, width)) == value,
    decreases width,
{
    if width > 0 {
        law_padding_keeps_the_number(value / 10, (width - 1) as nat);
        let front = padded_decimal(value / 10, (width - 1) as nat);
        let text = padded_decimal(value, width);
        assert(text.drop_last() =~= front);
        assert forall|i: int| 0 <= i < text.len() implies is_digit(#[trigger] text[i]) by {
            if i < front.len() {
                assert(is_digit(front[i]));
            }
        }
    }
}

} // verus!
