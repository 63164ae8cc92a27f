//! What is read off the output of other programs.

use vstd::prelude::*;

use crate::double::half_even;
use crate::json::{JsonView, member_ignoring_case, member_in};
use crate::media::command::{OutcomeView, StopReason, concluded, tail};
use crate::media::inspect::{
    VideoView, after_video_line, audio_in, first_tag, helper_result, length_in, tag_in, video_after,
};
use crate::media::progress::{download_percent_in, step_reported, transcode_percent_in};
use crate::number::{all_digits, decimal, digits_value, i32_in, law_decimal_reads_back, u64_in};
use crate::numeral::{
    HALF_LIMIT, QuantityView, decimal_in, double_floor, double_scale, mantissa_in, overflows,
    percent_of, quantity_in, seconds_of, ten_to, truncated, two_to, unsigned,
};
use crate::text::{
    ascii_lower, ascii_lowered, is_digit, is_white_space, lemma_split_after, lemma_split_whole,
    split_parts, stripped_prefix, trimmed, trimmed_end, trimmed_start, without_trailing,
};
use crate::time::Duration;

verus! {

// ---------------------------------------------------------------------------
// White space
// ---------------------------------------------------------------------------

/// Whether a text is made of white space.
pub open spec fn is_blank(text: Seq<char>) -> bool {
    forall|i: int| 0 <= i < text.len() ==> is_white_space(#[trigger] text[i])
}

/// Whether a text neither starts nor ends with white space.
pub open spec fn is_tight(text: Seq<char>) -> bool {
    text.len() > 0 && !is_white_space(text[0]) && !is_white_space(text.last())
}

proof fn lemma_trimmed_start(before: Seq<char>, text: Seq<char>)
    requires
        is_blank(before),
        text.len() > 0,
        !is_white_space(text[0]),
    ensures
        trimmed_start(before + text) == text,
    decreases before.len(),
{
    if before.len() == 0 {
        assert(before + text =~= text);
    } else {
        let rest = before.skip(1);
        assert forall|i: int| 0 <= i < rest.len() implies is_white_space(#[trigger] rest[i]) by {
            assert(is_white_space(before[i + 1]));
        }
        lemma_trimmed_start(rest, text);
        assert(is_white_space(before[0]));
        assert((before + text)[0] == before[0]);
        assert((before + text).skip(1) =~= rest + text);
    }
}

proof fn lemma_trimmed_end(text: Seq<char>, after: Seq<char>)
    requires
        is_blank(after),
        text.len() > 0,
        !is_white_space(text.last()),
    ensures
        trimmed_end(text + after) == text,
    decreases after.len(),
{
    if after.len() == 0 {
        assert(text + after =~= text);
    } else {
        let rest = after.drop_last();
        assert forall|i: int| 0 <= i < rest.len() implies is_white_space(#[trigger] rest[i]) by {
            assert(is_white_space(after[i]));
        }
        lemma_trimmed_end(text, rest);
        assert(is_white_space(after[after.len() - 1]));
        assert((text + after).last() == after.last());
        assert((text + after).drop_last() =~= text + rest);
    }
}

/// Trimming takes white space off both ends and nothing else.
pub proof fn law_trimming_takes_off_white_space(
    before: Seq<char>,
    text: Seq<char>,
    after: Seq<char>,
)
    requires
        is_blank(before),
        is_blank(after),
        is_tight(text),
    ensures
        trimmed(before + text + after) == text,
        trimmed(text) == text,
{
    let none = Seq::<char>::empty();
    lemma_trimmed_start(before, text + after);
    assert((text + after)[0] == text[0]);
    assert(before + text + after =~= before + (text + after));
    lemma_trimmed_end(text, after);
    lemma_trimmed_start(none, text);
    lemma_trimmed_end(text, none);
    assert(none + text =~= text);
    assert(text + none =~= text);
}

// ---------------------------------------------------------------------------
// Numbers with fractions
// ---------------------------------------------------------------------------

/// Digits behind a point.
pub open spec fn with_fraction(whole: nat, fraction: Seq<char>) -> Seq<char> {
    decimal(whole) + "."@ + fraction
}

proof fn lemma_row_of_digits(text: Seq<char>)
    requires
        all_digits(text),
    ensures
        ascii_lowered(text) == text,
        !text.contains('.'),
        !text.contains('e'),
{
    assert forall|i: int| 0 <= i < text.len() implies ascii_lower(text[i]) == text[i] by {
        assert(is_digit(text[i]));
    }
    assert(ascii_lowered(text) =~= text);
    assert forall|i: int| 0 <= i < text.len() implies text[i] != '.' && text[i] != 'e' by {
        assert(is_digit(text[i]));
    }
}

proof fn lemma_no_name(text: Seq<char>)
    requires
        text.len() > 0,
        is_digit(text[0]),
    ensures
        text != "nan"@,
        text != "inf"@,
        text != "infinity"@,
        unsigned(text) == text,
{
    reveal_strlit("nan");
    reveal_strlit("inf");
    reveal_strlit("infinity");
}

/// A whole number is read as itself.
pub proof fn law_whole_numbers_are_read(whole: nat)
    ensures
        quantity_in(decimal(whole)) == Some(
            QuantityView::Finite { negative: false, over: whole, under: 1 },
        ),
{
    let text = decimal(whole);
    law_decimal_reads_back(whole);
    lemma_row_of_digits(text);
    assert(is_digit(text[0]));
    lemma_no_name(text);
    lemma_split_whole(text, 'e');
    lemma_split_whole(text, '.');
    assert(ten_to(0) == 1);
    assert(digits_value(text) == whole);
    assert(mantissa_in(text) == Some((text, 0int)));
    assert(decimal_in(text) == Some((text, 0int)));
    assert(whole * 1 == whole);
}

proof fn lemma_appended_digits(one: Seq<char>, other: Seq<char>)
    requires
        all_digits(one),
        all_digits(other),
    ensures
        all_digits(one + other),
        digits_value(one + other) == digits_value(one) * ten_to(other.len()) + digits_value(other),
    decreases other.len(),
{
    let both = one + other;
    assert forall|i: int| 0 <= i < both.len() implies is_digit(#[trigger] both[i]) by {
        if i < one.len() {
            assert(is_digit(one[i]));
        } else {
            assert(is_digit(other[i - one.len()]));
        }
    }
    if other.len() == 0 {
        assert(both =~= one);
        let power = ten_to(other.len());
        assert(digits_value(one) * power == digits_value(one)) by (nonlinear_arith)
            requires
                power == 1,
        ;
    } else {
        let fewer = other.drop_last();
        assert forall|i: int| 0 <= i < fewer.len() implies is_digit(#[trigger] fewer[i]) by {
            assert(is_digit(other[i]));
        }
        lemma_appended_digits(one, fewer);
        assert(both.drop_last() =~= one + fewer);
        assert(both.last() == other.last());
        let power = ten_to(fewer.len());
        assert(ten_to(other.len()) == 10 * power);
        let value = digits_value(one);
        assert(value * (10 * power) == value * power * 10) by (nonlinear_arith);
    }
}

/// A number with a fraction is read as that many of the parts into which its
/// digits cut a unit.
pub proof fn law_fractions_are_read(whole: nat, fraction: Seq<char>)
    requires
        fraction.len() > 0,
        all_digits(fraction),
    ensures
        quantity_in(with_fraction(whole, fraction)) == Some(
            QuantityView::Finite {
                negative: false,
                over: whole * ten_to(fraction.len()) + digits_value(fraction),
                under: ten_to(fraction.len()),
            },
        ),
{
    reveal_strlit(".");
    let front = decimal(whole);
    let text = with_fraction(whole, fraction);
    law_decimal_reads_back(whole);
    lemma_row_of_digits(front);
    lemma_row_of_digits(fraction);
    assert(text =~= front.push('.') + fraction);
    assert(ascii_lowered(text) =~= text) by {
        assert forall|i: int| 0 <= i < text.len() implies ascii_lower(text[i]) == text[i] by {
            if i < front.len() {
                assert(ascii_lowered(front)[i] == front[i]);
            } else if i > front.len() {
                assert(ascii_lowered(fraction)[i - front.len() - 1] == fraction[i - front.len()
                    - 1]);
            }
        }
    }
    assert(is_digit(front[0]));
    assert(text[0] == front[0]);
    lemma_no_name(text);
    assert forall|i: int| 0 <= i < text.len() implies text[i] != 'e' by {
        if i < front.len() {
            assert(front.contains(front[i]));
        } else if i > front.len() {
            assert(fraction.contains(fraction[i - front.len() - 1]));
        }
    }
    assert(!text.contains('e'));
    lemma_split_whole(text, 'e');
    lemma_split_whole(front, '.');
    lemma_split_after(front, fraction, '.');
    lemma_appended_digits(front, fraction);
    assert(split_parts(text, '.') =~= seq![front, fraction]);
}

proof fn lemma_scale(whole: nat)
    requires
        0 < whole < HALF_LIMIT,
    ensures
        double_scale(whole) * whole >= HALF_LIMIT,
        double_scale(whole) > 0,
    decreases HALF_LIMIT - whole,
{
    if 2 * whole >= HALF_LIMIT {
        assert(double_scale(2 * whole) == 1);
    } else {
        lemma_scale(2 * whole);
        let scale = double_scale(2 * whole);
        assert(2 * scale * whole == scale * (2 * whole)) by (nonlinear_arith);
    }
}

/// The fraction of a number is cut off: neither is it rounded up, nor does a
/// double change it, as long as a double can hold all its digits.
pub proof fn law_fractions_are_cut_off(whole: nat, rest: nat, under: nat)
    requires
        rest < under,
        (whole + 1) * under <= HALF_LIMIT,
    ensures
        double_floor(whole * under + rest, under) == whole,
{
    let over = whole * under + rest;
    assert(over / under == whole) by {
        vstd::arithmetic::div_mod::lemma_fundamental_div_mod_converse(
            over as int,
            under as int,
            whole as int,
            rest as int,
        );
    }
    assert(whole < HALF_LIMIT && under <= HALF_LIMIT) by (nonlinear_arith)
        requires
            (whole + 1) * under <= HALF_LIMIT,
            under > 0,
    ;
    let scale = double_scale(whole);
    assert(scale > under) by {
        if whole > 0 {
            lemma_scale(whole);
            assert(scale > under) by (nonlinear_arith)
                requires
                    scale * whole >= 0x10_0000_0000_0000,
                    (whole + 1) * under <= 0x10_0000_0000_0000,
                    under > 0,
            ;
        }
    }
    let nearest = half_even(over * scale, under);
    crate::laws::status::law_rounding_finds_the_nearest(over * scale, under);
    assert(over * scale == whole * scale * under + rest * scale) by (nonlinear_arith)
        requires
            over == whole * under + rest,
    ;
    assert(nearest >= whole * scale) by (nonlinear_arith)
        requires
            2 * (over * scale) <= 2 * nearest * under + under,
            over * scale == whole * scale * under + rest * scale,
            rest * scale >= 0,
            under > 0,
    ;
    assert(nearest < (whole + 1) * scale) by (nonlinear_arith)
        requires
            2 * nearest * under <= 2 * (over * scale) + under,
            over * scale == whole * scale * under + rest * scale,
            rest + 1 <= under,
            scale > under,
            under > 0,
    ;
    assert(nearest / scale == whole) by {
        assert((whole + 1) * scale == whole * scale + scale) by (nonlinear_arith);
        vstd::arithmetic::div_mod::lemma_fundamental_div_mod_converse(
            nearest as int,
            scale as int,
            whole as int,
            nearest - whole * scale,
        );
    }
}

/// A percentage is never below nothing nor above a hundred, and a length is never
/// negative, whatever a program prints.
pub proof fn law_odd_quantities_are_cut_off(over: nat, under: nat)
    ensures
        percent_of(QuantityView::NotANumber) == 0,
        percent_of(QuantityView::Infinite { negative: true }) == 0,
        percent_of(QuantityView::Infinite { negative: false }) == 100,
        percent_of(QuantityView::Finite { negative: true, over, under }) == 0,
        double_floor(over, under) > 100 ==> percent_of(
            QuantityView::Finite { negative: false, over, under },
        ) == 100,
        seconds_of(QuantityView::NotANumber) == 0,
        seconds_of(QuantityView::Infinite { negative: true }) == 0,
        seconds_of(QuantityView::Infinite { negative: false }) == 0,
        seconds_of(QuantityView::Finite { negative: true, over, under }) == 0,
        seconds_of(QuantityView::Finite { negative: false, over, under }) <= 0x7fff_ffff,
        truncated(QuantityView::NotANumber) == 0,
        truncated(QuantityView::Infinite { negative: true }) == i64::MIN,
        truncated(QuantityView::Infinite { negative: false }) == i64::MAX,
        double_floor(over, under) <= i64::MAX ==> truncated(
            QuantityView::Finite { negative: true, over, under },
        ) == -double_floor(over, under) && truncated(
            QuantityView::Finite { negative: false, over, under },
        ) == double_floor(over, under),
        double_floor(over, under) > i64::MAX ==> truncated(
            QuantityView::Finite { negative: true, over, under },
        ) == i64::MIN && truncated(QuantityView::Finite { negative: false, over, under })
            == i64::MAX,
{
}

/// A sign before a number is read, and so are the names of what is no number.
pub proof fn law_signs_are_read(whole: nat)
    ensures
        quantity_in("-"@ + decimal(whole)) == Some(
            QuantityView::Finite { negative: true, over: whole, under: 1 },
        ),
        quantity_in("+"@ + decimal(whole)) == Some(
            QuantityView::Finite { negative: false, over: whole, under: 1 },
        ),
        quantity_in("nan"@) == Some(QuantityView::NotANumber),
        quantity_in("inf"@) == Some(QuantityView::Infinite { negative: false }),
        quantity_in("infinity"@) == Some(QuantityView::Infinite { negative: false }),
        quantity_in("-inf"@) == Some(QuantityView::Infinite { negative: true }),
        quantity_in(Seq::empty()) is None,
{
    reveal_strlit("-");
    reveal_strlit("+");
    reveal_strlit("nan");
    reveal_strlit("inf");
    reveal_strlit("infinity");
    reveal_strlit("-inf");
    law_whole_numbers_are_read(whole);
    let digits = decimal(whole);
    law_decimal_reads_back(whole);
    assert(is_digit(digits[0]));
    lemma_no_name(digits);
    assert(("-"@ + digits).skip(1) =~= digits);
    assert(("+"@ + digits).skip(1) =~= digits);
    assert(ascii_lowered("nan"@) =~= "nan"@);
    assert(ascii_lowered("inf"@) =~= "inf"@);
    assert(ascii_lowered("infinity"@) =~= "infinity"@);
    assert("-inf"@.skip(1) =~= "inf"@);
    let none = Seq::<char>::empty();
    assert(ascii_lowered(none) =~= none);
    lemma_split_whole(none, 'e');
    lemma_split_whole(none, '.');
}

// ---------------------------------------------------------------------------
// Progress
// ---------------------------------------------------------------------------

/// Whether a text writes a number out, with a fraction or without one, so that a
/// double can hold all its digits.
pub open spec fn writes_out(number: Seq<char>, whole: nat, fraction: Seq<char>) -> bool {
    &&& all_digits(fraction)
    &&& (whole + 1) * ten_to(fraction.len()) <= HALF_LIMIT
    &&& fraction.len() == 0 ==> number == decimal(whole)
    &&& fraction.len() > 0 ==> number == with_fraction(whole, fraction)
}

proof fn lemma_written_out(number: Seq<char>, whole: nat, fraction: Seq<char>)
    requires
        writes_out(number, whole, fraction),
    ensures
        is_tight(number),
        is_digit(number[0]),
        is_digit(number.last()),
        ({
            let under = ten_to(fraction.len());
            let rest = digits_value(fraction);
            &&& quantity_in(number) == Some(
                QuantityView::Finite { negative: false, over: whole * under + rest, under },
            )
            &&& double_floor(whole * under + rest, under) == whole
            &&& rest < under
        }),
{
    reveal_strlit(".");
    let digits = decimal(whole);
    law_decimal_reads_back(whole);
    assert(is_digit(digits[0]));
    assert(is_digit(digits[digits.len() - 1]));
    lemma_digits_bound(fraction);
    let under = ten_to(fraction.len());
    let rest = digits_value(fraction);
    law_fractions_are_cut_off(whole, rest, under);
    if fraction.len() == 0 {
        law_whole_numbers_are_read(whole);
        assert(under == 1 && rest == 0);
        assert(whole * 1 == whole);
    } else {
        law_fractions_are_read(whole, fraction);
        assert(is_digit(fraction[fraction.len() - 1]));
        assert(number.last() == fraction.last());
        assert(number[0] == digits[0]);
    }
}

/// The percentage that yt-dlp reports, with white space before it, is read
/// without its fraction, and as a hundred at most.
pub proof fn law_download_percentages_are_read(
    before: Seq<char>,
    blanks: Seq<char>,
    number: Seq<char>,
    percent: nat,
    fraction: Seq<char>,
    after: Seq<char>,
)
    requires
        is_blank(before),
        is_blank(blanks),
        is_blank(after),
        writes_out(number, percent, fraction),
    ensures
        download_percent_in(before + ("download:"@ + (blanks + number + "%"@)) + after) == Some(
            (if percent <= 100 {
                percent
            } else {
                100
            }) as u8,
        ),
{
    reveal_strlit("download:");
    reveal_strlit("%");
    let none = Seq::<char>::empty();
    lemma_written_out(number, percent, fraction);
    let shown = number + "%"@;
    let rest = blanks + number + "%"@;
    let line = "download:"@ + rest;
    assert(line[0] == 'd');
    assert(line.last() == '%');
    assert(is_tight(line));
    law_trimming_takes_off_white_space(before, line, after);
    assert("download:"@.is_prefix_of(line)) by {
        assert("download:"@ =~= line.subrange(0, 9));
    }
    assert(line.skip(9) =~= rest);
    assert(is_tight(shown)) by {
        assert(shown[0] == number[0]);
        assert(shown.last() == '%');
    }
    law_trimming_takes_off_white_space(blanks, shown, none);
    assert(blanks + shown + none =~= rest);
    assert(shown.drop_last() =~= number);
    assert("%"@.contains(shown.last())) by {
        assert("%"@[0] == shown.last());
    }
    assert(!"%"@.contains(number.last()));
    reveal_with_fuel(without_trailing, 3);
    assert(without_trailing(shown, "%"@) == number);
    law_trimming_takes_off_white_space(none, number, none);
}

/// A line that reports something else is no percentage.
pub proof fn law_other_lines_are_no_percentages(line: Seq<char>, duration: u64)
    ensures
        !"download:"@.is_prefix_of(trimmed(line)) ==> download_percent_in(line) is None,
        !"out_time_us="@.is_prefix_of(trimmed(line)) && !"out_time_ms="@.is_prefix_of(
            trimmed(line),
        ) ==> transcode_percent_in(line, duration) is None,
{
}

/// The position that ffmpeg reports is read as the percentage of the length,
/// rounded down, and as 99 at most; of an unknown length there is none.
pub proof fn law_transcode_percentages_are_read(
    elapsed: u64,
    length: u64,
    before: Seq<char>,
    label: Seq<char>,
    after: Seq<char>,
)
    requires
        is_blank(before),
        is_blank(after),
        label == "out_time_us="@ || label == "out_time_ms="@,
    ensures
        ({
            let line = before + (label + decimal(elapsed as nat)) + after;
            let percent = transcode_percent_in(line, length);
            &&& length == 0 ==> percent is None
            &&& length > 0 && elapsed * 100 < 99 * length ==> (percent matches Some(percent)
                && percent * length <= elapsed * 100 && elapsed * 100 < (percent + 1) * length)
            &&& length > 0 && elapsed * 100 >= 99 * length ==> percent == Some(99u8)
        }),
{
    let line = label + decimal(elapsed as nat);
    reveal_strlit("out_time_us=");
    reveal_strlit("out_time_ms=");
    law_decimal_reads_back(elapsed as nat);
    let digits = decimal(elapsed as nat);
    assert(is_digit(digits[0]));
    assert(is_digit(digits[digits.len() - 1]));
    assert(line.last() == digits.last());
    assert(line[0] == 'o');
    assert(is_tight(line));
    law_trimming_takes_off_white_space(before, line, after);
    assert(label.is_prefix_of(line)) by {
        assert(label =~= line.subrange(0, 12));
    }
    if label == "out_time_ms="@ && "out_time_us="@.is_prefix_of(line) {
        assert("out_time_us="@[9] == line.subrange(0, 12)[9]);
    }
    assert(line.skip(12) =~= digits);
    assert(u64_in(digits) == Some(elapsed));
    if length > 0 {
        let over = elapsed as int * 100;
        let under = length as int;
        vstd::arithmetic::div_mod::lemma_fundamental_div_mod(over, under);
        vstd::arithmetic::div_mod::lemma_mod_bound(over, under);
        let percent = over / under;
        assert(percent * under <= over < (percent + 1) * under) by (nonlinear_arith)
            requires
                over == under * percent + over % under,
                0 <= over % under < under,
        ;
        assert(percent >= 99 <==> over >= 99 * under) by (nonlinear_arith)
            requires
                percent * under <= over < (percent + 1) * under,
                under > 0,
        ;
        assert(percent >= 0) by (nonlinear_arith)
            requires
                over < (percent + 1) * under,
                over >= 0,
                under > 0,
        ;
    }
}

/// A step is reported as soon as it is reached, once: from nothing to a hundred
/// percent every step of five can be.
pub proof fn law_steps_are_reported_when_reached(last: u8, percent: u8)
    requires
        percent <= 100,
        last <= 100,
        last % 5 == 0,
    ensures
        percent >= last + 5 ==> step_reported(last, percent) == Some((percent - percent % 5) as u8),
        percent < last + 5 ==> step_reported(last, percent) is None,
{
}

/// Whatever is reported is a whole step of five, and no more than was reached;
/// only at the top of what a byte holds can a step be smaller than that.
pub proof fn law_reported_steps_are_whole(last: u8, percent: u8)
    ensures
        step_reported(last, percent) matches Some(step) ==> step % 5 == 0 && step <= percent
            && percent < step + 5 && (step >= last + 5 || step == 255),
        step_reported(last, percent) is None <==> percent - percent % 5 < last + 5 && (percent < 255
            || last <= 250),
{
}

// ---------------------------------------------------------------------------
// Programs
// ---------------------------------------------------------------------------

/// How a program ended: as it says, unless it was cancelled or took too long.
pub proof fn law_programs_end_as_they_say(
    success: bool,
    error: Seq<char>,
    stdout: Seq<char>,
    stderr: Seq<char>,
)
    ensures
        concluded(StopReason::Finished, Ok(success), stdout, stderr) == (OutcomeView::Finished {
            success,
            stdout,
            stderr,
        }),
        concluded(StopReason::Finished, Err(error), stdout, stderr) == (OutcomeView::Finished {
            success: false,
            stdout,
            stderr: error,
        }),
        concluded(StopReason::Cancelled, Ok(success), stdout, stderr) == OutcomeView::Cancelled,
        concluded(StopReason::TimedOut, Ok(success), stdout, stderr) == OutcomeView::TimedOut,
{
}

/// Output that fits is kept as it is; of more, the last bytes are.
pub proof fn law_the_end_of_output_is_kept(bytes: Seq<u8>, more: Seq<u8>, count: nat)
    ensures
        bytes.len() <= count ==> tail(bytes, count) == bytes,
        more.len() == count ==> tail(bytes + more, count) == more,
{
    assert((bytes + more).skip(bytes.len() as int) =~= more);
    if bytes.len() == 0 {
        assert(bytes + more =~= more);
    }
}

/// A helper that ended is heard, whatever it says; one that did not says why.
pub proof fn law_helpers_are_heard(
    success: bool,
    stdout: Seq<char>,
    stderr: Seq<char>,
    timeout: Duration,
)
    ensures
        helper_result(OutcomeView::Finished { success, stdout, stderr }, timeout) == Ok::<
            (bool, Seq<char>, Seq<char>),
            Seq<char>,
        >((success, stdout, stderr)),
        helper_result(OutcomeView::Cancelled, timeout) == Err::<
            (bool, Seq<char>, Seq<char>),
            Seq<char>,
        >("cancelled"@),
        helper_result(OutcomeView::TimedOut, timeout) == Err::<
            (bool, Seq<char>, Seq<char>),
            Seq<char>,
        >("command timed out after "@ + decimal(timeout.whole_seconds()) + " seconds"@),
{
}

// ---------------------------------------------------------------------------
// Probes
// ---------------------------------------------------------------------------

proof fn lemma_labelled(label: Seq<char>, value: Seq<char>)
    requires
        label.len() > 0,
        !is_white_space(label[0]),
        value.len() > 0,
        !is_white_space(value.last()),
    ensures
        trimmed(label + value) == label + value,
        stripped_prefix(label + value, label) == Some(value),
{
    let line = label + value;
    let none = Seq::<char>::empty();
    assert(line[0] == label[0]);
    assert(line.last() == value.last());
    assert(is_tight(line));
    law_trimming_takes_off_white_space(none, line, none);
    assert(label =~= line.subrange(0, label.len() as int));
    assert(line.skip(label.len() as int) =~= value);
}

proof fn lemma_other_label(line: Seq<char>, label: Seq<char>)
    requires
        line.len() > 0,
        label.len() > 0,
        line[0] != label[0],
    ensures
        stripped_prefix(line, label) is None,
{
    if label.is_prefix_of(line) {
        assert(label[0] == line.subrange(0, label.len() as int)[0]);
    }
}

/// The lines of ffprobe are taken for what they are labelled: the width, the
/// height, the codec and the length, whose fraction is cut off. Nothing else that
/// is known changes.
pub proof fn law_probed_lines_say_what_they_are_labelled(
    video: VideoView,
    number: u32,
    length: Seq<char>,
    seconds: nat,
    fraction: Seq<char>,
    codec: Seq<char>,
)
    requires
        number <= i32::MAX,
        writes_out(length, seconds, fraction),
        codec.len() > 0,
        !is_white_space(codec.last()),
    ensures
        after_video_line(video, "width="@ + decimal(number as nat)) == (VideoView {
            width: number as i32,
            ..video
        }),
        after_video_line(video, "height="@ + decimal(number as nat)) == (VideoView {
            height: number as i32,
            ..video
        }),
        after_video_line(video, "duration="@ + length) == (VideoView {
            duration_secs: seconds as i64,
            ..video
        }),
        after_video_line(video, "codec_name="@ + codec) == (VideoView { codec, ..video }),
{
    reveal_strlit("width=");
    reveal_strlit("height=");
    reveal_strlit("duration=");
    reveal_strlit("codec_name=");
    let digits = decimal(number as nat);
    law_decimal_reads_back(number as nat);
    assert(is_digit(digits[0]));
    assert(is_digit(digits[digits.len() - 1]));
    assert(i32_in(digits) == Some(number as i32));
    lemma_written_out(length, seconds, fraction);
    lemma_labelled("width="@, digits);
    lemma_labelled("height="@, digits);
    lemma_labelled("duration="@, length);
    lemma_labelled("codec_name="@, codec);
    lemma_other_label("height="@ + digits, "width="@);
    lemma_other_label("duration="@ + length, "width="@);
    lemma_other_label("duration="@ + length, "height="@);
    lemma_other_label("codec_name="@ + codec, "width="@);
    lemma_other_label("codec_name="@ + codec, "height="@);
    lemma_other_label("codec_name="@ + codec, "duration="@);
    lemma_below_limit(seconds, ten_to(fraction.len()));
}

proof fn lemma_below_limit(whole: nat, under: nat)
    requires
        (whole + 1) * under <= HALF_LIMIT,
        under > 0,
    ensures
        whole < HALF_LIMIT,
{
    assert(whole < HALF_LIMIT) by (nonlinear_arith)
        requires
            (whole + 1) * under <= HALF_LIMIT,
            under > 0,
    ;
}

proof fn lemma_digits_bound(text: Seq<char>)
    requires
        all_digits(text),
    ensures
        digits_value(text) < ten_to(text.len()),
    decreases text.len(),
{
    if text.len() > 0 {
        let fewer = text.drop_last();
        assert forall|i: int| 0 <= i < fewer.len() implies is_digit(#[trigger] fewer[i]) by {
            assert(is_digit(text[i]));
        }
        lemma_digits_bound(fewer);
        assert(is_digit(text[text.len() - 1]));
    }
}

/// Nothing is known of a video before the first line; each line adds to what the
/// lines before it said.
pub proof fn law_probed_lines_add_up(lines: Seq<Seq<char>>, count: nat)
    requires
        count < lines.len(),
    ensures
        video_after(lines, 0) == (VideoView {
            duration_secs: 0,
            width: 0,
            height: 0,
            codec: Seq::empty(),
        }),
        video_after(lines, count + 1) == after_video_line(
            video_after(lines, count),
            lines[count as int],
        ),
{
}

proof fn lemma_two_is_positive(exponent: nat)
    ensures
        two_to(exponent) >= 1,
    decreases exponent,
{
    if exponent > 0 {
        lemma_two_is_positive((exponent - 1) as nat);
    }
}

proof fn lemma_moderate_is_finite(whole: nat, rest: nat, under: nat)
    requires
        whole < HALF_LIMIT,
        rest < under,
    ensures
        !overflows(whole * under + rest, under),
{
    let power = two_to(970);
    lemma_two_is_positive(970);
    assert(whole * under + rest < 0x3f_ffff_ffff_ffffnat * power * under) by (nonlinear_arith)
        requires
            whole < 0x10_0000_0000_0000,
            rest < under,
            power >= 1,
    ;
}

/// A length that ffprobe gives, as a text or as a number, is read in whole
/// seconds, as far as 31 bits reach.
pub proof fn law_probed_lengths_are_read(length: Seq<char>, seconds: nat, fraction: Seq<char>)
    requires
        writes_out(length, seconds, fraction),
    ensures
        ({
            let read = if seconds <= 0x7fff_ffff {
                seconds
            } else {
                0x7fff_ffff
            };
            &&& length_in(JsonView::Text(length)) == read
            &&& length_in(JsonView::Number(length)) == read
        }),
        length_in(JsonView::Null) == 0,
{
    let under = ten_to(fraction.len());
    lemma_written_out(length, seconds, fraction);
    lemma_below_limit(seconds, under);
    lemma_moderate_is_finite(seconds, digits_value(fraction), under);
}

/// A track has the title and the artist that its tags name first: the artist,
/// else the artist of the album, else the performer. Blank tags count as missing.
pub proof fn law_tags_name_title_and_artist(
    members: Seq<(Seq<char>, JsonView)>,
    format: Seq<(Seq<char>, JsonView)>,
    tags: Seq<(Seq<char>, JsonView)>,
)
    requires
        member_in(members, "format"@) == Some(JsonView::Object(format)),
        member_in(format, "tags"@) == Some(JsonView::Object(tags)),
    ensures
        audio_in(JsonView::Object(members)) matches Some(audio) && ({
            &&& audio.title == tag_in(tags, "title"@)
            &&& tag_in(tags, "artist"@) matches Some(artist) ==> audio.performer == Some(artist)
            &&& tag_in(tags, "artist"@) is None && tag_in(tags, "album_artist"@) is Some
                ==> audio.performer == tag_in(tags, "album_artist"@)
            &&& tag_in(tags, "artist"@) is None && tag_in(tags, "album_artist"@) is None
                ==> audio.performer == tag_in(tags, "performer"@)
            &&& member_in(format, "duration"@) matches Some(length) ==> audio.seconds == length_in(
                length,
            )
            &&& member_in(format, "duration"@) is None ==> audio.seconds == 0
        }),
{
    let names = seq!["artist"@, "album_artist"@, "performer"@];
    reveal_with_fuel(first_tag, 4);
    assert(names.skip(1)[0] == "album_artist"@);
    assert(names.skip(1).skip(1)[0] == "performer"@);
    assert(names.skip(1).skip(1).skip(1).len() == 0);
    assert(seq!["title"@].skip(1).len() == 0);
}

/// A tag counts if it is a text that is not blank, and then without the white
/// space around it.
pub proof fn law_blank_tags_do_not_count(
    tags: Seq<(Seq<char>, JsonView)>,
    name: Seq<char>,
    text: Seq<char>,
)
    requires
        member_ignoring_case(tags, name) == Some(JsonView::Text(text)),
    ensures
        trimmed(text).len() > 0 ==> tag_in(tags, name) == Some(trimmed(text)),
        trimmed(text).len() == 0 ==> tag_in(tags, name) is None,
{
}

} // verus!
