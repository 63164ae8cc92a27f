//! Decimal numerals of any length, as programs print measured quantities:
//! reading them, and the whole part of the double nearest to them.

use vstd::prelude::*;

use crate::double::{DOUBLE_LIMIT, double_step, half_even, step_at};
use crate::number::{all_digits, digits_value};
use crate::text::{
    ascii_lowercase, ascii_lowered, chars_of, digit, is_digit, lemma_split_has_a_part, same_text,
    split, split_parts, text_between,
};

verus! {

// ---------------------------------------------------------------------------
// Rows of digits
// ---------------------------------------------------------------------------

pub open spec fn ten_to(exponent: nat) -> nat
    decreases exponent,
{
    if exponent == 0 {
        1
    } else {
        10 * ten_to((exponent - 1) as nat)
    }
}

pub open spec fn two_to(exponent: nat) -> nat
    decreases exponent,
{
    if exponent == 0 {
        1
    } else {
        2 * two_to((exponent - 1) as nat)
    }
}

/// Whether every entry is a decimal digit.
pub open spec fn is_row(digits: Seq<u8>) -> bool {
    forall|i: int| 0 <= i < digits.len() ==> #[trigger] digits[i] < 10
}

/// The number that a row of digits stands for.
pub open spec fn row_value(digits: Seq<u8>) -> nat
    decreases digits.len(),
{
    if digits.len() == 0 {
        0
    } else {
        row_value(digits.drop_last()) * 10 + digits.last() as nat
    }
}

proof fn lemma_ten_positive(exponent: nat)
    ensures
        0 < ten_to(exponent),
    decreases exponent,
{
    if exponent > 0 {
        lemma_ten_positive((exponent - 1) as nat);
    }
}

proof fn lemma_ten_adds(one: nat, other: nat)
    ensures
        ten_to(one + other) == ten_to(one) * ten_to(other),
    decreases one,
{
    if one > 0 {
        lemma_ten_adds((one - 1) as nat, other);
        assert(ten_to(one + other) == 10 * ten_to((one - 1 + other) as nat));
        assert(10 * (ten_to((one - 1) as nat) * ten_to(other)) == (10 * ten_to((one - 1) as nat))
            * ten_to(other)) by (nonlinear_arith);
    } else {
        assert(ten_to(one) * ten_to(other) == ten_to(other)) by (nonlinear_arith)
            requires
                ten_to(one) == 1,
        ;
    }
}

proof fn lemma_ten_grows(one: nat, other: nat)
    requires
        one <= other,
    ensures
        ten_to(one) <= ten_to(other),
    decreases other - one,
{
    if one < other {
        lemma_ten_grows(one, (other - 1) as nat);
        lemma_ten_positive((other - 1) as nat);
    }
}

proof fn lemma_two_positive(exponent: nat)
    ensures
        0 < two_to(exponent),
    decreases exponent,
{
    if exponent > 0 {
        lemma_two_positive((exponent - 1) as nat);
    }
}

proof fn lemma_two_adds(one: nat, other: nat)
    ensures
        two_to(one + other) == two_to(one) * two_to(other),
    decreases one,
{
    if one > 0 {
        lemma_two_adds((one - 1) as nat, other);
        assert(two_to(one + other) == 2 * two_to((one - 1 + other) as nat));
        assert(2 * (two_to((one - 1) as nat) * two_to(other)) == (2 * two_to((one - 1) as nat))
            * two_to(other)) by (nonlinear_arith);
    } else {
        assert(two_to(one) * two_to(other) == two_to(other)) by (nonlinear_arith)
            requires
                two_to(one) == 1,
        ;
    }
}

/// Twice the number from which on doubles skip whole numbers.
proof fn lemma_two_to_54()
    ensures
        two_to(54) == 2 * DOUBLE_LIMIT,
{
    assert(two_to(6) == 64) by {
        reveal_with_fuel(two_to, 7);
    }
    lemma_two_adds(6, 6);
    lemma_two_adds(12, 6);
    lemma_two_adds(18, 18);
    lemma_two_adds(36, 18);
    let small = two_to(18);
    assert(small == 262_144);
    assert(small * small == 68_719_476_736) by (nonlinear_arith)
        requires
            small == 262_144,
    ;
    let large = two_to(36);
    assert(large == small * small);
    assert(large * small == 18_014_398_509_481_984) by (nonlinear_arith)
        requires
            small == 262_144,
            large == 68_719_476_736,
    ;
}

proof fn lemma_row_bound(digits: Seq<u8>)
    requires
        is_row(digits),
    ensures
        row_value(digits) < ten_to(digits.len()),
    decreases digits.len(),
{
    if digits.len() > 0 {
        lemma_row_bound(digits.drop_last());
    }
}

proof fn lemma_row_split(digits: Seq<u8>, at: int)
    requires
        0 <= at <= digits.len(),
    ensures
        row_value(digits) == row_value(digits.take(at)) * ten_to((digits.len() - at) as nat)
            + row_value(digits.skip(at)),
    decreases digits.len() - at,
{
    if at < digits.len() {
        let short = digits.drop_last();
        lemma_row_split(short, at);
        assert(short.take(at) =~= digits.take(at));
        assert(short.skip(at) =~= digits.skip(at).drop_last());
        assert(digits.skip(at).last() == digits.last());
        let head = row_value(digits.take(at));
        let power = ten_to((short.len() - at) as nat);
        assert(ten_to((digits.len() - at) as nat) == 10 * power);
        assert((head * power) * 10 == head * (10 * power)) by (nonlinear_arith);
    } else {
        assert(digits.take(at) =~= digits);
        assert(digits.skip(at) =~= Seq::empty());
        let value = row_value(digits);
        assert(value * ten_to(0) == value) by (nonlinear_arith)
            requires
                ten_to(0) == 1,
        ;
    }
}

/// Doubles the number in a row of digits; whether a one is carried out of it.
fn double_row(digits: &mut Vec<u8>) -> (carry: bool)
    requires
        is_row(old(digits)@),
    ensures
        is_row(final(digits)@),
        final(digits)@.len() == old(digits)@.len(),
        row_value(final(digits)@) + (if carry {
            ten_to(old(digits)@.len())
        } else {
            0
        }) == 2 * row_value(old(digits)@),
{
    let ghost before = digits@;
    let total: usize = digits.len();
    let mut i: usize = total;
    let mut carry: u8 = 0;
    assert(before.take(total as int) =~= before);
    assert(digits@.skip(total as int) =~= Seq::empty());
    proof {
        let value = row_value(before);
        assert((2 * value + 0) * ten_to(0) == 2 * value) by (nonlinear_arith)
            requires
                ten_to(0) == 1,
        ;
    }
    while i > 0
        invariant
            i <= total,
            total == digits@.len(),
            total == before.len(),
            is_row(before),
            is_row(digits@),
            carry <= 1,
            forall|k: int| 0 <= k < i ==> digits@[k] == before[k],
            2 * row_value(before) == (2 * row_value(before.take(i as int)) + carry) * ten_to(
                (total - i) as nat,
            ) + row_value(digits@.skip(i as int)),
        decreases i,
    {
        let ghost high = row_value(before.take(i - 1));
        let ghost power = ten_to((total - i) as nat);
        let ghost rest = digits@.skip(i as int);
        let digit: u8 = digits[i - 1];
        let doubled: u8 = 2 * digit + carry;
        let ghost incoming = carry;
        assert(before.take(i as int).drop_last() =~= before.take(i - 1));
        assert(before.take(i as int).last() == digit);
        carry = if doubled >= 10 {
            1
        } else {
            0
        };
        let kept: u8 = doubled % 10;
        digits.set(i - 1, kept);
        i = i - 1;
        proof {
            let now = digits@.skip(i as int);
            lemma_row_split(now, 1);
            assert(now.skip(1) =~= rest);
            assert(now.take(1).drop_last() =~= Seq::empty());
            assert(row_value(now.take(1)) == kept) by {
                assert(row_value(now.take(1).drop_last()) == 0);
            }
            assert(ten_to((total - i) as nat) == 10 * power);
            assert(2 * digit + incoming == 10 * carry + kept);
            assert((2 * (high * 10 + digit) + incoming) * power == (2 * high + carry) * (10 * power)
                + kept * power) by (nonlinear_arith)
                requires
                    2 * digit + incoming == 10 * carry + kept,
            ;
        }
    }
    proof {
        assert(before.take(0) =~= Seq::empty());
        assert(digits@.skip(0) =~= digits@);
        assert((2 * 0nat + carry) * ten_to(total as nat) == (if carry == 1 {
            ten_to(total as nat)
        } else {
            0
        })) by {
            assert(0 * ten_to(total as nat) == 0);
            assert(1 * ten_to(total as nat) == ten_to(total as nat));
        }
    }
    carry == 1
}

// ---------------------------------------------------------------------------
// The nearest double
// ---------------------------------------------------------------------------

/// Into how many parts doubles cut a unit at `whole`, while they hold more than
/// whole numbers.
pub open spec fn double_scale(whole: nat) -> nat
    decreases DOUBLE_LIMIT - whole,
{
    if whole == 0 {
        DOUBLE_LIMIT as nat
    } else if whole >= HALF_LIMIT {
        1
    } else {
        2 * double_scale(2 * whole)
    }
}

/// The whole part of the double nearest to `over / under`, were there no
/// largest double.
pub open spec fn double_floor(over: nat, under: nat) -> nat {
    let whole = over / under;
    if whole < HALF_LIMIT {
        half_even(over * double_scale(whole), under) / double_scale(whole)
    } else {
        half_even(over, under * double_step(whole)) * double_step(whole)
    }
}

/// From here on doubles hold whole numbers only.
pub const HALF_LIMIT: u64 = 0x10_0000_0000_0000;

/// How often to double in order to multiply by twice the scale at `whole`.
fn doublings(whole: u64) -> (count: u32)
    requires
        whole <= DOUBLE_LIMIT,
    ensures
        two_to(count as nat) == 2 * double_scale(whole as nat),
        1 <= count <= 54,
        whole >= HALF_LIMIT ==> count == 1,
        0 < whole < HALF_LIMIT ==> two_to(count as nat) * whole <= 4 * HALF_LIMIT && count >= 2,
    decreases DOUBLE_LIMIT - whole,
{
    if whole == 0 {
        proof {
            lemma_two_to_54();
        }
        54
    } else if whole >= HALF_LIMIT {
        assert(two_to(1) == 2) by {
            reveal_with_fuel(two_to, 2);
        }
        1
    } else {
        let more: u32 = doublings(2 * whole);
        proof {
            assert(two_to((more + 1) as nat) == 2 * two_to(more as nat));
            if more >= 54 {
                lemma_two_to_54();
                assert(two_to(more as nat) * (2 * whole) > 4 * HALF_LIMIT) by (nonlinear_arith)
                    requires
                        two_to(more as nat) == 2 * DOUBLE_LIMIT,
                        whole >= 1,
                        2 * DOUBLE_LIMIT == 4 * HALF_LIMIT,
                ;
            }
            if 2 * whole >= HALF_LIMIT {
                assert(two_to(more as nat) == 2);
                assert(4 * whole <= 4 * HALF_LIMIT);
            } else {
                let power = two_to(more as nat);
                assert((2 * power) * whole == power * (2 * whole)) by (nonlinear_arith);
            }
        }
        more + 1
    }
}

/// Whether the fraction `digits` is so near to one that `two_to(count)` times
/// what is missing is at most one.
fn nearly_one(digits: &Vec<u8>, count: u32) -> (result: bool)
    requires
        is_row(digits@),
    ensures
        result == ((ten_to(digits@.len()) - row_value(digits@)) * two_to(count as nat) <= ten_to(
            digits@.len(),
        )),
{
    let mut row = copy_row(digits);
    let ghost unit = ten_to(digits@.len());
    let ghost missing = unit - row_value(digits@);
    let mut done: u32 = 0;
    proof {
        lemma_row_bound(digits@);
        assert(missing * two_to(0) == missing) by (nonlinear_arith)
            requires
                two_to(0) == 1,
        ;
    }
    while done < count
        invariant
            done <= count,
            is_row(row@),
            row@.len() == digits@.len(),
            unit == ten_to(digits@.len()),
            missing == unit - row_value(digits@),
            missing > 0,
            missing * two_to(done as nat) == unit - row_value(row@),
        decreases count - done,
    {
        let ghost value = row_value(row@);
        let carry = double_row(&mut row);
        proof {
            lemma_row_bound(row@);
            let power = two_to(done as nat);
            assert(two_to((done + 1) as nat) == 2 * power);
            assert(missing * (2 * power) == 2 * (missing * power)) by (nonlinear_arith);
            if !carry {
                assert(missing * two_to((done + 1) as nat) > unit);
                lemma_two_grows((done + 1) as nat, count as nat);
                let later = two_to(count as nat);
                let sooner = two_to((done + 1) as nat);
                assert(missing * later >= missing * sooner) by (nonlinear_arith)
                    requires
                        later >= sooner,
                        missing > 0,
                ;
            }
        }
        if !carry {
            return false;
        }
        done = done + 1;
    }
    proof {
        lemma_row_bound(row@);
    }
    true
}

fn copy_row(digits: &Vec<u8>) -> (result: Vec<u8>)
    ensures
        result@ == digits@,
{
    let mut row: Vec<u8> = Vec::new();
    let mut i: usize = 0;
    while i < digits.len()
        invariant
            i <= digits@.len(),
            row@ == digits@.take(i as int),
        decreases digits@.len() - i,
    {
        row.push(digits[i]);
        assert(row@ =~= digits@.take(i + 1));
        i = i + 1;
    }
    assert(digits@.take(i as int) =~= digits@);
    row
}

/// Whether a row holds zeros only.
fn is_zero(digits: &Vec<u8>) -> (result: bool)
    requires
        is_row(digits@),
    ensures
        result == (row_value(digits@) == 0),
{
    let mut i: usize = 0;
    assert(row_value(digits@.take(0)) == 0);
    while i < digits.len()
        invariant
            i <= digits@.len(),
            row_value(digits@.take(i as int)) == 0,
        decreases digits@.len() - i,
    {
        assert(digits@.take(i + 1).drop_last() =~= digits@.take(i as int));
        if digits[i] != 0 {
            proof {
                lemma_row_split(digits@, i + 1);
                lemma_ten_positive((digits@.len() - i - 1) as nat);
                let head = row_value(digits@.take(i + 1));
                let power = ten_to((digits@.len() - i - 1) as nat);
                assert(head * power >= 1) by (nonlinear_arith)
                    requires
                        head >= 1,
                        power >= 1,
                ;
            }
            return false;
        }
        i = i + 1;
    }
    assert(digits@.take(i as int) =~= digits@);
    true
}

proof fn lemma_two_grows(one: nat, other: nat)
    requires
        one <= other,
    ensures
        two_to(one) <= two_to(other),
    decreases other - one,
{
    if one < other {
        lemma_two_grows(one, (other - 1) as nat);
        lemma_two_positive((other - 1) as nat);
    }
}

/// Below 2^52 the nearest double reaches the next whole number only from within
/// half a part of it.
proof fn lemma_small_floor(whole: nat, rest: nat, under: nat, scale: nat)
    requires
        rest < under,
        scale >= 2,
        scale % 2 == 0,
    ensures
        half_even((whole * under + rest) * scale, under) / scale == whole + (if (under - rest) * (2
            * scale) <= under {
            1nat
        } else {
            0nat
        }),
{
    let over = (whole * under + rest) * scale;
    let parts = rest * scale / under;
    let left = rest * scale % under;
    vstd::arithmetic::div_mod::lemma_fundamental_div_mod((rest * scale) as int, under as int);
    assert(0 <= parts < scale) by (nonlinear_arith)
        requires
            rest * scale == under * parts + left,
            0 <= left,
            rest < under,
            scale >= 2,
            under > 0,
            parts == rest * scale / under,
    ;
    assert(over == (whole * scale + parts) * under + left) by (nonlinear_arith)
        requires
            over == (whole * under + rest) * scale,
            rest * scale == under * parts + left,
    ;
    vstd::arithmetic::div_mod::lemma_fundamental_div_mod_converse(
        over as int,
        under as int,
        (whole * scale + parts) as int,
        left as int,
    );
    let quotient = whole * scale + parts;
    assert(over / under == quotient && over % under == left);
    assert(quotient / scale == whole) by {
        vstd::arithmetic::div_mod::lemma_fundamental_div_mod_converse(
            quotient as int,
            scale as int,
            whole as int,
            parts as int,
        );
    }
    if parts == scale - 1 {
        assert((quotient + 1) / scale == whole + 1) by {
            assert(quotient + 1 == (whole + 1) * scale) by (nonlinear_arith)
                requires
                    quotient == whole * scale + scale - 1,
            ;
            vstd::arithmetic::div_mod::lemma_fundamental_div_mod_converse(
                (quotient + 1) as int,
                scale as int,
                (whole + 1) as int,
                0,
            );
        }
        assert(quotient % 2 == 1) by {
            let half = scale / 2;
            assert(scale == 2 * half);
            assert(quotient == 2 * (whole * half + half - 1) + 1) by (nonlinear_arith)
                requires
                    quotient == whole * scale + scale - 1,
                    scale == 2 * half,
            ;
        }
        assert((under - rest) * (2 * scale) == 2 * (under - left)) by (nonlinear_arith)
            requires
                rest * scale == under * (scale - 1) + left,
        ;
    } else {
        assert((quotient + 1) / scale == whole) by {
            vstd::arithmetic::div_mod::lemma_fundamental_div_mod_converse(
                (quotient + 1) as int,
                scale as int,
                whole as int,
                (parts + 1) as int,
            );
        }
        assert((under - rest) * (2 * scale) > under) by (nonlinear_arith)
            requires
                rest * scale == under * parts + left,
                left < under,
                parts <= scale - 2,
                under > 0,
        ;
    }
}

/// From 2^52 on the nearest double is a multiple of the step.
proof fn lemma_large_floor(whole: nat, rest: nat, under: nat, step: nat)
    requires
        rest < under,
        step >= 1,
    ensures
        ({
            let over = whole * under + rest;
            &&& over / (under * step) == whole / step
            &&& over % (under * step) == (whole % step) * under + rest
        }),
{
    let over = whole * under + rest;
    let quotient = whole / step;
    let left = whole % step;
    vstd::arithmetic::div_mod::lemma_fundamental_div_mod(whole as int, step as int);
    assert(over == quotient * (under * step) + (left * under + rest)) by (nonlinear_arith)
        requires
            over == whole * under + rest,
            whole == step * quotient + left,
    ;
    assert(left * under + rest < under * step) by (nonlinear_arith)
        requires
            left <= step - 1,
            rest < under,
    ;
    vstd::arithmetic::div_mod::lemma_fundamental_div_mod_converse(
        over as int,
        (under * step) as int,
        quotient as int,
        (left * under + rest) as int,
    );
}

/// The whole part of the double nearest to `whole` and the fraction `digits`.
fn nearest_whole(whole: u64, digits: &Vec<u8>) -> (result: u128)
    requires
        is_row(digits@),
    ensures
        result == double_floor(
            whole as nat * ten_to(digits@.len()) + row_value(digits@),
            ten_to(digits@.len()),
        ),
        result <= 2 * whole + 1,
{
    let ghost under = ten_to(digits@.len());
    let ghost rest = row_value(digits@);
    let ghost over = whole as nat * under + rest;
    proof {
        lemma_row_bound(digits@);
        lemma_ten_positive(digits@.len());
        vstd::arithmetic::div_mod::lemma_fundamental_div_mod_converse(
            over as int,
            under as int,
            whole as int,
            rest as int,
        );
    }
    if whole < HALF_LIMIT {
        let count: u32 = doublings(whole);
        proof {
            let scale = double_scale(whole as nat);
            assert(two_to(count as nat) == 2 * two_to((count - 1) as nat));
            assert(two_to((count - 1) as nat) == 2 * two_to((count - 2) as nat));
            lemma_two_positive((count - 2) as nat);
            lemma_small_floor(whole as nat, rest, under, scale);
        }
        if nearly_one(digits, count) {
            whole as u128 + 1
        } else {
            whole as u128
        }
    } else {
        let step: u128 = step_at(whole as u128);
        let quotient: u128 = whole as u128 / step;
        let left: u128 = whole as u128 % step;
        proof {
            lemma_large_floor(whole as nat, rest, under, step as nat);
            vstd::arithmetic::div_mod::lemma_fundamental_div_mod(whole as int, step as int);
        }
        let ghost twice = 2 * (left as nat * under + rest);
        let ghost full = under * step as nat;
        let up = if step == 1 {
            let mut row = copy_row(digits);
            let carry = double_row(&mut row);
            let zero = is_zero(&row);
            proof {
                lemma_row_bound(row@);
                assert(left == 0);
                assert(left as nat * under == 0) by (nonlinear_arith)
                    requires
                        left == 0,
                ;
                assert(full == under) by (nonlinear_arith)
                    requires
                        full == under * step as nat,
                        step == 1,
                ;
            }
            carry && (!zero || quotient % 2 == 1)
        } else {
            let half: u128 = step / 2;
            let zero = is_zero(digits);
            proof {
                assert(full == 2 * (half as nat * under)) by (nonlinear_arith)
                    requires
                        full == under * step as nat,
                        step == 2 * half,
                ;
                if left < half {
                    assert(left as nat * under + under <= half as nat * under) by (nonlinear_arith)
                        requires
                            left + 1 <= half,
                    ;
                } else if left > half {
                    assert(left as nat * under >= half as nat * under + under) by (nonlinear_arith)
                        requires
                            left >= half + 1,
                    ;
                }
            }
            left > half || (left == half && (!zero || quotient % 2 == 1))
        };
        proof {
            assert(up == !(twice < full || (twice == full && quotient % 2 == 0)));
            assert((quotient + 1) * step <= whole + step) by (nonlinear_arith)
                requires
                    whole == step * quotient + left,
                    left >= 0,
            ;
            assert(quotient * step <= whole) by (nonlinear_arith)
                requires
                    whole == step * quotient + left,
                    left >= 0,
            ;
        }
        if up {
            (quotient + 1) * step
        } else {
            quotient * step
        }
    }
}

proof fn lemma_step(value: nat)
    ensures
        double_step(value) == 1 || double_step(value) * HALF_LIMIT <= value,
        1 <= double_step(value),
    decreases value,
{
    if value >= DOUBLE_LIMIT {
        lemma_step(value / 2);
    }
}

/// A quantity beyond 2^64 has a nearest double beyond 2^63.
proof fn lemma_huge_floor(over: nat, under: nat)
    requires
        0 < under,
        over / under >= 0x1_0000_0000_0000_0000,
    ensures
        double_floor(over, under) >= 0x8000_0000_0000_0000,
{
    let whole = over / under;
    let rest = over % under;
    let step = double_step(whole);
    vstd::arithmetic::div_mod::lemma_fundamental_div_mod(over as int, under as int);
    assert(over == whole * under + rest) by (nonlinear_arith)
        requires
            over == under * whole + rest,
    ;
    lemma_step(whole);
    lemma_large_floor(whole, rest, under, step);
    vstd::arithmetic::div_mod::lemma_fundamental_div_mod(whole as int, step as int);
    let quotient = whole / step;
    let rounded = half_even(over, under * step);
    assert(rounded >= quotient);
    assert(rounded * step >= quotient * step) by (nonlinear_arith)
        requires
            rounded >= quotient,
    ;
    assert(quotient * step == step * quotient) by (nonlinear_arith);
    assert(step * quotient > whole - step);
    assert(2 * step <= whole);
}

/// A quantity of at most a tenth has a nearest double below one.
proof fn lemma_tiny_floor(over: nat, under: nat)
    requires
        0 < under,
        10 * over <= under,
    ensures
        double_floor(over, under) == 0,
{
    vstd::arithmetic::div_mod::lemma_fundamental_div_mod_converse(
        over as int,
        under as int,
        0,
        over as int,
    );
    let scale = double_scale(0);
    lemma_small_floor(0, over, under, scale);
    assert(0 * under + over == over);
    assert((under - over) * (2 * scale) > under) by (nonlinear_arith)
        requires
            10 * over <= under,
            0 < under,
            scale >= 2,
    ;
}

/// The upper part of `value` times ten to `exponent`.
pub open spec fn scaled_over(value: nat, exponent: int) -> nat {
    if exponent >= 0 {
        value * ten_to(exponent as nat)
    } else {
        value
    }
}

/// The lower part of a number times ten to `exponent`.
pub open spec fn scaled_under(exponent: int) -> nat {
    if exponent >= 0 {
        1
    } else {
        ten_to((-exponent) as nat)
    }
}

/// Whether a row of `length` digits has the same size with either exponent, as
/// far as that matters: both are the same, both huge, or both tiny.
spec fn exponents_agree(length: nat, one: int, other: int) -> bool {
    ||| one == other
    ||| one >= HUGE_EXPONENT && other >= HUGE_EXPONENT
    ||| one + length < 0 && other + length < 0
}

/// Beyond this exponent nothing but zero is a double.
const HUGE_EXPONENT: u64 = 1_000;

spec fn least(one: nat, other: nat) -> nat {
    if one <= other {
        one
    } else {
        other
    }
}

proof fn lemma_huge_exponent(value: nat, exponent: int)
    requires
        value > 0,
        exponent >= HUGE_EXPONENT,
    ensures
        double_floor(scaled_over(value, exponent), scaled_under(exponent)) >= 0x8000_0000_0000_0000,
{
    assert(ten_to(20) >= 0x1_0000_0000_0000_0000) by {
        reveal_with_fuel(ten_to, 21);
    }
    lemma_ten_grows(20, exponent as nat);
    let power = ten_to(exponent as nat);
    assert(value * power >= power) by (nonlinear_arith)
        requires
            value > 0,
    ;
    let over = value * power;
    assert(over / 1 == over);
    lemma_huge_floor(over, 1);
}

proof fn lemma_tiny_exponent(value: nat, length: nat, exponent: int)
    requires
        value < ten_to(length),
        exponent + length < 0,
    ensures
        double_floor(scaled_over(value, exponent), scaled_under(exponent)) == 0,
        10 * value < scaled_under(exponent),
{
    let under = ten_to((-exponent) as nat);
    lemma_ten_grows(length + 1, (-exponent) as nat);
    assert(ten_to(length + 1) == 10 * ten_to(length));
    lemma_tiny_floor(value, under);
}

/// The whole part of the double nearest to zero, whatever the exponent.
proof fn lemma_zero_floor(exponent: int)
    ensures
        double_floor(scaled_over(0, exponent), scaled_under(exponent)) == 0,
{
    let under = scaled_under(exponent);
    if exponent < 0 {
        lemma_ten_positive((-exponent) as nat);
    } else {
        assert(0 * ten_to(exponent as nat) == 0);
    }
    lemma_tiny_floor(0, under);
}

/// `digits[from..to]` as a number, unless it leaves 64 bits.
fn row_number(digits: &Vec<u8>, to: usize) -> (result: Option<u64>)
    requires
        is_row(digits@),
        to <= digits@.len(),
    ensures
        match result {
            Some(value) => value == row_value(digits@.take(to as int)),
            None => row_value(digits@.take(to as int)) >= 0x1_0000_0000_0000_0000,
        },
{
    let mut value: u128 = 0;
    let mut i: usize = 0;
    assert(row_value(digits@.take(0)) == 0);
    while i < to
        invariant
            i <= to <= digits@.len(),
            is_row(digits@),
            value == row_value(digits@.take(i as int)),
            value < 0x1_0000_0000_0000_0000,
        decreases to - i,
    {
        assert(digits@.take(i + 1).drop_last() =~= digits@.take(i as int));
        value = value * 10 + digits[i] as u128;
        i = i + 1;
        if value >= 0x1_0000_0000_0000_0000 {
            proof {
                let whole = digits@.take(to as int);
                lemma_row_split(whole, i as int);
                assert(whole.take(i as int) =~= digits@.take(i as int));
                lemma_ten_positive((to - i) as nat);
                let power = ten_to((to - i) as nat);
                assert(value as nat * power >= value) by (nonlinear_arith)
                    requires
                        power >= 1,
                ;
            }
            return None;
        }
    }
    Some(value as u64)
}

/// `value` times ten to `exponent`, unless that leaves 64 bits.
fn scaled_number(value: u64, exponent: i128) -> (result: Option<u64>)
    requires
        0 < value,
        0 <= exponent,
    ensures
        match result {
            Some(scaled) => scaled == value * ten_to(exponent as nat),
            None => value * ten_to(exponent as nat) >= 0x1_0000_0000_0000_0000,
        },
{
    let mut scaled: u128 = value as u128;
    let mut done: i128 = 0;
    assert(value * ten_to(0) == value) by (nonlinear_arith)
        requires
            ten_to(0) == 1,
    ;
    while done < exponent
        invariant
            0 <= done <= exponent,
            0 < scaled < 0x1_0000_0000_0000_0000,
            scaled == value * ten_to(done as nat),
        decreases exponent - done,
    {
        proof {
            let power = ten_to(done as nat);
            assert(ten_to((done + 1) as nat) == 10 * power);
            assert(value * (10 * power) == 10 * (value * power)) by (nonlinear_arith);
        }
        scaled = scaled * 10;
        done = done + 1;
        if scaled >= 0x1_0000_0000_0000_0000 {
            proof {
                lemma_ten_grows(done as nat, exponent as nat);
                let later = ten_to(exponent as nat);
                let sooner = ten_to(done as nat);
                assert(value * later >= value * sooner) by (nonlinear_arith)
                    requires
                        later >= sooner,
                ;
            }
            return None;
        }
    }
    Some(scaled as u64)
}

fn row_from(digits: &Vec<u8>, from: usize) -> (result: Vec<u8>)
    requires
        from <= digits@.len(),
    ensures
        result@ == digits@.skip(from as int),
{
    let mut row: Vec<u8> = Vec::new();
    let mut i: usize = from;
    assert(row@ =~= digits@.subrange(from as int, from as int));
    while i < digits.len()
        invariant
            from <= i <= digits@.len(),
            row@ == digits@.subrange(from as int, i as int),
        decreases digits@.len() - i,
    {
        row.push(digits[i]);
        assert(row@ =~= digits@.subrange(from as int, i + 1));
        i = i + 1;
    }
    assert(row@ =~= digits@.skip(from as int));
    row
}

/// The whole part of the double nearest to a row of digits with its point after
/// the first `point` of them, but at most `cap`.
fn capped_whole(digits: &Vec<u8>, point: i128, cap: u64) -> (result: u64)
    requires
        is_row(digits@),
        cap <= 0x8000_0000_0000_0000,
    ensures
        forall|exponent: int|
            exponents_agree(digits@.len(), exponent, point - digits@.len()) ==> result == least(
                cap as nat,
                #[trigger] double_floor(
                    scaled_over(row_value(digits@), exponent),
                    scaled_under(exponent),
                ),
            ),
{
    let total: usize = digits.len();
    let ghost value = row_value(digits@);
    let ghost own = point - total;
    proof {
        lemma_row_bound(digits@);
    }
    if is_zero(digits) {
        assert forall|exponent: int| exponents_agree(digits@.len(), exponent, own) implies 0
            == least(
            cap as nat,
            #[trigger] double_floor(scaled_over(value, exponent), scaled_under(exponent)),
        ) by {
            lemma_zero_floor(exponent);
        }
        return 0;
    }
    if point < 0 {
        assert forall|exponent: int| exponents_agree(digits@.len(), exponent, own) implies 0
            == least(
            cap as nat,
            #[trigger] double_floor(scaled_over(value, exponent), scaled_under(exponent)),
        ) by {
            lemma_tiny_exponent(value, digits@.len(), exponent);
        }
        return 0;
    }
    let whole: Option<u64>;
    let rest: Vec<u8>;
    if point <= total as i128 {
        let at: usize = point as usize;
        whole = row_number(digits, at);
        rest = row_from(digits, at);
        proof {
            lemma_row_split(digits@, at as int);
            lemma_row_bound(rest@);
            lemma_ten_positive(rest@.len());
            assert(scaled_over(value, own) == value) by {
                if own >= 0 {
                    assert(value * ten_to(0) == value) by (nonlinear_arith)
                        requires
                            ten_to(0) == 1,
                    ;
                }
            }
            assert(scaled_under(own) == ten_to(rest@.len()));
        }
    } else {
        whole = match row_number(digits, total) {
            Some(number) => {
                assert(digits@.take(total as int) =~= digits@);
                scaled_number(number, point - total as i128)
            },
            None => None,
        };
        rest = Vec::new();
        proof {
            assert(digits@.take(total as int) =~= digits@);
            let power = ten_to(own as nat);
            lemma_ten_positive(own as nat);
            assert(value * power >= value) by (nonlinear_arith)
                requires
                    power >= 1,
            ;
            assert(row_value(rest@) == 0);
            assert(ten_to(rest@.len()) == 1);
        }
    }
    let ghost over = scaled_over(value, own);
    let ghost under = scaled_under(own);
    let result: u64 = match whole {
        Some(whole) => {
            let nearest: u128 = nearest_whole(whole, &rest);
            proof {
                assert(over == whole as nat * ten_to(rest@.len()) + row_value(rest@));
            }
            if nearest <= cap as u128 {
                nearest as u64
            } else {
                cap
            }
        },
        None => {
            proof {
                if point <= total {
                    let head = row_value(digits@.take(point as int));
                    vstd::arithmetic::div_mod::lemma_fundamental_div_mod_converse(
                        over as int,
                        under as int,
                        head as int,
                        row_value(rest@) as int,
                    );
                } else {
                    assert(over / 1 == over);
                }
                lemma_huge_floor(over, under);
            }
            cap
        },
    };
    proof {
        assert(result == least(cap as nat, double_floor(over, under)));
        assert forall|exponent: int| exponents_agree(digits@.len(), exponent, own) implies result
            == least(
            cap as nat,
            #[trigger] double_floor(scaled_over(value, exponent), scaled_under(exponent)),
        ) by {
            if exponent != own {
                lemma_huge_exponent(value, exponent);
                lemma_huge_exponent(value, own);
            }
        }
    }
    result
}

// ---------------------------------------------------------------------------
// The largest double
// ---------------------------------------------------------------------------

/// From here on the nearest double is infinite: halfway between the largest
/// double and 2^1024.
pub open spec fn infinity_limit() -> nat {
    (0x3f_ffff_ffff_ffffnat) * two_to(970)
}

/// Whether the double nearest to `over / under` is infinite.
pub open spec fn overflows(over: nat, under: nat) -> bool {
    over >= infinity_limit() * under
}

/// The digits of `infinity_limit()`.
fn limit_row() -> (result: Vec<u8>)
    ensures
        is_row(result@),
        row_value(result@) == infinity_limit(),
        0 < result@.len() <= HUGE_EXPONENT,
        result@[0] > 0,
{
    let mut row: Vec<u8> = Vec::new();
    let start: [u8; 17] = [1, 8, 0, 1, 4, 3, 9, 8, 5, 0, 9, 4, 8, 1, 9, 8, 3];
    let mut i: usize = 0;
    while i < 17
        invariant
            i <= 17,
            start@ == seq![
                1u8,
                8u8,
                0u8,
                1u8,
                4u8,
                3u8,
                9u8,
                8u8,
                5u8,
                0u8,
                9u8,
                4u8,
                8u8,
                1u8,
                9u8,
                8u8,
                3u8,
            ],
            row@ == start@.take(i as int),
        decreases 17 - i,
    {
        row.push(start[i]);
        assert(row@ =~= start@.take(i + 1));
        i = i + 1;
    }
    proof {
        assert(row@ =~= start@);
        reveal_with_fuel(row_value, 18);
        assert(row_value(row@) == 0x3f_ffff_ffff_ffff);
        assert(two_to(0) == 1);
    }
    let mut done: u32 = 0;
    while done < 970
        invariant
            done <= 970,
            is_row(row@),
            0 < row@.len() <= 17 + done,
            row@[0] > 0,
            row_value(row@) == 0x3f_ffff_ffff_ffffnat * two_to(done as nat),
        decreases 970 - done,
    {
        let ghost before = row@;
        let carry = double_row(&mut row);
        let ghost doubled = row@;
        if carry {
            row.insert(0, 1);
            proof {
                lemma_row_split(row@, 1);
                assert(row@.skip(1) =~= doubled);
                assert(row@.take(1).drop_last() =~= Seq::empty());
                assert(row_value(row@.take(1).drop_last()) == 0);
                assert(row_value(row@.take(1)) == 1);
                assert(1 * ten_to(doubled.len()) == ten_to(doubled.len()));
            }
        } else {
            proof {
                lemma_leading_digit(before, doubled);
            }
        }
        proof {
            let power = two_to(done as nat);
            assert(two_to((done + 1) as nat) == 2 * power);
            assert(0x3f_ffff_ffff_ffffnat * (2 * power) == 2 * (0x3f_ffff_ffff_ffffnat * power))
                by (nonlinear_arith);
        }
        done = done + 1;
    }
    row
}

/// A row that stands for more than another of its length cannot start with
/// zero where the other does not.
proof fn lemma_leading_digit(smaller: Seq<u8>, larger: Seq<u8>)
    requires
        is_row(smaller),
        is_row(larger),
        0 < smaller.len(),
        smaller.len() == larger.len(),
        smaller[0] > 0,
        row_value(smaller) <= row_value(larger),
    ensures
        larger[0] > 0,
{
    if larger[0] == 0 {
        lemma_row_split(smaller, 1);
        lemma_row_split(larger, 1);
        lemma_row_bound(larger.skip(1));
        assert(smaller.take(1).drop_last() =~= Seq::empty());
        assert(larger.take(1).drop_last() =~= Seq::empty());
        assert(row_value(Seq::<u8>::empty()) == 0);
        assert(row_value(smaller.take(1)) == smaller[0]);
        assert(row_value(larger.take(1)) == 0);
        let power = ten_to((smaller.len() - 1) as nat);
        assert(smaller[0] * power >= power) by (nonlinear_arith)
            requires
                smaller[0] >= 1,
        ;
        assert(0 * power == 0) by (nonlinear_arith);
    }
}

/// The digit of a row at `i`; beyond its end the row goes on with zeros.
spec fn digit_or_zero(digits: Seq<u8>, i: int) -> u8 {
    if 0 <= i < digits.len() {
        digits[i]
    } else {
        0
    }
}

/// The first `length` digits of a row that goes on with zeros.
spec fn padded(digits: Seq<u8>, length: nat) -> Seq<u8> {
    Seq::new(length, |i: int| digit_or_zero(digits, i))
}

/// Whether a row of digits, with its point after the first `point` of them, is
/// too large for a double.
fn is_too_large(digits: &Vec<u8>, point: i128) -> (result: bool)
    requires
        is_row(digits@),
        -0x4000_0000_0000_0000_0000_0000_0000_0000 <= point,
    ensures
        forall|exponent: int|
            exponents_agree(digits@.len(), exponent, point - digits@.len()) ==> result
                == #[trigger] overflows(
                scaled_over(row_value(digits@), exponent),
                scaled_under(exponent),
            ),
{
    let ghost value = row_value(digits@);
    let ghost own = point - digits@.len();
    let total: usize = digits.len();
    let limit = limit_row();
    let places: usize = limit.len();
    let mut skipped: usize = 0;
    proof {
        lemma_row_bound(digits@);
        lemma_row_bound(limit@);
    }
    assert(row_value(digits@.take(0)) == 0);
    while skipped < total && digits[skipped] == 0
        invariant
            skipped <= total,
            total == digits@.len(),
            row_value(digits@.take(skipped as int)) == 0,
        decreases total - skipped,
    {
        assert(digits@.take(skipped + 1).drop_last() =~= digits@.take(skipped as int));
        skipped = skipped + 1;
    }
    if skipped == total {
        proof {
            assert(digits@.take(total as int) =~= digits@);
            lemma_limit_positive();
            assert forall|exponent: int| exponents_agree(
                digits@.len(),
                exponent,
                own,
            ) implies !(#[trigger] overflows(
                scaled_over(value, exponent),
                scaled_under(exponent),
            )) by {
                lemma_zero_is_finite(exponent);
            }
        }
        return false;
    }
    let row = row_from(digits, skipped);
    let before_point: i128 = point - skipped as i128;
    proof {
        lemma_row_split(digits@, skipped as int);
        assert(row_value(row@) == value) by {
            assert(0 * ten_to((digits@.len() - skipped) as nat) == 0);
        }
        assert(row@[0] == digits@[skipped as int]);
        assert(is_row(row@)) by {
            assert forall|i: int| 0 <= i < row@.len() implies #[trigger] row@[i] < 10 by {
                assert(row@[i] == digits@[skipped + i]);
            }
        }
        assert(own == before_point - row@.len());
    }
    let result = if before_point > places as i128 {
        true
    } else if before_point < places as i128 {
        false
    } else {
        reaches(&row, &limit)
    };
    proof {
        lemma_size(row@, limit@, before_point as int);
        assert forall|exponent: int| exponents_agree(digits@.len(), exponent, own) implies result
            == #[trigger] overflows(scaled_over(value, exponent), scaled_under(exponent)) by {
            if exponent != own {
                lemma_size(row@, limit@, exponent + row@.len());
            }
        }
    }
    result
}

proof fn lemma_limit_positive()
    ensures
        infinity_limit() > 0,
{
    lemma_two_positive(970);
    let power = two_to(970);
    assert(0x3f_ffff_ffff_ffffnat * power > 0) by (nonlinear_arith)
        requires
            power > 0,
    ;
}

proof fn lemma_zero_is_finite(exponent: int)
    ensures
        !overflows(scaled_over(0, exponent), scaled_under(exponent)),
{
    lemma_limit_positive();
    let under = scaled_under(exponent);
    if exponent < 0 {
        lemma_ten_positive((-exponent) as nat);
    } else {
        assert(0 * ten_to(exponent as nat) == 0);
    }
    let limit = infinity_limit();
    assert(limit * under > 0) by (nonlinear_arith)
        requires
            limit > 0,
            under > 0,
    ;
}

/// Whether `row`, cut or filled up with zeros to the length of `limit`, stands
/// for at least as much.
fn reaches(row: &Vec<u8>, limit: &Vec<u8>) -> (result: bool)
    requires
        is_row(row@),
        is_row(limit@),
    ensures
        result == (row_value(padded(row@, limit@.len())) >= row_value(limit@)),
{
    let ghost filled = padded(row@, limit@.len());
    let mut i: usize = 0;
    while i < limit.len()
        invariant
            i <= limit@.len(),
            is_row(row@),
            is_row(limit@),
            filled == padded(row@, limit@.len()),
            filled.take(i as int) == limit@.take(i as int),
        decreases limit@.len() - i,
    {
        let digit: u8 = if i < row.len() {
            row[i]
        } else {
            0
        };
        assert(filled[i as int] == digit);
        if digit != limit[i] {
            proof {
                if digit > limit@[i as int] {
                    lemma_first_difference(limit@, filled, i as int);
                } else {
                    lemma_first_difference(filled, limit@, i as int);
                }
            }
            return digit > limit[i];
        }
        assert(filled.take(i + 1) =~= filled.take(i as int).push(digit));
        assert(limit@.take(i + 1) =~= limit@.take(i as int).push(digit));
        i = i + 1;
    }
    assert(filled.take(i as int) =~= filled);
    assert(limit@.take(i as int) =~= limit@);
    true
}

/// Of two rows of the same length the one with the larger digit at the first
/// difference stands for more.
proof fn lemma_first_difference(smaller: Seq<u8>, larger: Seq<u8>, at: int)
    requires
        is_row(smaller),
        is_row(larger),
        smaller.len() == larger.len(),
        0 <= at < smaller.len(),
        smaller.take(at) == larger.take(at),
        smaller[at] < larger[at],
    ensures
        row_value(smaller) < row_value(larger),
{
    lemma_row_split(smaller, at + 1);
    lemma_row_split(larger, at + 1);
    assert(smaller.take(at + 1).drop_last() =~= smaller.take(at));
    assert(larger.take(at + 1).drop_last() =~= larger.take(at));
    lemma_row_bound(smaller.skip(at + 1));
    let power = ten_to((smaller.len() - at - 1) as nat);
    let low = row_value(smaller.take(at + 1));
    let high = row_value(larger.take(at + 1));
    assert(high >= low + 1);
    assert(high * power >= low * power + power) by (nonlinear_arith)
        requires
            high >= low + 1,
    ;
}

/// A row of digits without leading zeros, with its point after the first
/// `point` of them, against the limit.
proof fn lemma_size(row: Seq<u8>, limit: Seq<u8>, point: int)
    requires
        is_row(row),
        is_row(limit),
        0 < row.len(),
        row[0] > 0,
        0 < limit.len(),
        limit[0] > 0,
        row_value(limit) == infinity_limit(),
    ensures
        ({
            let exponent = point - row.len();
            overflows(scaled_over(row_value(row), exponent), scaled_under(exponent)) == (if point
                > limit.len() {
                true
            } else if point < limit.len() {
                false
            } else {
                row_value(padded(row, limit.len())) >= row_value(limit)
            })
        }),
{
    let exponent = point - row.len();
    let value = row_value(row);
    let over = scaled_over(value, exponent);
    let under = scaled_under(exponent);
    let bound = infinity_limit();
    lemma_row_bound(row);
    lemma_row_bound(limit);
    lemma_row_reaches(row);
    lemma_row_reaches(limit);
    let low = ten_to((row.len() - 1) as nat);
    if exponent >= 0 {
        let power = ten_to(exponent as nat);
        lemma_ten_positive(exponent as nat);
        lemma_ten_adds((row.len() - 1) as nat, exponent as nat);
        lemma_ten_adds(row.len(), exponent as nat);
        assert(value * power >= low * power) by (nonlinear_arith)
            requires
                value >= low,
        ;
        assert(bound * 1 == bound);
        assert(value * power < ten_to(row.len()) * power) by (nonlinear_arith)
            requires
                value < ten_to(row.len()),
                power > 0,
        ;
        if point > limit.len() {
            lemma_ten_grows(limit.len(), (row.len() - 1 + exponent) as nat);
        } else if point < limit.len() {
            lemma_ten_grows((row.len() + exponent) as nat, (limit.len() - 1) as nat);
        } else {
            let filled = padded(row, limit.len());
            lemma_row_split(filled, row.len() as int);
            assert(filled.take(row.len() as int) =~= row);
            lemma_zeros(filled.skip(row.len() as int));
        }
    } else {
        let power = ten_to((-exponent) as nat);
        lemma_ten_positive((-exponent) as nat);
        if point > limit.len() {
            lemma_ten_adds(limit.len(), (-exponent) as nat);
            lemma_ten_grows((limit.len() - exponent) as nat, (row.len() - 1) as nat);
            assert(bound * power <= ten_to(limit.len()) * power) by (nonlinear_arith)
                requires
                    bound <= ten_to(limit.len()),
            ;
        } else if point < limit.len() {
            lemma_ten_adds((limit.len() - 1) as nat, (-exponent) as nat);
            lemma_ten_grows(row.len(), (limit.len() - 1 - exponent) as nat);
            assert(bound * power >= ten_to((limit.len() - 1) as nat) * power) by (nonlinear_arith)
                requires
                    bound >= ten_to((limit.len() - 1) as nat),
            ;
        } else {
            let filled = padded(row, limit.len());
            lemma_row_split(row, point);
            assert(row.take(point) =~= filled);
            lemma_row_bound(row.skip(point));
            let head = row_value(filled);
            if head >= bound {
                assert(head * power >= bound * power) by (nonlinear_arith)
                    requires
                        head >= bound,
                ;
            } else {
                assert(head * power + power <= bound * power) by (nonlinear_arith)
                    requires
                        head + 1 <= bound,
                ;
            }
        }
    }
}

/// A row without a leading zero uses all its places.
proof fn lemma_row_reaches(row: Seq<u8>)
    requires
        is_row(row),
        0 < row.len(),
        row[0] > 0,
    ensures
        row_value(row) >= ten_to((row.len() - 1) as nat),
{
    lemma_row_split(row, 1);
    assert(row.take(1).drop_last() =~= Seq::empty());
    assert(row_value(Seq::<u8>::empty()) == 0);
    assert(row_value(row.take(1)) == row[0]);
    let power = ten_to((row.len() - 1) as nat);
    assert(row[0] * power >= power) by (nonlinear_arith)
        requires
            row[0] >= 1,
    ;
}

/// A row of zeros stands for zero.
proof fn lemma_zeros(row: Seq<u8>)
    requires
        forall|i: int| 0 <= i < row.len() ==> row[i] == 0,
    ensures
        row_value(row) == 0,
    decreases row.len(),
{
    if row.len() > 0 {
        lemma_zeros(row.drop_last());
    }
}

// ---------------------------------------------------------------------------
// Reading
// ---------------------------------------------------------------------------

/// A quantity as a program prints it.
pub ghost enum QuantityView {
    NotANumber,
    Infinite { negative: bool },
    /// `over / under`, or its negative.
    Finite { negative: bool, over: nat, under: nat },
}

/// What stands behind the sign of `text`.
pub open spec fn unsigned(text: Seq<char>) -> Seq<char> {
    if text.len() > 0 && (text[0] == '-' || text[0] == '+') {
        text.skip(1)
    } else {
        text
    }
}

pub open spec fn has_minus(text: Seq<char>) -> bool {
    text.len() > 0 && text[0] == '-'
}

/// The exponent that a text writes out: digits, with or without a sign.
pub open spec fn exponent_in(text: Seq<char>) -> Option<int> {
    let digits = unsigned(text);
    if digits.len() == 0 || !all_digits(digits) {
        None
    } else if has_minus(text) {
        Some(-(digits_value(digits) as int))
    } else {
        Some(digits_value(digits) as int)
    }
}

/// The digits that a text writes out, and the power of ten they count:
/// digits, with or without a point among them.
pub open spec fn mantissa_in(text: Seq<char>) -> Option<(Seq<char>, int)> {
    let parts = split_parts(text, '.');
    let digits = if parts.len() == 1 {
        parts[0]
    } else {
        parts[0] + parts[1]
    };
    let exponent: int = if parts.len() == 1 {
        0
    } else {
        -(parts[1].len() as int)
    };
    if parts.len() > 2 || digits.len() == 0 || !all_digits(digits) {
        None
    } else {
        Some((digits, exponent))
    }
}

/// The digits that a text writes out, and the power of ten they count, with an
/// exponent behind an `e` taken into account.
pub open spec fn decimal_in(text: Seq<char>) -> Option<(Seq<char>, int)> {
    let halves = split_parts(text, 'e');
    match mantissa_in(halves[0]) {
        Some((digits, shift)) => if halves.len() == 1 {
            Some((digits, shift))
        } else if halves.len() == 2 {
            match exponent_in(halves[1]) {
                Some(exponent) => Some((digits, shift + exponent)),
                None => None,
            }
        } else {
            None
        },
        None => None,
    }
}

/// The quantity that a text writes out: a decimal numeral with or without
/// sign, point and exponent, or the name of an infinite or missing quantity.
/// Letters may be upper or lower case.
pub open spec fn quantity_in(text: Seq<char>) -> Option<QuantityView> {
    let negative = has_minus(text);
    let body = ascii_lowered(unsigned(text));
    if body == "nan"@ {
        Some(QuantityView::NotANumber)
    } else if body == "inf"@ || body == "infinity"@ {
        Some(QuantityView::Infinite { negative })
    } else {
        match decimal_in(body) {
            Some((digits, exponent)) => Some(
                QuantityView::Finite {
                    negative,
                    over: scaled_over(digits_value(digits), exponent),
                    under: scaled_under(exponent),
                },
            ),
            None => None,
        }
    }
}

enum Numeral {
    NotANumber,
    Infinite { negative: bool },
    Finite { negative: bool, digits: Vec<u8>, point: i128 },
}

/// Beyond this number an exponent is not followed.
const EXPONENT_CAP: i128 = 1_000_000_000_000_000_000_000_000_000_000;

fn row_of(text: &str) -> (result: Option<Vec<u8>>)
    ensures
        match result {
            Some(row) => all_digits(text@) && is_row(row@) && row@.len() == text@.len()
                && row_value(row@) == digits_value(text@),
            None => !all_digits(text@),
        },
{
    let chars = chars_of(text);
    let mut row: Vec<u8> = Vec::new();
    let mut i: usize = 0;
    assert(row_value(row@) == digits_value(text@.take(0)));
    while i < chars.len()
        invariant
            i <= chars@.len(),
            chars@ == text@,
            row@.len() == i,
            is_row(row@),
            forall|k: int| 0 <= k < i ==> is_digit(#[trigger] text@[k]),
            row_value(row@) == digits_value(text@.take(i as int)),
        decreases chars@.len() - i,
    {
        let c = chars[i];
        if !digit(c) {
            assert(!is_digit(text@[i as int]));
            return None;
        }
        let ghost before = row@;
        row.push((c as u32 - '0' as u32) as u8);
        assert(row@.drop_last() =~= before);
        assert(text@.take(i + 1).drop_last() =~= text@.take(i as int));
        i = i + 1;
    }
    assert(text@.take(i as int) =~= text@);
    Some(row)
}

/// The number in a row of digits, but at most the cap.
fn capped_number(digits: &Vec<u8>) -> (result: i128)
    requires
        is_row(digits@),
    ensures
        0 <= result <= EXPONENT_CAP,
        result == row_value(digits@) || (result == EXPONENT_CAP && row_value(digits@)
            > EXPONENT_CAP),
{
    let mut value: i128 = 0;
    let mut i: usize = 0;
    assert(row_value(digits@.take(0)) == 0);
    while i < digits.len()
        invariant
            i <= digits@.len(),
            is_row(digits@),
            value == row_value(digits@.take(i as int)),
            0 <= value <= EXPONENT_CAP,
        decreases digits@.len() - i,
    {
        assert(digits@.take(i + 1).drop_last() =~= digits@.take(i as int));
        value = value * 10 + digits[i] as i128;
        i = i + 1;
        if value > EXPONENT_CAP {
            proof {
                lemma_row_split(digits@, i as int);
                lemma_ten_positive((digits@.len() - i) as nat);
                let power = ten_to((digits@.len() - i) as nat);
                assert(value * power >= value) by (nonlinear_arith)
                    requires
                        power >= 1,
                        value >= 0,
                ;
            }
            return EXPONENT_CAP;
        }
    }
    assert(digits@.take(i as int) =~= digits@);
    value
}

/// Drops the sign of `text`.
fn drop_sign(text: &str) -> (result: String)
    ensures
        result@ == unsigned(text@),
{
    let chars = chars_of(text);
    let from: usize = if chars.len() > 0 && (chars[0] == '-' || chars[0] == '+') {
        1
    } else {
        0
    };
    let body = text_between(&chars, from, chars.len());
    assert(body@ =~= unsigned(text@));
    body
}

fn starts_with_minus(text: &str) -> (result: bool)
    ensures
        result == has_minus(text@),
{
    let chars = chars_of(text);
    chars.len() > 0 && chars[0] == '-'
}

fn read_exponent(text: &str) -> (result: Option<i128>)
    ensures
        match (result, exponent_in(text@)) {
            (Some(value), Some(expected)) => -EXPONENT_CAP <= value <= EXPONENT_CAP && (value
                == expected || (value == EXPONENT_CAP && expected > EXPONENT_CAP) || (value
                == -EXPONENT_CAP && expected < -EXPONENT_CAP)),
            (None, None) => true,
            _ => false,
        },
{
    let digits = drop_sign(text);
    match row_of(digits.as_str()) {
        Some(row) => {
            if row.len() == 0 {
                return None;
            }
            let value: i128 = capped_number(&row);
            if starts_with_minus(text) {
                Some(-value)
            } else {
                Some(value)
            }
        },
        None => None,
    }
}

/// Reads the digits of a numeral, and how many of them stand before its point.
fn read_mantissa(text: &str) -> (result: Option<(Vec<u8>, i128)>)
    ensures
        match (result, mantissa_in(text@)) {
            (Some((row, point)), Some((digits, shift))) => is_row(row@) && row@.len()
                == digits.len() && row_value(row@) == digits_value(digits) && point == row@.len()
                + shift && 0 <= point <= row@.len(),
            (None, None) => true,
            _ => false,
        },
{
    let parts = split(text, '.');
    let ghost views = split_parts(text@, '.');
    proof {
        lemma_split_has_a_part(text@, '.');
        assert(parts@.len() == views.len());
        assert(views[0] == parts@[0]@);
        if parts@.len() > 1 {
            assert(views[1] == parts@[1]@);
        }
    }
    if parts.len() > 2 {
        return None;
    }
    let whole: usize = chars_of(parts[0].as_str()).len();
    let digits = if parts.len() == 1 {
        parts[0].clone()
    } else {
        parts[0].clone().concat(parts[1].as_str())
    };
    match row_of(digits.as_str()) {
        Some(row) => if row.len() == 0 {
            None
        } else {
            Some((row, whole as i128))
        },
        None => None,
    }
}

/// Whether a row of digits with its point is the quantity `over / under`.
spec fn row_stands_for(digits: Seq<u8>, point: int, over: nat, under: nat) -> bool {
    exists|exponent: int|
        #[trigger] exponents_agree(digits.len(), exponent, point - digits.len()) && over
            == scaled_over(row_value(digits), exponent) && under == scaled_under(exponent)
}

spec fn stands_for(numeral: Numeral, quantity: QuantityView) -> bool {
    match numeral {
        Numeral::NotANumber => quantity is NotANumber,
        Numeral::Infinite { negative } => quantity == QuantityView::Infinite { negative },
        Numeral::Finite { negative, digits, point } => {
            &&& quantity is Finite
            &&& quantity->Finite_negative == negative
            &&& is_row(digits@)
            &&& -0x4000_0000_0000_0000_0000_0000_0000_0000 <= point
            &&& row_stands_for(digits@, point as int, quantity->over, quantity->under)
        },
    }
}

/// Reads a quantity.
fn read_numeral(text: &str) -> (result: Option<Numeral>)
    ensures
        match (result, quantity_in(text@)) {
            (Some(numeral), Some(quantity)) => stands_for(numeral, quantity),
            (None, None) => true,
            _ => false,
        },
{
    let negative = starts_with_minus(text);
    let body = ascii_lowercase(drop_sign(text).as_str());
    if same_text(body.as_str(), "nan") {
        return Some(Numeral::NotANumber);
    }
    if same_text(body.as_str(), "inf") || same_text(body.as_str(), "infinity") {
        return Some(Numeral::Infinite { negative });
    }
    let halves = split(body.as_str(), 'e');
    let ghost views = split_parts(body@, 'e');
    proof {
        lemma_split_has_a_part(body@, 'e');
        assert(halves@.len() == views.len());
        assert(views[0] == halves@[0]@);
        if halves@.len() > 1 {
            assert(views[1] == halves@[1]@);
        }
    }
    match read_mantissa(halves[0].as_str()) {
        Some((digits, whole)) => {
            if halves.len() > 2 {
                return None;
            }
            let exponent: i128 = if halves.len() == 1 {
                0
            } else {
                match read_exponent(halves[1].as_str()) {
                    Some(exponent) => exponent,
                    None => {
                        return None;
                    },
                }
            };
            let total: usize = digits.len();
            let point: i128 = whole + exponent;
            proof {
                let (row, expected) = decimal_in(body@)->0;
                assert(exponents_agree(digits@.len(), expected, point - digits@.len()));
                let over = scaled_over(row_value(digits@), expected);
                assert(quantity_in(text@) == Some(
                    QuantityView::Finite { negative, over, under: scaled_under(expected) },
                ));
            }
            Some(Numeral::Finite { negative, digits, point })
        },
        None => None,
    }
}

// ---------------------------------------------------------------------------
// What is made of a quantity
// ---------------------------------------------------------------------------

/// A quantity as a percentage, cut off at nothing and at a hundred.
pub open spec fn percent_of(quantity: QuantityView) -> u8 {
    match quantity {
        QuantityView::NotANumber => 0,
        QuantityView::Infinite { negative } => if negative {
            0
        } else {
            100
        },
        QuantityView::Finite { negative, over, under } => if negative {
            0
        } else if double_floor(over, under) >= 100 {
            100
        } else {
            double_floor(over, under) as u8
        },
    }
}

/// A quantity without its fraction, as far as 64 bits reach.
pub open spec fn truncated(quantity: QuantityView) -> i64 {
    match quantity {
        QuantityView::NotANumber => 0,
        QuantityView::Infinite { negative } => if negative {
            i64::MIN
        } else {
            i64::MAX
        },
        QuantityView::Finite { negative, over, under } => if negative {
            if double_floor(over, under) >= 0x8000_0000_0000_0000 {
                i64::MIN
            } else {
                (-(double_floor(over, under) as int)) as i64
            }
        } else if double_floor(over, under) >= 0x8000_0000_0000_0000 {
            i64::MAX
        } else {
            double_floor(over, under) as i64
        },
    }
}

/// A length of time in whole seconds, as far as 31 bits reach. What is no
/// proper length counts as nothing.
pub open spec fn seconds_of(quantity: QuantityView) -> u64 {
    match quantity {
        QuantityView::Finite { negative, over, under } => if negative || overflows(over, under) {
            0
        } else if double_floor(over, under) >= 0x7fff_ffff {
            0x7fff_ffff
        } else {
            double_floor(over, under) as u64
        },
        _ => 0,
    }
}

/// Reads a percentage.
pub fn parse_percent(text: &str) -> (result: Option<u8>)
    ensures
        result == (match quantity_in(text@) {
            Some(quantity) => Some(percent_of(quantity)),
            None => None::<u8>,
        }),
{
    match read_numeral(text) {
        Some(Numeral::NotANumber) => Some(0),
        Some(Numeral::Infinite { negative }) => if negative {
            Some(0)
        } else {
            Some(100)
        },
        Some(Numeral::Finite { negative, digits, point }) => {
            let whole: u64 = capped_whole(&digits, point, 100);
            if negative {
                Some(0)
            } else {
                Some(whole as u8)
            }
        },
        None => None,
    }
}

/// Reads a quantity and drops its fraction.
pub fn parse_truncated(text: &str) -> (result: Option<i64>)
    ensures
        result == (match quantity_in(text@) {
            Some(quantity) => Some(truncated(quantity)),
            None => None::<i64>,
        }),
{
    match read_numeral(text) {
        Some(Numeral::NotANumber) => Some(0),
        Some(Numeral::Infinite { negative }) => if negative {
            Some(i64::MIN)
        } else {
            Some(i64::MAX)
        },
        Some(Numeral::Finite { negative, digits, point }) => {
            let whole: u64 = capped_whole(&digits, point, 0x8000_0000_0000_0000);
            if negative {
                Some((-(whole as i128)) as i64)
            } else if whole == 0x8000_0000_0000_0000 {
                Some(i64::MAX)
            } else {
                Some(whole as i64)
            }
        },
        None => None,
    }
}

/// Reads a length of time.
pub fn parse_seconds_of(text: &str) -> (result: Option<u64>)
    ensures
        result == (match quantity_in(text@) {
            Some(quantity) => Some(seconds_of(quantity)),
            None => None::<u64>,
        }),
{
    match read_numeral(text) {
        Some(Numeral::Finite { negative, digits, point }) => {
            let whole: u64 = capped_whole(&digits, point, 0x7fff_ffff);
            let infinite = is_too_large(&digits, point);
            if negative || infinite {
                Some(0)
            } else {
                Some(whole)
            }
        },
        Some(_) => Some(0),
        None => None,
    }
}

} // verus!
