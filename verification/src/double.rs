//! Quantities rounded to 53 significant bits, as a machine's double precision
//! numbers are, worked out in whole numbers.

use vstd::prelude::*;

verus! {

/// Doubles hold every whole number below this one.
pub const DOUBLE_LIMIT: u64 = 0x20_0000_0000_0000;

/// The whole number nearest to `over / under`; halfway between two, the even
/// one.
pub open spec fn half_even(over: nat, under: nat) -> nat {
    let quotient = over / under;
    let twice = 2 * (over % under);
    if twice < under || (twice == under && quotient % 2 == 0) {
        quotient
    } else {
        quotient + 1
    }
}

/// How far apart the doubles are at `value`, from one upwards.
pub open spec fn double_step(value: nat) -> nat
    decreases value,
{
    if value < DOUBLE_LIMIT {
        1
    } else {
        2 * double_step(value / 2)
    }
}

/// The double nearest to a whole number.
pub open spec fn as_double(value: nat) -> nat {
    half_even(value, double_step(value)) * double_step(value)
}

pub fn divide_half_even(over: u128, under: u128) -> (result: u128)
    requires
        0 < under,
        over < 0x8000_0000_0000_0000_0000_0000_0000_0000,
    ensures
        result == half_even(over as nat, under as nat),
{
    let quotient: u128 = over / under;
    let remainder: u128 = over % under;
    proof {
        vstd::arithmetic::div_mod::lemma_fundamental_div_mod(over as int, under as int);
        vstd::arithmetic::div_mod::lemma_div_is_ordered_by_denominator(
            over as int,
            1,
            under as int,
        );
        assert(remainder <= over) by {
            vstd::arithmetic::div_mod::lemma_mod_decreases(over as nat, under as nat);
        }
    }
    let twice: u128 = 2 * remainder;
    if twice < under || (twice == under && quotient % 2 == 0) {
        quotient
    } else {
        quotient + 1
    }
}

/// How far apart the doubles are at `value`, from one upwards.
pub fn step_at(value: u128) -> (result: u128)
    ensures
        result == double_step(value as nat),
        0 < result,
        result == 1 || result % 2 == 0,
        result == 1 || result * 0x10_0000_0000_0000 <= value,
    decreases value,
{
    if value < DOUBLE_LIMIT as u128 {
        1
    } else {
        let half: u128 = step_at(value / 2);
        2 * half
    }
}

/// The double nearest to a whole number.
pub fn nearest_double(value: u64) -> (result: u128)
    ensures
        result == as_double(value as nat),
        value < DOUBLE_LIMIT ==> result == value,
        result <= 2 * value,
        value <= 2 * result,
{
    nearest_double_to(value as u128)
}

/// The double nearest to a whole number of up to a hundred bits.
pub fn nearest_double_to(value: u128) -> (result: u128)
    requires
        value < 0x10_0000_0000_0000_0000_0000_0000,
    ensures
        result == as_double(value as nat),
        value < DOUBLE_LIMIT ==> result == value,
        result <= 2 * value,
        value <= 2 * result,
{
    let step: u128 = step_at(value);
    let count: u128 = divide_half_even(value, step);
    proof {
        vstd::arithmetic::div_mod::lemma_fundamental_div_mod(value as int, step as int);
        let quotient = value as int / step as int;
        if step == 1 {
            assert(value as int / 1 == value && value as int % 1 == 0);
            assert(quotient == value);
            assert(value as nat % step as nat == 0);
            assert(count * step == count);
        } else {
            assert(step * 2 <= value);
            assert(step * quotient <= value < step * quotient + step);
            assert(quotient * step <= count * step <= (quotient + 1) * step) by (nonlinear_arith)
                requires
                    quotient <= count <= quotient + 1,
                    step >= 0,
            ;
            assert((quotient + 1) * step == step * quotient + step) by (nonlinear_arith);
            assert(quotient * step == step * quotient) by (nonlinear_arith);
        }
    }
    count * step
}

/// By which power of two the quotient `over / under` is multiplied for a double
/// to hold its whole part and no more. The quotient is below 2^53.
pub open spec fn quotient_scale(over: nat, under: nat) -> nat
    decreases under * DOUBLE_LIMIT - over,
{
    if over == 0 || 2 * over >= under * DOUBLE_LIMIT {
        1
    } else {
        2 * quotient_scale(2 * over, under)
    }
}

/// The double nearest to `over / under`, as that many parts of so many.
pub open spec fn double_quotient(over: nat, under: nat) -> (nat, nat) {
    let scale = quotient_scale(over, under);
    (half_even(over * scale, under), scale)
}

pub fn nearest_quotient(over: u128, under: u128) -> (result: (u128, u128))
    requires
        0 < under <= 0x10_0000_0000_0000_0000,
        over < under * DOUBLE_LIMIT,
    ensures
        (result.0 as nat, result.1 as nat) == double_quotient(over as nat, under as nat),
        0 < result.1,
        result.0 <= DOUBLE_LIMIT,
{
    if over == 0 {
        proof {
            assert(0 as nat / under as nat == 0 && 0 as nat % under as nat == 0) by {
                vstd::arithmetic::div_mod::lemma_fundamental_div_mod_converse(
                    0,
                    under as int,
                    0,
                    0,
                );
            }
        }
        return (0, 1);
    }
    let bound: u128 = under * DOUBLE_LIMIT as u128;
    let mut scale: u128 = 1;
    let mut scaled: u128 = over;
    while 2 * scaled < bound
        invariant
            0 < over,
            0 < under <= 0x10_0000_0000_0000_0000,
            bound == under * DOUBLE_LIMIT,
            over * scale == scaled,
            0 < scale <= scaled < bound,
            quotient_scale(over as nat, under as nat) == scale * quotient_scale(
                scaled as nat,
                under as nat,
            ),
        decreases bound - scaled,
    {
        proof {
            let rest = quotient_scale((2 * scaled) as nat, under as nat);
            assert(scale * (2 * rest) == (2 * scale) * rest) by (nonlinear_arith);
            assert(over * (2 * scale) == 2 * (over * scale)) by (nonlinear_arith);
        }
        scaled = 2 * scaled;
        scale = 2 * scale;
    }
    let parts: u128 = divide_half_even(scaled, under);
    proof {
        let quotient = scaled as int / under as int;
        vstd::arithmetic::div_mod::lemma_fundamental_div_mod(scaled as int, under as int);
        assert(quotient < DOUBLE_LIMIT) by (nonlinear_arith)
            requires
                under * quotient <= scaled,
                scaled < under * DOUBLE_LIMIT,
                0 < under,
        ;
        assert(scale * 1 == scale);
    }
    (parts, scale)
}

} // verus!
