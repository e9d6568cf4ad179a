//! Single-precision floating-point numbers, read from their bits into fixed
//! point. This is how a number that was measured or parsed as a float comes
//! into this crate.

use vstd::prelude::*;
use crate::units::UNIT;

verus! {

/// Two to the power of `n`.
pub open spec fn two_to(n: nat) -> nat
    decreases n,
{
    if n == 0 {
        1
    } else {
        2 * two_to((n - 1) as nat)
    }
}

/// The sign bit is set.
pub open spec fn is_negative(bits: u32) -> bool {
    bits >= 0x8000_0000
}

/// The eight bits of the exponent field.
pub open spec fn exponent_field(bits: u32) -> int {
    ((bits as int) / 0x80_0000) % 0x100
}

/// The twenty-three bits of the fraction field.
pub open spec fn fraction_field(bits: u32) -> int {
    (bits as int) % 0x80_0000
}

/// The bits are those of a number: neither an infinity nor a NaN.
pub open spec fn is_finite(bits: u32) -> bool {
    exponent_field(bits) != 0xff
}

/// The whole number whose multiple by a power of two the float is: the
/// fraction field, with the hidden leading bit where the number is normal.
pub open spec fn significand(bits: u32) -> int {
    if exponent_field(bits) == 0 {
        fraction_field(bits)
    } else {
        0x80_0000 + fraction_field(bits)
    }
}

/// The power of two by which the significand is multiplied: the magnitude
/// of the float is `significand * 2^scale`.
pub open spec fn scale(bits: u32) -> int {
    if exponent_field(bits) == 0 {
        -149
    } else {
        exponent_field(bits) - 150
    }
}

/// The magnitude of the float in fixed-point steps, rounded to the nearest
/// step; a half is rounded up.
pub open spec fn magnitude_in_steps(bits: u32) -> int {
    let whole = significand(bits) * UNIT;
    if scale(bits) >= 0 {
        whole * two_to(scale(bits) as nat)
    } else {
        (2 * whole + two_to((-scale(bits)) as nat)) / (2 * two_to((-scale(bits)) as nat) as int)
    }
}

/// The float in fixed-point steps, rounded to the nearest step; a half is
/// rounded away from zero.
pub open spec fn in_steps(bits: u32) -> int {
    if is_negative(bits) {
        -magnitude_in_steps(bits)
    } else {
        magnitude_in_steps(bits)
    }
}

/// Powers of two grow with the exponent.
proof fn lemma_two_to_grows(low: nat, high: nat)
    requires
        low <= high,
    ensures
        0 < two_to(low) <= two_to(high),
    decreases high,
{
    if low < high {
        lemma_two_to_grows(low, (high - 1) as nat);
    } else if low > 0 {
        lemma_two_to_grows((low - 1) as nat, (low - 1) as nat);
    }
}

/// Reads the bits of a single-precision float as a fixed-point number,
/// rounded to the nearest step. Gives nothing for an infinity, for a NaN and
/// for a number beyond the range of 64 bits, and only for these.
pub fn fixed_from_bits(bits: u32) -> (steps: Option<i64>)
    ensures
        (is_finite(bits) && magnitude_in_steps(bits) <= i64::MAX) <==> steps is Some,
        steps is Some ==> steps->Some_0 == in_steps(bits),
{
    let negative: bool = bits >= 0x8000_0000;
    let exponent: u32 = (bits / 0x80_0000) % 0x100;
    let fraction: u32 = bits % 0x80_0000;
    if exponent == 0xff {
        return None;
    }
    let digits: u32 = if exponent == 0 {
        fraction
    } else {
        0x80_0000 + fraction
    };
    let whole: u128 = digits as u128 * (UNIT as u128);
    assert(whole == significand(bits) * UNIT);
    assert(whole < 0x1000_0000_0000);
    let magnitude: u128 = if exponent >= 150 {
        let power: u32 = exponent - 150;
        let mut value: u128 = whole;
        let mut done: u32 = 0;
        assert(two_to(0) == 1);
        assert(whole * two_to(0) == whole);
        while done < power
            invariant
                done <= power,
                value == whole * two_to(done as nat),
                value <= i64::MAX,
                whole == significand(bits) * UNIT,
                power == scale(bits),
                is_finite(bits),
            decreases power - done,
        {
            if value > (i64::MAX as u128) / 2 {
                proof {
                    lemma_two_to_grows((done + 1) as nat, power as nat);
                    let reached = two_to((done + 1) as nat) as int;
                    let all = two_to(power as nat) as int;
                    assert(whole * reached <= whole * all) by (nonlinear_arith)
                        requires
                            reached <= all,
                            0 <= whole,
                    ;
                    assert(whole * reached == 2 * (whole * two_to(done as nat))) by (nonlinear_arith)
                        requires
                            reached == 2 * two_to(done as nat),
                    ;
                }
                return None;
            }
            proof {
                assert(whole * two_to((done + 1) as nat) == 2 * (whole * two_to(done as nat)))
                    by (nonlinear_arith)
                    requires
                        two_to((done + 1) as nat) == 2 * two_to(done as nat),
                ;
            }
            value = value * 2;
            done = done + 1;
        }
        assert(value == magnitude_in_steps(bits));
        value
    } else {
        let shift: u32 = if exponent == 0 {
            149
        } else {
            150 - exponent
        };
        if shift > 46 {
            proof {
                assert(two_to(46) == 0x4000_0000_0000) by {
                    reveal_with_fuel(two_to, 47);
                }
                lemma_two_to_grows(46, shift as nat);
                let far = two_to(shift as nat) as int;
                vstd::arithmetic::div_mod::lemma_basic_div(2 * whole + far, 2 * far);
                assert(shift == -scale(bits));
                assert(magnitude_in_steps(bits) == 0);
            }
            0
        } else {
            let mut divisor: u128 = 1;
            let mut done: u32 = 0;
            while done < shift
                invariant
                    done <= shift <= 46,
                    divisor == two_to(done as nat),
                    divisor <= 0x4000_0000_0000 * 0x4000_0000_0000,
                decreases shift - done,
            {
                proof {
                    assert(two_to(46) == 0x4000_0000_0000) by {
                        reveal_with_fuel(two_to, 47);
                    }
                    lemma_two_to_grows((done + 1) as nat, 46);
                }
                divisor = divisor * 2;
                done = done + 1;
            }
            proof {
                assert(two_to(46) == 0x4000_0000_0000) by {
                    reveal_with_fuel(two_to, 47);
                }
                lemma_two_to_grows(shift as nat, 46);
                assert(shift == -scale(bits));
            }
            let rounded: u128 = (2 * whole + divisor) / (2 * divisor);
            assert(rounded == magnitude_in_steps(bits));
            rounded
        }
    };
    if magnitude > i64::MAX as u128 {
        None
    } else if negative {
        Some(-(magnitude as i64))
    } else {
        Some(magnitude as i64)
    }
}

} // verus!
