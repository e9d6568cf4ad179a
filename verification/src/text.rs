//! Numbers written out in decimal, for the attributes of a vector document.

use vstd::prelude::*;
use vstd::string::*;
use crate::units::{magnitude, UNIT};

verus! {

/// The character of one decimal digit.
pub open spec fn digit_char(d: int) -> char {
    if d == 0 {
        '0'
    } else if d == 1 {
        '1'
    } else if d == 2 {
        '2'
    } else if d == 3 {
        '3'
    } else if d == 4 {
        '4'
    } else if d == 5 {
        '5'
    } else if d == 6 {
        '6'
    } else if d == 7 {
        '7'
    } else if d == 8 {
        '8'
    } else {
        '9'
    }
}

/// A whole number in decimal, without leading zeros.
pub open spec fn decimal(n: nat) -> Seq<char>
    decreases n,
{
    if n < 10 {
        seq![digit_char(n as int)]
    } else {
        decimal(n / 10).push(digit_char((n % 10) as int))
    }
}

/// `n` is 1, 10, 100 and so on.
pub open spec fn is_power_of_ten(n: nat) -> bool
    decreases n,
{
    n == 1 || (n >= 10 && n % 10 == 0 && is_power_of_ten(n / 10))
}

/// The decimal places of `f` parts in `scale`, where `scale` is a power of
/// ten and `f` is less: one digit for each power of ten below `scale`, up to
/// the last digit that is not zero.
pub open spec fn decimal_places(f: nat, scale: nat) -> Seq<char>
    decreases scale,
{
    if f == 0 || scale < 10 {
        Seq::empty()
    } else {
        seq![digit_char((f / (scale / 10)) as int)] + decimal_places(f % (scale / 10), scale / 10)
    }
}

/// A fixed-point number in decimal: a minus sign where it is negative, its
/// whole part, and, where it has a fraction, a point and the decimal places
/// up to the last that is not zero.
pub open spec fn fixed_decimal(x: int) -> Seq<char> {
    let m = magnitude(x) as nat;
    let sign = if x < 0 {
        seq!['-']
    } else {
        Seq::empty()
    };
    let whole = decimal(m / (UNIT as nat));
    let places = if m % (UNIT as nat) == 0 {
        Seq::empty()
    } else {
        seq!['.'] + decimal_places(m % (UNIT as nat), UNIT as nat)
    };
    sign + whole + places
}

/// One decimal digit as text.
fn digit_text(d: u8) -> (text: &'static str)
    requires
        d < 10,
    ensures
        text@ == seq![digit_char(d as int)],
{
    proof {
        reveal_strlit("0");
        reveal_strlit("1");
        reveal_strlit("2");
        reveal_strlit("3");
        reveal_strlit("4");
        reveal_strlit("5");
        reveal_strlit("6");
        reveal_strlit("7");
        reveal_strlit("8");
        reveal_strlit("9");
    }
    let text: &'static str = if d == 0 {
        "0"
    } else if d == 1 {
        "1"
    } else if d == 2 {
        "2"
    } else if d == 3 {
        "3"
    } else if d == 4 {
        "4"
    } else if d == 5 {
        "5"
    } else if d == 6 {
        "6"
    } else if d == 7 {
        "7"
    } else if d == 8 {
        "8"
    } else {
        "9"
    };
    assert(text@ =~= seq![digit_char(d as int)]);
    text
}

/// Writes a whole number in decimal.
pub fn decimal_text(n: u64) -> (text: String)
    ensures
        text@ == decimal(n as nat),
    decreases n,
{
    if n < 10 {
        String::from_str(digit_text(n as u8))
    } else {
        let mut text: String = decimal_text(n / 10);
        text.append(digit_text((n % 10) as u8));
        assert(text@ =~= decimal(n as nat));
        text
    }
}

/// Writes the decimal places of `f` parts in `scale`.
fn decimal_places_text(f: u64, scale: u64) -> (text: String)
    requires
        f < scale,
        is_power_of_ten(scale as nat),
    ensures
        text@ == decimal_places(f as nat, scale as nat),
    decreases scale,
{
    if f == 0 || scale < 10 {
        String::new()
    } else {
        let step: u64 = scale / 10;
        assert(f / step < 10) by (nonlinear_arith)
            requires
                f < scale,
                scale == 10 * step,
                step > 0,
        ;
        let mut text: String = String::from_str(digit_text((f / step) as u8));
        let rest: String = decimal_places_text(f % step, step);
        text.append(rest.as_str());
        text
    }
}

/// Writes a fixed-point number in decimal.
pub fn fixed_text(x: i64) -> (text: String)
    ensures
        text@ == fixed_decimal(x as int),
{
    let m: u64 = if x < 0 {
        (-(x as i128)) as u64
    } else {
        x as u64
    };
    let mut text: String = if x < 0 {
        proof {
            reveal_strlit("-");
        }
        String::from_str("-")
    } else {
        String::new()
    };
    assert(text@ =~= if x < 0 {
        seq!['-']
    } else {
        Seq::<char>::empty()
    });
    let whole: String = decimal_text(m / (UNIT as u64));
    text.append(whole.as_str());
    let f: u64 = m % (UNIT as u64);
    if f != 0 {
        proof {
            reveal_strlit(".");
        }
        text.append(".");
        assert(is_power_of_ten(1_000_000)) by {
            reveal_with_fuel(is_power_of_ten, 8);
        }
        let places: String = decimal_places_text(f, UNIT as u64);
        text.append(places.as_str());
    }
    assert(text@ =~= fixed_decimal(x as int));
    text
}

} // verus!
