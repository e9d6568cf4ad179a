//! The integer square root.

use vstd::prelude::*;

verus! {

/// `n` is the square root of `s` rounded down.
pub open spec fn is_sqrt_floor(s: int, n: int) -> bool {
    0 <= n && n * n <= s && s < (n + 1) * (n + 1)
}

/// The square root of a non-negative `s`, rounded down.
pub open spec fn sqrt_floor(s: int) -> int {
    choose|n: int| is_sqrt_floor(s, n)
}

/// Squaring keeps the order of non-negative numbers.
pub proof fn lemma_square_is_monotonic(a: int, b: int)
    requires
        0 <= a <= b,
    ensures
        a * a <= b * b,
{
    assert(a * a <= b * b) by (nonlinear_arith)
        requires
            0 <= a <= b,
    ;
}

/// A number has one rounded-down square root only.
pub proof fn lemma_sqrt_floor_is_unique(s: int, n: int, m: int)
    requires
        is_sqrt_floor(s, n),
        is_sqrt_floor(s, m),
    ensures
        n == m,
{
    if n < m {
        lemma_square_is_monotonic(n + 1, m);
    } else if m < n {
        lemma_square_is_monotonic(m + 1, n);
    }
}

/// Every non-negative number has a rounded-down square root.
pub proof fn lemma_sqrt_floor_exists(s: int)
    requires
        0 <= s,
    ensures
        is_sqrt_floor(s, sqrt_floor(s)),
    decreases s,
{
    if s == 0 {
        assert(is_sqrt_floor(0, 0));
    } else {
        lemma_sqrt_floor_exists(s - 1);
        let n = sqrt_floor(s - 1);
        if s < (n + 1) * (n + 1) {
            assert(is_sqrt_floor(s, n));
        } else {
            assert((n + 2) * (n + 2) > (n + 1) * (n + 1)) by (nonlinear_arith)
                requires
                    0 <= n,
            ;
            assert(is_sqrt_floor(s, n + 1));
        }
    }
}

/// Whatever meets the definition is the root.
pub proof fn lemma_sqrt_floor_is(s: int, n: int)
    requires
        is_sqrt_floor(s, n),
    ensures
        sqrt_floor(s) == n,
{
    lemma_sqrt_floor_is_unique(s, n, sqrt_floor(s));
}

/// Computes the square root of `s`, rounded down, by bisection.
pub fn integer_sqrt(s: u128) -> (n: u64)
    ensures
        is_sqrt_floor(s as int, n as int),
        n == sqrt_floor(s as int),
{
    let mut low: u128 = 0;
    let mut high: u128 = 0x1_0000_0000_0000_0000;
    assert(0x1_0000_0000_0000_0000int * 0x1_0000_0000_0000_0000int > u128::MAX);
    while high - low > 1
        invariant
            low < high <= 0x1_0000_0000_0000_0000,
            low * low <= s,
            s < high * high,
        decreases high - low,
    {
        let mid: u128 = low + (high - low) / 2;
        assert(mid * mid <= 0xffff_ffff_ffff_ffff * 0xffff_ffff_ffff_ffff) by (nonlinear_arith)
            requires
                0 <= mid <= 0xffff_ffff_ffff_ffff,
        ;
        assert(0xffff_ffff_ffff_ffffint * 0xffff_ffff_ffff_ffffint <= u128::MAX);
        if mid * mid <= s {
            low = mid;
        } else {
            high = mid;
        }
    }
    proof {
        lemma_sqrt_floor_is(s as int, low as int);
    }
    low as u64
}

} // verus!
