//! Powers of ten and the rounding rule shared by every operation that
//! divides: rescaling down, rounding in place, multiplying and dividing.
use vstd::prelude::*;

use crate::error::DecimalError;

verus! {

/// Largest number of fractional digits a decimal type may carry.
pub const MAX_SCALE: u32 = 18;

/// `10^n`.
pub open spec fn pow10(n: nat) -> int
    decreases n,
{
    if n == 0 {
        1
    } else {
        10 * pow10((n - 1) as nat)
    }
}

/// `|x|`.
pub open spec fn abs(x: int) -> int {
    if x < 0 {
        -x
    } else {
        x
    }
}

/// The range of the 128-bit intermediate in which all scaling is done.
pub open spec fn fits_wide(v: int) -> bool {
    i128::MIN <= v <= i128::MAX
}

/// How a quotient that is not exact is brought to an integer.
#[derive(Debug, Clone, Copy, PartialEq, Eq, Structural)]
pub enum RoundingMode {
    /// Toward zero.
    Truncate,
    /// To nearest; ties away from zero.
    HalfUp,
    /// To nearest; ties to the even neighbour.
    HalfEven,
}

/// Whether the truncated magnitude `q`, left with remainder `r` by the
/// positive divisor `d`, moves one unit away from zero under `mode`.
pub open spec fn rounds_away(q: int, r: int, d: int, mode: RoundingMode) -> bool {
    match mode {
        RoundingMode::Truncate => false,
        RoundingMode::HalfUp => 2 * r >= d,
        RoundingMode::HalfEven => 2 * r > d || (2 * r == d && q % 2 == 1),
    }
}

/// `a / d` rounded under `mode`, for `a >= 0` and `d > 0`.
pub open spec fn round_magnitude(a: int, d: int, mode: RoundingMode) -> int {
    let q = a / d;
    if rounds_away(q, a % d, d, mode) {
        q + 1
    } else {
        q
    }
}

/// The quotient `n / d` rounded under `mode`: the magnitudes are divided
/// and rounded, and the result takes the sign of the true quotient.
pub open spec fn round_div(n: int, d: int, mode: RoundingMode) -> int {
    let m = round_magnitude(abs(n), abs(d), mode);
    if (n < 0) != (d < 0) {
        -m
    } else {
        m
    }
}

pub proof fn lemma_pow10_positive(n: nat)
    ensures
        pow10(n) >= 1,
    decreases n,
{
    if n > 0 {
        lemma_pow10_positive((n - 1) as nat);
    }
}

pub proof fn lemma_pow10_adds(a: nat, b: nat)
    ensures
        pow10(a + b) == pow10(a) * pow10(b),
    decreases a,
{
    if a > 0 {
        lemma_pow10_adds((a - 1) as nat, b);
        assert(pow10(a + b) == 10 * pow10((a - 1 + b) as nat));
        assert(10 * (pow10((a - 1) as nat) * pow10(b)) == (10 * pow10((a - 1) as nat)) * pow10(
            b,
        )) by (nonlinear_arith);
    }
}

pub proof fn lemma_pow10_monotone(a: nat, b: nat)
    requires
        a <= b,
    ensures
        pow10(a) <= pow10(b),
    decreases b,
{
    if a < b {
        lemma_pow10_monotone(a, (b - 1) as nat);
        lemma_pow10_positive((b - 1) as nat);
    }
}

/// `10^38` is the largest power of ten in the 128-bit intermediate.
pub proof fn lemma_pow10_wide_bound(n: nat)
    ensures
        n <= 38 ==> pow10(n) <= i128::MAX,
        n > 38 ==> pow10(n) > i128::MAX + 1,
{
    reveal_with_fuel(pow10, 40);
    if n <= 38 {
        lemma_pow10_monotone(n, 38);
    } else {
        lemma_pow10_monotone(39, n);
    }
}

/// `10^n` in the 128-bit intermediate, or `None` where it does not fit.
pub fn checked_pow10(n: u32) -> (r: Option<i128>)
    ensures
        r is Some <==> pow10(n as nat) <= i128::MAX,
        r matches Some(p) ==> p == pow10(n as nat),
{
    proof {
        lemma_pow10_wide_bound(n as nat);
    }
    if n > 38 {
        return None;
    }
    let mut p: i128 = 1;
    let mut i: u32 = 0;
    while i < n
        invariant
            i <= n <= 38,
            p == pow10(i as nat),
        decreases n - i,
    {
        proof {
            lemma_pow10_monotone((i + 1) as nat, 38);
            lemma_pow10_wide_bound(38);
            lemma_pow10_positive(i as nat);
            assert(pow10((i + 1) as nat) == 10 * pow10(i as nat));
        }
        p = p * 10;
        i = i + 1;
    }
    Some(p)
}

/// `10^n` for `n <= 38`.
pub fn pow10_wide(n: u32) -> (r: i128)
    requires
        n <= 38,
    ensures
        r == pow10(n as nat),
        r >= 1,
{
    proof {
        lemma_pow10_wide_bound(n as nat);
        lemma_pow10_positive(n as nat);
    }
    checked_pow10(n).unwrap()
}

/// The magnitude of a 128-bit integer; `i128::MIN` included.
pub fn magnitude(n: i128) -> (r: u128)
    ensures
        r == abs(n as int),
{
    if n < 0 {
        ((-(n + 1)) as u128) + 1
    } else {
        n as u128
    }
}

/// Divides `n` by `d` and rounds the quotient under `mode`; fails with
/// `Overflow` where the rounded quotient leaves the 128-bit range.
pub fn round_quotient(n: i128, d: i128, mode: RoundingMode) -> (r: Result<i128, DecimalError>)
    requires
        d != 0,
    ensures
        r is Ok <==> fits_wide(round_div(n as int, d as int, mode)),
        r matches Ok(q) ==> q == round_div(n as int, d as int, mode),
        r matches Err(e) ==> e == DecimalError::Overflow,
{
    let a = magnitude(n);
    let b = magnitude(d);
    let q = a / b;
    let rem = a % b;
    let away = match mode {
        RoundingMode::Truncate => false,
        RoundingMode::HalfUp => rem >= b - rem,
        RoundingMode::HalfEven => rem > b - rem || (rem == b - rem && q % 2 == 1),
    };
    assert(q <= a) by (nonlinear_arith)
        requires
            b >= 1,
            q == a / b,
            a >= 0,
    ;
    let m: u128 = if away {
        q + 1
    } else {
        q
    };
    assert(m == round_magnitude(a as int, b as int, mode));
    if (n < 0) != (d < 0) {
        if m > 0x8000_0000_0000_0000_0000_0000_0000_0000u128 {
            Err(DecimalError::Overflow)
        } else if m == 0x8000_0000_0000_0000_0000_0000_0000_0000u128 {
            Ok(i128::MIN)
        } else {
            Ok(-(m as i128))
        }
    } else {
        if m > i128::MAX as u128 {
            Err(DecimalError::Overflow)
        } else {
            Ok(m as i128)
        }
    }
}

} // verus!
