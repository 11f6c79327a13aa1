//! Changing scale, rounding in place, and building decimals from integers
//! and from the other backing type.
use vstd::prelude::*;

use crate::backing::DecimalInt;
use crate::decimal::{fitted, outcome, Decimal};
use crate::error::DecimalError;
use crate::rounding::{
    abs, fits_wide, magnitude, pow10, pow10_wide, round_div, round_quotient, RoundingMode,
    MAX_SCALE,
};
use vstd::arithmetic::div_mod::{
    lemma_div_multiples_vanish, lemma_fundamental_div_mod, lemma_mod_multiples_basic,
};
use vstd::std_specs::convert::{FromSpecImpl, TryFromSpecImpl};

verus! {

/// `m` minor units at scale `from` expressed at scale `to`: multiplied
/// exactly when scaling up, divided and rounded under `mode` when scaling
/// down. No range is applied.
pub open spec fn rescale_value(m: int, from: nat, to: nat, mode: RoundingMode) -> int {
    if to >= from {
        m * pow10((to - from) as nat)
    } else {
        round_div(m, pow10((from - to) as nat), mode)
    }
}

/// The minor units of a rounding rescale, where they fit the backing type.
pub open spec fn rescaled_units<T: DecimalInt>(
    m: int,
    from: nat,
    to: nat,
    mode: RoundingMode,
) -> Result<int, DecimalError> {
    fitted::<T>(rescale_value(m, from, to, mode))
}

/// Minor units after moving `m` from scale `from` to scale `to` without
/// loss: scaling down fails with `Invalid` where a dropped digit is not zero.
pub open spec fn exactly_rescaled_units<T: DecimalInt>(m: int, from: nat, to: nat) -> Result<
    int,
    DecimalError,
> {
    if to >= from {
        fitted::<T>(m * pow10((to - from) as nat))
    } else if m % pow10((from - to) as nat) != 0 {
        Err(DecimalError::Invalid)
    } else {
        fitted::<T>(m / pow10((from - to) as nat))
    }
}

/// `m` minor units at scale `scale` rounded to `decimals` fractional digits
/// under `mode`, still at scale `scale`; unchanged where `decimals` is not
/// below the scale. No range is applied.
pub open spec fn round_value(m: int, scale: nat, decimals: nat, mode: RoundingMode) -> int {
    if decimals >= scale {
        m
    } else {
        let f = pow10((scale - decimals) as nat);
        round_div(m, f, mode) * f
    }
}

/// The minor units of an in-place rounding, where they fit the backing type.
pub open spec fn rounded_units<T: DecimalInt>(
    m: int,
    scale: nat,
    decimals: nat,
    mode: RoundingMode,
) -> Result<int, DecimalError> {
    fitted::<T>(round_value(m, scale, decimals, mode))
}

/// Divisibility does not depend on the sign, and an exact quotient is
/// what truncation gives.
proof fn lemma_exact_division(m: int, f: int)
    requires
        f > 0,
    ensures
        (m % f == 0) == (abs(m) % f == 0),
        m % f == 0 ==> round_div(m, f, RoundingMode::Truncate) == m / f,
{
    lemma_fundamental_div_mod(m, f);
    lemma_fundamental_div_mod(abs(m), f);
    let k = m / f;
    let j = abs(m) / f;
    if m % f == 0 {
        assert(abs(m) == f * abs(k)) by (nonlinear_arith)
            requires
                m == f * k,
                f > 0,
        ;
        lemma_div_multiples_vanish(abs(k), f);
        lemma_mod_multiples_basic(abs(k), f);
        assert(abs(k) * f == f * abs(k)) by (nonlinear_arith);
        assert(m < 0 ==> k < 0) by (nonlinear_arith)
            requires
                m == f * k,
                f > 0,
        ;
        assert(m >= 0 ==> k >= 0) by (nonlinear_arith)
            requires
                m == f * k,
                f > 0,
        ;
    }
    if abs(m) % f == 0 {
        assert(m == f * j || m == f * (-j)) by (nonlinear_arith)
            requires
                abs(m) == f * j,
                m == abs(m) || m == -abs(m),
        ;
        lemma_mod_multiples_basic(j, f);
        lemma_mod_multiples_basic(-j, f);
        assert(j * f == f * j && (-j) * f == f * (-j)) by (nonlinear_arith);
    }
}

impl<T: DecimalInt, const SCALE: u32> Decimal<T, SCALE> {
    /// Rounds to `decimals` fractional digits, keeping the scale.
    pub fn round(self, decimals: u32, mode: RoundingMode) -> (r: Result<Self, DecimalError>)
        requires
            SCALE <= MAX_SCALE,
        ensures
            outcome(r) == rounded_units::<T>(self@, SCALE as nat, decimals as nat, mode),
    {
        proof {
            T::lemma_range();
            self.lemma_in_range();
        }
        if decimals >= SCALE {
            return Ok(self);
        }
        let factor = pow10_wide(SCALE - decimals);
        let rounded = match round_quotient(self.units().to_i128(), factor, mode) {
            Ok(q) => q,
            Err(e) => {
                proof {
                    let q = round_div(self@, factor as int, mode);
                    assert(!fits_wide(q * factor)) by (nonlinear_arith)
                        requires
                            !fits_wide(q),
                            factor >= 1,
                    ;
                }
                return Err(e);
            },
        };
        match rounded.checked_mul(factor) {
            Some(scaled) => Self::from_i128(scaled),
            None => Err(DecimalError::Overflow),
        }
    }
}

impl<T: DecimalInt, const FROM: u32> Decimal<T, FROM> {
    /// Moves to scale `TO` without loss, or fails.
    pub fn try_rescale<const TO: u32>(self) -> (r: Result<Decimal<T, TO>, DecimalError>)
        requires
            FROM <= MAX_SCALE,
            TO <= MAX_SCALE,
        ensures
            outcome(r) == exactly_rescaled_units::<T>(self@, FROM as nat, TO as nat),
    {
        proof {
            T::lemma_range();
            self.lemma_in_range();
        }
        let minor_units = self.units().to_i128();
        if TO >= FROM {
            return match minor_units.checked_mul(pow10_wide(TO - FROM)) {
                Some(scaled) => Decimal::<T, TO>::from_i128(scaled),
                None => Err(DecimalError::Overflow),
            };
        }
        let factor = pow10_wide(FROM - TO);
        proof {
            lemma_exact_division(self@, factor as int);
        }
        if magnitude(minor_units) % (factor as u128) != 0 {
            return Err(DecimalError::Invalid);
        }
        match round_quotient(minor_units, factor, RoundingMode::Truncate) {
            Ok(q) => Decimal::<T, TO>::from_i128(q),
            Err(e) => Err(e),
        }
    }

    /// Moves to scale `TO`, rounding under `mode` where digits are dropped.
    pub fn rescale<const TO: u32>(self, mode: RoundingMode) -> (r: Result<
        Decimal<T, TO>,
        DecimalError,
    >)
        requires
            FROM <= MAX_SCALE,
            TO <= MAX_SCALE,
        ensures
            outcome(r) == rescaled_units::<T>(self@, FROM as nat, TO as nat, mode),
    {
        proof {
            T::lemma_range();
            self.lemma_in_range();
        }
        let minor_units = self.units().to_i128();
        if TO >= FROM {
            return match minor_units.checked_mul(pow10_wide(TO - FROM)) {
                Some(scaled) => Decimal::<T, TO>::from_i128(scaled),
                None => Err(DecimalError::Overflow),
            };
        }
        match round_quotient(minor_units, pow10_wide(FROM - TO), mode) {
            Ok(q) => Decimal::<T, TO>::from_i128(q),
            Err(e) => Err(e),
        }
    }
}

impl<T: DecimalInt, const SCALE: u32> TryFrom<i8> for Decimal<T, SCALE> {
    type Error = DecimalError;

    /// The whole number `value`.
    fn try_from(value: i8) -> (r: Result<Self, DecimalError>)
        ensures
            outcome(r) == fitted::<T>(value * pow10(SCALE as nat)),
    {
        Self::checked_from_i128(value as i128)
    }
}

impl<T: DecimalInt, const SCALE: u32> TryFromSpecImpl<i8> for Decimal<T, SCALE> {
    /// The result is stated by `try_from` itself.
    open spec fn obeys_try_from_spec() -> bool {
        false
    }

    open spec fn try_from_spec(v: i8) -> Result<Self, DecimalError> {
        arbitrary()
    }
}

impl<T: DecimalInt, const SCALE: u32> TryFrom<i16> for Decimal<T, SCALE> {
    type Error = DecimalError;

    /// The whole number `value`.
    fn try_from(value: i16) -> (r: Result<Self, DecimalError>)
        ensures
            outcome(r) == fitted::<T>(value * pow10(SCALE as nat)),
    {
        Self::checked_from_i128(value as i128)
    }
}

impl<T: DecimalInt, const SCALE: u32> TryFromSpecImpl<i16> for Decimal<T, SCALE> {
    /// The result is stated by `try_from` itself.
    open spec fn obeys_try_from_spec() -> bool {
        false
    }

    open spec fn try_from_spec(v: i16) -> Result<Self, DecimalError> {
        arbitrary()
    }
}

impl<T: DecimalInt, const SCALE: u32> TryFrom<i32> for Decimal<T, SCALE> {
    type Error = DecimalError;

    /// The whole number `value`.
    fn try_from(value: i32) -> (r: Result<Self, DecimalError>)
        ensures
            outcome(r) == fitted::<T>(value * pow10(SCALE as nat)),
    {
        Self::checked_from_i128(value as i128)
    }
}

impl<T: DecimalInt, const SCALE: u32> TryFromSpecImpl<i32> for Decimal<T, SCALE> {
    /// The result is stated by `try_from` itself.
    open spec fn obeys_try_from_spec() -> bool {
        false
    }

    open spec fn try_from_spec(v: i32) -> Result<Self, DecimalError> {
        arbitrary()
    }
}

impl<T: DecimalInt, const SCALE: u32> TryFrom<i64> for Decimal<T, SCALE> {
    type Error = DecimalError;

    /// The whole number `value`.
    fn try_from(value: i64) -> (r: Result<Self, DecimalError>)
        ensures
            outcome(r) == fitted::<T>(value * pow10(SCALE as nat)),
    {
        Self::checked_from_i128(value as i128)
    }
}

impl<T: DecimalInt, const SCALE: u32> TryFromSpecImpl<i64> for Decimal<T, SCALE> {
    /// The result is stated by `try_from` itself.
    open spec fn obeys_try_from_spec() -> bool {
        false
    }

    open spec fn try_from_spec(v: i64) -> Result<Self, DecimalError> {
        arbitrary()
    }
}

impl<T: DecimalInt, const SCALE: u32> TryFrom<i128> for Decimal<T, SCALE> {
    type Error = DecimalError;

    /// The whole number `value`.
    fn try_from(value: i128) -> (r: Result<Self, DecimalError>)
        ensures
            outcome(r) == fitted::<T>(value * pow10(SCALE as nat)),
    {
        Self::checked_from_i128(value as i128)
    }
}

impl<T: DecimalInt, const SCALE: u32> TryFromSpecImpl<i128> for Decimal<T, SCALE> {
    /// The result is stated by `try_from` itself.
    open spec fn obeys_try_from_spec() -> bool {
        false
    }

    open spec fn try_from_spec(v: i128) -> Result<Self, DecimalError> {
        arbitrary()
    }
}

impl<T: DecimalInt, const SCALE: u32> TryFrom<isize> for Decimal<T, SCALE> {
    type Error = DecimalError;

    /// The whole number `value`.
    fn try_from(value: isize) -> (r: Result<Self, DecimalError>)
        ensures
            outcome(r) == fitted::<T>(value * pow10(SCALE as nat)),
    {
        Self::checked_from_i128(value as i128)
    }
}

impl<T: DecimalInt, const SCALE: u32> TryFromSpecImpl<isize> for Decimal<T, SCALE> {
    /// The result is stated by `try_from` itself.
    open spec fn obeys_try_from_spec() -> bool {
        false
    }

    open spec fn try_from_spec(v: isize) -> Result<Self, DecimalError> {
        arbitrary()
    }
}

impl<T: DecimalInt, const SCALE: u32> TryFrom<u8> for Decimal<T, SCALE> {
    type Error = DecimalError;

    /// The whole number `value`.
    fn try_from(value: u8) -> (r: Result<Self, DecimalError>)
        ensures
            outcome(r) == fitted::<T>(value * pow10(SCALE as nat)),
    {
        Self::checked_from_i128(value as i128)
    }
}

impl<T: DecimalInt, const SCALE: u32> TryFromSpecImpl<u8> for Decimal<T, SCALE> {
    /// The result is stated by `try_from` itself.
    open spec fn obeys_try_from_spec() -> bool {
        false
    }

    open spec fn try_from_spec(v: u8) -> Result<Self, DecimalError> {
        arbitrary()
    }
}

impl<T: DecimalInt, const SCALE: u32> TryFrom<u16> for Decimal<T, SCALE> {
    type Error = DecimalError;

    /// The whole number `value`.
    fn try_from(value: u16) -> (r: Result<Self, DecimalError>)
        ensures
            outcome(r) == fitted::<T>(value * pow10(SCALE as nat)),
    {
        Self::checked_from_i128(value as i128)
    }
}

impl<T: DecimalInt, const SCALE: u32> TryFromSpecImpl<u16> for Decimal<T, SCALE> {
    /// The result is stated by `try_from` itself.
    open spec fn obeys_try_from_spec() -> bool {
        false
    }

    open spec fn try_from_spec(v: u16) -> Result<Self, DecimalError> {
        arbitrary()
    }
}

impl<T: DecimalInt, const SCALE: u32> TryFrom<u32> for Decimal<T, SCALE> {
    type Error = DecimalError;

    /// The whole number `value`.
    fn try_from(value: u32) -> (r: Result<Self, DecimalError>)
        ensures
            outcome(r) == fitted::<T>(value * pow10(SCALE as nat)),
    {
        Self::checked_from_i128(value as i128)
    }
}

impl<T: DecimalInt, const SCALE: u32> TryFromSpecImpl<u32> for Decimal<T, SCALE> {
    /// The result is stated by `try_from` itself.
    open spec fn obeys_try_from_spec() -> bool {
        false
    }

    open spec fn try_from_spec(v: u32) -> Result<Self, DecimalError> {
        arbitrary()
    }
}

impl<T: DecimalInt, const SCALE: u32> TryFrom<u64> for Decimal<T, SCALE> {
    type Error = DecimalError;

    /// The whole number `value`.
    fn try_from(value: u64) -> (r: Result<Self, DecimalError>)
        ensures
            outcome(r) == fitted::<T>(value * pow10(SCALE as nat)),
    {
        Self::checked_from_i128(value as i128)
    }
}

impl<T: DecimalInt, const SCALE: u32> TryFromSpecImpl<u64> for Decimal<T, SCALE> {
    /// The result is stated by `try_from` itself.
    open spec fn obeys_try_from_spec() -> bool {
        false
    }

    open spec fn try_from_spec(v: u64) -> Result<Self, DecimalError> {
        arbitrary()
    }
}

impl<T: DecimalInt, const SCALE: u32> TryFrom<usize> for Decimal<T, SCALE> {
    type Error = DecimalError;

    /// The whole number `value`.
    fn try_from(value: usize) -> (r: Result<Self, DecimalError>)
        ensures
            outcome(r) == fitted::<T>(value * pow10(SCALE as nat)),
    {
        Self::checked_from_i128(value as i128)
    }
}

impl<T: DecimalInt, const SCALE: u32> TryFromSpecImpl<usize> for Decimal<T, SCALE> {
    /// The result is stated by `try_from` itself.
    open spec fn obeys_try_from_spec() -> bool {
        false
    }

    open spec fn try_from_spec(v: usize) -> Result<Self, DecimalError> {
        arbitrary()
    }
}

impl<T: DecimalInt, const SCALE: u32> TryFrom<u128> for Decimal<T, SCALE> {
    type Error = DecimalError;

    /// The whole number `value`.
    fn try_from(value: u128) -> (r: Result<Self, DecimalError>)
        ensures
            outcome(r) == fitted::<T>(value * pow10(SCALE as nat)),
    {
        proof {
            T::lemma_range();
            crate::rounding::lemma_pow10_positive(SCALE as nat);
        }
        if value > i128::MAX as u128 {
            proof {
                let p = pow10(SCALE as nat);
                assert(value * p > i128::MAX) by (nonlinear_arith)
                    requires
                        value > i128::MAX,
                        p >= 1,
                ;
            }
            return Err(DecimalError::Overflow);
        }
        Self::checked_from_i128(value as i128)
    }
}

impl<T: DecimalInt, const SCALE: u32> TryFromSpecImpl<u128> for Decimal<T, SCALE> {
    /// The result is stated by `try_from` itself.
    open spec fn obeys_try_from_spec() -> bool {
        false
    }

    open spec fn try_from_spec(v: u128) -> Result<Self, DecimalError> {
        arbitrary()
    }
}

/// Widening to the 128-bit backing never fails.
impl<const SCALE: u32> From<Decimal<i64, SCALE>> for Decimal<i128, SCALE> {
    fn from(value: Decimal<i64, SCALE>) -> (r: Self)
        ensures
            r@ == value@,
    {
        Decimal::from_units(value.units() as i128)
    }
}

impl<const SCALE: u32> FromSpecImpl<Decimal<i64, SCALE>> for Decimal<i128, SCALE> {
    /// The result is stated by `from` itself.
    open spec fn obeys_from_spec() -> bool {
        false
    }

    open spec fn from_spec(v: Decimal<i64, SCALE>) -> Self {
        arbitrary()
    }
}

/// Narrowing to the 64-bit backing checks the range again.
impl<const SCALE: u32> TryFrom<Decimal<i128, SCALE>> for Decimal<i64, SCALE> {
    type Error = DecimalError;

    fn try_from(value: Decimal<i128, SCALE>) -> (r: Result<Self, DecimalError>)
        ensures
            outcome(r) == fitted::<i64>(value@),
    {
        Decimal::<i64, SCALE>::from_i128(value.units())
    }
}

impl<const SCALE: u32> TryFromSpecImpl<Decimal<i128, SCALE>> for Decimal<i64, SCALE> {
    /// The result is stated by `try_from` itself.
    open spec fn obeys_try_from_spec() -> bool {
        false
    }

    open spec fn try_from_spec(v: Decimal<i128, SCALE>) -> Result<Self, DecimalError> {
        arbitrary()
    }
}

} // verus!
