//! Multiplication and division across scales.
use vstd::prelude::*;

use crate::backing::DecimalInt;
use crate::conversion::rescale_value;
use crate::decimal::{fitted, outcome, Decimal};
use crate::error::DecimalError;
use crate::rounding::{
    fits_wide, pow10, pow10_wide, round_div, round_quotient, RoundingMode, MAX_SCALE,
};

verus! {

/// Minor units at scale `out_scale` of the product of `a` and `b`, minor
/// units whose scales add up to `in_scale`. The product must fit the
/// 128-bit intermediate; it is then rescaled, and the result must fit the
/// backing type.
pub open spec fn product_units<T: DecimalInt>(
    a: int,
    b: int,
    in_scale: nat,
    out_scale: nat,
    mode: RoundingMode,
) -> Result<int, DecimalError> {
    if !fits_wide(a * b) {
        Err(DecimalError::Overflow)
    } else {
        fitted::<T>(rescale_value(a * b, in_scale, out_scale, mode))
    }
}

/// Minor units at scale `out_scale` of `a` (at `lhs_scale`) divided by `b`
/// (at `rhs_scale`): `a * 10^(rhs_scale + out_scale)` over
/// `b * 10^lhs_scale`, the quotient rounded under `mode`. No range is applied.
pub open spec fn quotient_value(
    a: int,
    b: int,
    lhs_scale: nat,
    rhs_scale: nat,
    out_scale: nat,
    mode: RoundingMode,
) -> int {
    round_div(a * pow10(rhs_scale + out_scale), b * pow10(lhs_scale), mode)
}

/// The minor units of a division: refused for a zero divisor, and both
/// scaled operands must fit the 128-bit intermediate and the quotient the
/// backing type.
pub open spec fn quotient_units<T: DecimalInt>(
    a: int,
    b: int,
    lhs_scale: nat,
    rhs_scale: nat,
    out_scale: nat,
    mode: RoundingMode,
) -> Result<int, DecimalError> {
    let n = a * pow10(rhs_scale + out_scale);
    let d = b * pow10(lhs_scale);
    if b == 0 {
        Err(DecimalError::DivisionByZero)
    } else if !fits_wide(n) || !fits_wide(d) {
        Err(DecimalError::Overflow)
    } else {
        fitted::<T>(quotient_value(a, b, lhs_scale, rhs_scale, out_scale, mode))
    }
}

impl<T: DecimalInt, const SCALE: u32> Decimal<T, SCALE> {
    /// The product, expressed at scale `OUT`.
    pub fn mul_rescale<const RHS: u32, const OUT: u32>(
        self,
        rhs: Decimal<T, RHS>,
        mode: RoundingMode,
    ) -> (r: Result<Decimal<T, OUT>, DecimalError>)
        requires
            SCALE <= MAX_SCALE,
            RHS <= MAX_SCALE,
            OUT <= MAX_SCALE,
        ensures
            outcome(r) == product_units::<T>(self@, rhs@, (SCALE + RHS) as nat, OUT as nat, mode),
    {
        proof {
            T::lemma_range();
            self.lemma_in_range();
            rhs.lemma_in_range();
        }
        let a = self.units().to_i128();
        let b = rhs.units().to_i128();
        let product = match a.checked_mul(b) {
            Some(p) => p,
            None => return Err(DecimalError::Overflow),
        };
        let in_scale = SCALE + RHS;
        if OUT >= in_scale {
            let factor = pow10_wide(OUT - in_scale);
            match product.checked_mul(factor) {
                Some(scaled) => Decimal::<T, OUT>::from_i128(scaled),
                None => Err(DecimalError::Overflow),
            }
        } else {
            let factor = pow10_wide(in_scale - OUT);
            match round_quotient(product, factor, mode) {
                Ok(rounded) => Decimal::<T, OUT>::from_i128(rounded),
                Err(e) => Err(e),
            }
        }
    }

    /// The product at this value's own scale: applying a rate.
    pub fn mul<const RATE: u32>(self, rate: Decimal<T, RATE>, mode: RoundingMode) -> (r: Result<
        Self,
        DecimalError,
    >)
        requires
            SCALE <= MAX_SCALE,
            RATE <= MAX_SCALE,
        ensures
            outcome(r) == product_units::<T>(
                self@,
                rate@,
                (SCALE + RATE) as nat,
                SCALE as nat,
                mode,
            ),
    {
        self.mul_rescale::<RATE, SCALE>(rate, mode)
    }

    /// The quotient, expressed at scale `OUT`; a zero divisor is refused
    /// before anything is computed.
    pub fn div_rescale<const RHS: u32, const OUT: u32>(
        self,
        rhs: Decimal<T, RHS>,
        mode: RoundingMode,
    ) -> (r: Result<Decimal<T, OUT>, DecimalError>)
        requires
            SCALE <= MAX_SCALE,
            RHS <= MAX_SCALE,
            OUT <= MAX_SCALE,
        ensures
            outcome(r) == quotient_units::<T>(
                self@,
                rhs@,
                SCALE as nat,
                RHS as nat,
                OUT as nat,
                mode,
            ),
            rhs@ == 0 ==> r == Err::<Decimal<T, OUT>, DecimalError>(DecimalError::DivisionByZero),
    {
        proof {
            T::lemma_range();
            self.lemma_in_range();
            rhs.lemma_in_range();
        }
        let b = rhs.units().to_i128();
        if b == 0 {
            return Err(DecimalError::DivisionByZero);
        }
        let a = self.units().to_i128();
        let numerator = match a.checked_mul(pow10_wide(RHS + OUT)) {
            Some(n) => n,
            None => return Err(DecimalError::Overflow),
        };
        let denominator_factor = pow10_wide(SCALE);
        let denominator = match b.checked_mul(denominator_factor) {
            Some(d) => d,
            None => return Err(DecimalError::Overflow),
        };
        assert(denominator != 0) by (nonlinear_arith)
            requires
                denominator == b * denominator_factor,
                b != 0,
                denominator_factor >= 1,
        ;
        match round_quotient(numerator, denominator, mode) {
            Ok(rounded) => Decimal::<T, OUT>::from_i128(rounded),
            Err(e) => Err(e),
        }
    }

    /// The quotient at this value's own scale.
    pub fn div<const RATE: u32>(self, rate: Decimal<T, RATE>, mode: RoundingMode) -> (r: Result<
        Self,
        DecimalError,
    >)
        requires
            SCALE <= MAX_SCALE,
            RATE <= MAX_SCALE,
        ensures
            outcome(r) == quotient_units::<T>(
                self@,
                rate@,
                SCALE as nat,
                RATE as nat,
                SCALE as nat,
                mode,
            ),
            rate@ == 0 ==> r == Err::<Self, DecimalError>(DecimalError::DivisionByZero),
    {
        self.div_rescale::<RATE, SCALE>(rate, mode)
    }
}

} // verus!
