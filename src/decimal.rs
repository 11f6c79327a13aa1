//! The fixed-point value, its constructors, and addition and subtraction
//! at one scale.
use vstd::prelude::*;

use crate::backing::DecimalInt;
use crate::error::DecimalError;
use crate::rounding::{checked_pow10, lemma_pow10_wide_bound, pow10, MAX_SCALE};

verus! {

/// A fixed-point number: `minor_units / 10^SCALE`, stored in `T`.
#[derive(Debug, Clone, Copy, PartialEq, Eq, Hash)]
pub struct Decimal<T, const SCALE: u32> {
    minor_units: T,
}

impl<T: DecimalInt, const SCALE: u32> View for Decimal<T, SCALE> {
    type V = int;

    /// The minor units: the value times `10^SCALE`.
    closed spec fn view(&self) -> int {
        self.minor_units.int_value()
    }
}

/// The minor units of a successful result, or its error.
pub open spec fn outcome<T: DecimalInt, const S: u32>(
    r: Result<Decimal<T, S>, DecimalError>,
) -> Result<int, DecimalError> {
    match r {
        Ok(d) => Ok(d@),
        Err(e) => Err(e),
    }
}

/// `v` as minor units of backing type `T`, or `Overflow` where it does not fit.
pub open spec fn fitted<T: DecimalInt>(v: int) -> Result<int, DecimalError> {
    if T::fits(v) {
        Ok(v)
    } else {
        Err(DecimalError::Overflow)
    }
}

impl<T: DecimalInt, const SCALE: u32> Decimal<T, SCALE> {
    /// The decimal with the given minor units.
    pub(crate) fn from_units(minor_units: T) -> (r: Self)
        ensures
            r@ == minor_units.int_value(),
    {
        Decimal { minor_units }
    }

    /// The minor units.
    pub(crate) fn units(self) -> (r: T)
        ensures
            r.int_value() == self@,
    {
        self.minor_units
    }

    /// The minor units lie in the backing type's range, hence in `i128`.
    pub proof fn lemma_in_range(self)
        ensures
            T::fits(self@),
            i128::MIN <= self@ <= i128::MAX,
    {
        T::lemma_range();
        self.minor_units.lemma_value_fits();
    }

    /// The value with `value` minor units (a value already scaled by
    /// `10^SCALE`), where they fit the backing type.
    pub fn from_i128(value: i128) -> (r: Result<Self, DecimalError>)
        ensures
            outcome(r) == fitted::<T>(value as int),
    {
        match T::try_from_i128(value) {
            Some(minor_units) => Ok(Decimal { minor_units }),
            None => Err(DecimalError::Overflow),
        }
    }

    /// The whole number `value`, that is `value * 10^SCALE` minor units.
    pub fn checked_from_i128(value: i128) -> (r: Result<Self, DecimalError>)
        ensures
            outcome(r) == fitted::<T>(value * pow10(SCALE as nat)),
    {
        proof {
            T::lemma_range();
        }
        if value == 0 {
            return Self::from_i128(0);
        }
        match checked_pow10(SCALE) {
            None => {
                proof {
                    lemma_pow10_wide_bound(SCALE as nat);
                    let p = pow10(SCALE as nat);
                    assert(value * p > i128::MAX || value * p < i128::MIN) by (nonlinear_arith)
                        requires
                            value != 0,
                            p > i128::MAX + 1,
                    ;
                }
                Err(DecimalError::Overflow)
            },
            Some(scale) => match value.checked_mul(scale) {
                Some(minor_units) => Self::from_i128(minor_units),
                None => Err(DecimalError::Overflow),
            },
        }
    }

    /// Zero.
    pub fn zero() -> (r: Self)
        ensures
            r@ == 0,
    {
        proof {
            T::lemma_range();
        }
        Self::from_i128(0).unwrap()
    }

    /// One: `10^SCALE` minor units.
    pub fn one() -> (r: Self)
        requires
            SCALE <= MAX_SCALE,
        ensures
            r@ == pow10(SCALE as nat),
    {
        proof {
            T::lemma_range();
            reveal_with_fuel(pow10, 19);
            crate::rounding::lemma_pow10_monotone(SCALE as nat, 18);
        }
        Self::checked_from_i128(1).unwrap()
    }

    pub fn is_zero(self) -> (r: bool)
        ensures
            r == (self@ == 0),
    {
        self.minor_units.to_i128() == 0
    }

    /// Strictly below zero.
    pub fn is_negative(self) -> (r: bool)
        ensures
            r == (self@ < 0),
    {
        self.minor_units.to_i128() < 0
    }

    /// Not below zero: zero counts as positive.
    pub fn is_positive(self) -> (r: bool)
        ensures
            r == (self@ >= 0),
    {
        self.minor_units.to_i128() >= 0
    }

    /// The sum, or `None` where it leaves the backing type's range.
    pub fn checked_add(self, rhs: Self) -> (r: Option<Self>)
        ensures
            r is Some <==> T::fits(self@ + rhs@),
            r matches Some(s) ==> s@ == self@ + rhs@,
    {
        match self.minor_units.checked_add(rhs.minor_units) {
            Some(minor_units) => Some(Decimal { minor_units }),
            None => None,
        }
    }

    /// Adds `rhs` in place: the assigning form of `+`, which faults where
    /// the sum leaves the backing type's range.
    pub fn add_assign(&mut self, rhs: Self)
        requires
            T::fits(old(self)@ + rhs@),
        ensures
            final(self)@ == old(self)@ + rhs@,
    {
        *self = self.checked_add(rhs).unwrap();
    }

    /// Subtracts `rhs` in place: the assigning form of `-`, which faults
    /// where the difference leaves the backing type's range.
    pub fn sub_assign(&mut self, rhs: Self)
        requires
            T::fits(old(self)@ - rhs@),
        ensures
            final(self)@ == old(self)@ - rhs@,
    {
        *self = self.checked_sub(rhs).unwrap();
    }

    /// The difference, or `None` where it leaves the backing type's range.
    pub fn checked_sub(self, rhs: Self) -> (r: Option<Self>)
        ensures
            r is Some <==> T::fits(self@ - rhs@),
            r matches Some(s) ==> s@ == self@ - rhs@,
    {
        match self.minor_units.checked_sub(rhs.minor_units) {
            Some(minor_units) => Some(Decimal { minor_units }),
            None => None,
        }
    }
}

/// Unchecked addition, for callers that have bounded their values: it
/// faults where the sum leaves the backing type's range, and verified
/// callers must show that it does not.
impl<T: DecimalInt, const SCALE: u32> core::ops::Add for Decimal<T, SCALE> {
    type Output = Self;

    fn add(self, rhs: Self) -> (r: Self)
        ensures
            r@ == self@ + rhs@,
    {
        self.checked_add(rhs).unwrap()
    }
}

impl<T: DecimalInt, const SCALE: u32> vstd::std_specs::ops::AddSpecImpl for Decimal<T, SCALE> {
    /// The sum is stated by `add` itself.
    open spec fn obeys_add_spec() -> bool {
        false
    }

    open spec fn add_req(self, rhs: Self) -> bool {
        T::fits(self@ + rhs@)
    }

    open spec fn add_spec(self, rhs: Self) -> Self {
        arbitrary()
    }
}

/// Unchecked subtraction, for callers that have bounded their values: it
/// faults where the difference leaves the backing type's range, and
/// verified callers must show that it does not.
impl<T: DecimalInt, const SCALE: u32> core::ops::Sub for Decimal<T, SCALE> {
    type Output = Self;

    fn sub(self, rhs: Self) -> (r: Self)
        ensures
            r@ == self@ - rhs@,
    {
        self.checked_sub(rhs).unwrap()
    }
}

impl<T: DecimalInt, const SCALE: u32> vstd::std_specs::ops::SubSpecImpl for Decimal<T, SCALE> {
    /// The difference is stated by `sub` itself.
    open spec fn obeys_sub_spec() -> bool {
        false
    }

    open spec fn sub_req(self, rhs: Self) -> bool {
        T::fits(self@ - rhs@)
    }

    open spec fn sub_spec(self, rhs: Self) -> Self {
        arbitrary()
    }
}

} // verus!
