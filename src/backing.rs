//! The integers a decimal can be stored in.
use vstd::prelude::*;

verus! {

/// A signed integer of at least 64 bits that can hold a decimal's minor
/// units. Every value widens exactly into `i128`; an `i128` narrows back
/// where it lies in the type's range.
pub trait DecimalInt: Copy + Sized {
    /// The integer this value stands for.
    spec fn int_value(self) -> int;

    /// Whether `v` is in the type's range.
    spec fn fits(v: int) -> bool;

    /// The range covers `i64`, lies in `i128`, and holds the negation of
    /// every value not below zero.
    proof fn lemma_range()
        ensures
            forall|v: int| i64::MIN <= v <= i64::MAX ==> #[trigger] Self::fits(v),
            forall|v: int| #[trigger] Self::fits(v) ==> i128::MIN <= v <= i128::MAX,
            forall|v: int| 0 <= v && #[trigger] Self::fits(v) ==> Self::fits(-v),
    ;

    /// Every value is in range.
    proof fn lemma_value_fits(self)
        ensures
            Self::fits(self.int_value()),
    ;

    fn checked_add(self, rhs: Self) -> (r: Option<Self>)
        ensures
            r is Some <==> Self::fits(self.int_value() + rhs.int_value()),
            r matches Some(s) ==> s.int_value() == self.int_value() + rhs.int_value(),
    ;

    fn checked_sub(self, rhs: Self) -> (r: Option<Self>)
        ensures
            r is Some <==> Self::fits(self.int_value() - rhs.int_value()),
            r matches Some(s) ==> s.int_value() == self.int_value() - rhs.int_value(),
    ;

    fn to_i128(self) -> (r: i128)
        ensures
            r == self.int_value(),
    ;

    fn try_from_i128(value: i128) -> (r: Option<Self>)
        ensures
            r is Some <==> Self::fits(value as int),
            r matches Some(s) ==> s.int_value() == value,
    ;
}

impl DecimalInt for i64 {
    open spec fn int_value(self) -> int {
        self as int
    }

    open spec fn fits(v: int) -> bool {
        i64::MIN <= v <= i64::MAX
    }

    proof fn lemma_range() {
    }

    proof fn lemma_value_fits(self) {
    }

    fn checked_add(self, rhs: Self) -> (r: Option<Self>) {
        i64::checked_add(self, rhs)
    }

    fn checked_sub(self, rhs: Self) -> (r: Option<Self>) {
        i64::checked_sub(self, rhs)
    }

    fn to_i128(self) -> (r: i128) {
        self as i128
    }

    fn try_from_i128(value: i128) -> (r: Option<Self>) {
        if i64::MIN as i128 <= value && value <= i64::MAX as i128 {
            Some(value as i64)
        } else {
            None
        }
    }
}

impl DecimalInt for i128 {
    open spec fn int_value(self) -> int {
        self as int
    }

    open spec fn fits(v: int) -> bool {
        i128::MIN <= v <= i128::MAX
    }

    proof fn lemma_range() {
    }

    proof fn lemma_value_fits(self) {
    }

    fn checked_add(self, rhs: Self) -> (r: Option<Self>) {
        i128::checked_add(self, rhs)
    }

    fn checked_sub(self, rhs: Self) -> (r: Option<Self>) {
        i128::checked_sub(self, rhs)
    }

    fn to_i128(self) -> (r: i128) {
        self
    }

    fn try_from_i128(value: i128) -> (r: Option<Self>) {
        Some(value)
    }
}

} // verus!
