//! The failures that decimal operations report.
use vstd::prelude::*;

use crate::display::{append_digits, digits_of};
use vstd::string::StringExecFns;

verus! {

/// Why an operation produced no value.
#[derive(Debug, Clone, PartialEq, Eq, Structural)]
pub enum DecimalError {
    /// The text to parse was empty.
    Empty,
    /// Malformed text, an inexact exact-rescale, or a non-finite float.
    Invalid,
    /// The text carried more fractional digits than the scale allows.
    TooManyFractionalDigits { provided: usize, allowed: usize },
    /// The divisor was zero.
    DivisionByZero,
    /// A result or an intermediate left the representable range.
    Overflow,
}

/// The message for each failure.
pub open spec fn error_text(e: DecimalError) -> Seq<char> {
    match e {
        DecimalError::Empty => "empty input"@,
        DecimalError::Invalid => "invalid format"@,
        DecimalError::TooManyFractionalDigits { provided, allowed } => {
            "too many fractional digits (provided "@ + digits_of(provided as nat) + ", allowed "@
                + digits_of(allowed as nat) + ")"@
        },
        DecimalError::DivisionByZero => "division by zero"@,
        DecimalError::Overflow => "value out of range"@,
    }
}

impl DecimalError {
    /// A short message that says what went wrong.
    pub fn to_string(&self) -> (r: String)
        ensures
            r@ == error_text(*self),
    {
        match self {
            DecimalError::Empty => String::from_str("empty input"),
            DecimalError::Invalid => String::from_str("invalid format"),
            DecimalError::TooManyFractionalDigits { provided, allowed } => {
                let mut out = String::from_str("too many fractional digits (provided ");
                append_digits(&mut out, *provided as u128);
                out.append(", allowed ");
                append_digits(&mut out, *allowed as u128);
                out.append(")");
                out
            },
            DecimalError::DivisionByZero => String::from_str("division by zero"),
            DecimalError::Overflow => String::from_str("value out of range"),
        }
    }
}

} // verus!
