//! Fixed-scale decimal arithmetic over a chosen backing integer.
//!
//! A `Decimal<T, SCALE>` holds an integer of type `T` that counts units of
//! `10^-SCALE`. Scale and backing type are part of the type; moving between
//! them is always an explicit, checked operation. Every fallible operation
//! reports a `DecimalError`; only the `+` and `-` operators fault, and
//! `checked_add` / `checked_sub` are their safe forms.
pub mod arithmetic;
pub mod backing;
pub mod conversion;
pub mod decimal;
pub mod display;
pub mod error;
pub mod laws;
pub mod parsing;
pub mod rounding;

pub use crate::backing::DecimalInt;
pub use crate::decimal::Decimal;
pub use crate::error::DecimalError;
pub use crate::rounding::{RoundingMode, MAX_SCALE};
