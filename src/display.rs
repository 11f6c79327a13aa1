//! Writing a decimal as text: an optional `-`, the integer digits, and
//! when the scale is not zero a `.` followed by exactly `SCALE` digits.
use vstd::prelude::*;

use crate::backing::DecimalInt;
use crate::decimal::Decimal;
use crate::rounding::{abs, lemma_pow10_wide_bound, magnitude, pow10, pow10_wide, MAX_SCALE};
use vstd::string::StringExecFns;

verus! {

/// The character of the decimal digit `d`.
pub open spec fn digit_char(d: int) -> char {
    seq!['0', '1', '2', '3', '4', '5', '6', '7', '8', '9'][d]
}

/// The decimal digits of `n`, most significant first, without leading
/// zeros; zero is `"0"`.
pub open spec fn digits_of(n: nat) -> Seq<char>
    decreases n,
{
    if n < 10 {
        seq![digit_char(n as int)]
    } else {
        digits_of(n / 10).push(digit_char((n % 10) as int))
    }
}

/// The last `width` decimal digits of `n`, zero-padded on the left.
pub open spec fn padded_digits(n: nat, width: nat) -> Seq<char>
    decreases width,
{
    if width == 0 {
        Seq::empty()
    } else {
        padded_digits(n / 10, (width - 1) as nat).push(digit_char((n % 10) as int))
    }
}

/// The canonical text of the decimal with minor units `m` at scale `scale`.
pub open spec fn rendered(m: int, scale: nat) -> Seq<char> {
    let a = abs(m) as nat;
    let sign = if m < 0 {
        seq!['-']
    } else {
        Seq::empty()
    };
    if scale == 0 {
        sign + digits_of(a)
    } else {
        sign + digits_of(a / pow10(scale) as nat) + seq!['.'] + padded_digits(
            a % pow10(scale) as nat,
            scale,
        )
    }
}

pub(crate) fn append_digit(out: &mut String, d: u128)
    requires
        d < 10,
    ensures
        final(out)@ == old(out)@.push(digit_char(d as int)),
{
    let text = match d {
        0 => "0",
        1 => "1",
        2 => "2",
        3 => "3",
        4 => "4",
        5 => "5",
        6 => "6",
        7 => "7",
        8 => "8",
        _ => "9",
    };
    proof {
        reveal_strlit("0");
        reveal_strlit("1");
        reveal_strlit("2");
        reveal_strlit("3");
        reveal_strlit("4");
        reveal_strlit("5");
        reveal_strlit("6");
        reveal_strlit("7");
        reveal_strlit("8");
        reveal_strlit("9");
    }
    out.append(text);
    assert(final(out)@ =~= old(out)@.push(digit_char(d as int)));
}

pub(crate) fn append_digits(out: &mut String, n: u128)
    ensures
        final(out)@ == old(out)@ + digits_of(n as nat),
    decreases n,
{
    if n >= 10 {
        append_digits(out, n / 10);
    }
    append_digit(out, n % 10);
    assert(final(out)@ =~= old(out)@ + digits_of(n as nat));
}

fn append_padded(out: &mut String, n: u128, width: u32)
    ensures
        final(out)@ == old(out)@ + padded_digits(n as nat, width as nat),
    decreases width,
{
    if width == 0 {
        assert(final(out)@ =~= old(out)@ + padded_digits(n as nat, width as nat));
        return;
    }
    append_padded(out, n / 10, width - 1);
    append_digit(out, n % 10);
    assert(final(out)@ =~= old(out)@ + padded_digits(n as nat, width as nat));
}

impl<T: DecimalInt, const SCALE: u32> Decimal<T, SCALE> {
    /// The canonical text: exactly `SCALE` fractional digits, and a `-`
    /// only below zero.
    pub fn to_string(&self) -> (r: String)
        requires
            SCALE <= MAX_SCALE,
        ensures
            r@ == rendered(self@, SCALE as nat),
    {
        proof {
            self.lemma_in_range();
        }
        let a = magnitude(self.units().to_i128());
        let mut out = String::new();
        if self.units().to_i128() < 0 {
            out.append("-");
            proof {
                reveal_strlit("-");
            }
        }
        if SCALE == 0 {
            append_digits(&mut out, a);
        } else {
            proof {
                lemma_pow10_wide_bound(SCALE as nat);
            }
            let scale = pow10_wide(SCALE) as u128;
            append_digits(&mut out, a / scale);
            out.append(".");
            proof {
                reveal_strlit(".");
            }
            append_padded(&mut out, a % scale, SCALE);
        }
        assert(out@ =~= rendered(self@, SCALE as nat));
        out
    }
}

} // verus!
