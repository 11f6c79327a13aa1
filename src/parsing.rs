//! Reading a decimal from text.
//!
//! The grammar is `sign? (int frac? | frac)` with `sign := '+' | '-'`,
//! `int := digit+` and `frac := '.' digit*`: ASCII digits only, no spaces,
//! and never more fractional digits than the scale.
use vstd::prelude::*;

use crate::backing::DecimalInt;
use crate::decimal::{outcome, Decimal};
use crate::error::DecimalError;
use crate::rounding::{checked_pow10, lemma_pow10_positive, pow10};
use vstd::string::StringSliceAdditionalSpecFns;

verus! {

/// The bytes of the grammar, in ASCII.
pub const PLUS: u8 = 43;

pub const MINUS: u8 = 45;

pub const DOT: u8 = 46;

pub const ZERO: u8 = 48;

pub const NINE: u8 = 57;

pub open spec fn is_digit(b: u8) -> bool {
    ZERO <= b <= NINE
}

pub open spec fn starts_with_sign(s: Seq<u8>) -> bool {
    s.len() > 0 && (s[0] == PLUS || s[0] == MINUS)
}

/// `s` read as decimal digits from left to right in the 128-bit
/// intermediate: a byte that is not a digit gives `Invalid`, a value past
/// `i128::MAX` gives `Overflow`, whichever comes first. Empty reads as zero.
pub open spec fn digits_value(s: Seq<u8>) -> Result<int, DecimalError>
    decreases s.len(),
{
    if s.len() == 0 {
        Ok(0)
    } else {
        match digits_value(s.drop_last()) {
            Err(e) => Err(e),
            Ok(v) => {
                let b = s.last();
                if !is_digit(b) {
                    Err(DecimalError::Invalid)
                } else if v * 10 + (b - ZERO) > i128::MAX {
                    Err(DecimalError::Overflow)
                } else {
                    Ok(v * 10 + (b - ZERO))
                }
            },
        }
    }
}

/// Position of the first `.` in `s`, or its length where there is none.
pub open spec fn dot_position(s: Seq<u8>) -> nat
    decreases s.len(),
{
    if s.len() == 0 || s[0] == DOT {
        0
    } else {
        1 + dot_position(s.drop_first())
    }
}

/// `s` without its leading sign, if it has one.
pub open spec fn unsigned_part(s: Seq<u8>) -> Seq<u8> {
    if starts_with_sign(s) {
        s.drop_first()
    } else {
        s
    }
}

/// The digits before the first `.`.
pub open spec fn int_digits(u: Seq<u8>) -> Seq<u8> {
    u.take(dot_position(u) as int)
}

/// The digits after the first `.`; none where there is no `.`.
pub open spec fn frac_digits(u: Seq<u8>) -> Seq<u8> {
    if dot_position(u) < u.len() {
        u.skip(dot_position(u) + 1int)
    } else {
        Seq::empty()
    }
}

/// The minor units at scale `scale` that the text `s` denotes, or why it
/// denotes none: the integer digits times `10^scale`, plus the fractional
/// digits times `10^(scale - count)`, negated after a leading `-`. Each part
/// is read in the 128-bit intermediate, and the magnitude must fit the
/// backing type before the sign is applied.
pub open spec fn parsed_units<T: DecimalInt>(s: Seq<u8>, scale: nat) -> Result<int, DecimalError> {
    let u = unsigned_part(s);
    let ip = int_digits(u);
    let fp = frac_digits(u);
    if s.len() == 0 {
        Err(DecimalError::Empty)
    } else if ip.len() == 0 && fp.len() == 0 {
        Err(DecimalError::Invalid)
    } else if starts_with_sign(ip) || starts_with_sign(fp) {
        Err(DecimalError::Invalid)
    } else if fp.len() > scale {
        Err(
            DecimalError::TooManyFractionalDigits {
                provided: fp.len() as usize,
                allowed: scale as usize,
            },
        )
    } else {
        match (digits_value(ip), digits_value(fp)) {
            (Err(e), _) => Err(e),
            (Ok(_), Err(e)) => Err(e),
            (Ok(iv), Ok(fv)) => {
                let m = iv * pow10(scale) + fv * pow10((scale - fp.len()) as nat);
                if !T::fits(m) {
                    Err(DecimalError::Overflow)
                } else if s[0] == MINUS {
                    Ok(-m)
                } else {
                    Ok(m)
                }
            },
        }
    }
}

proof fn lemma_digits_nonnegative(s: Seq<u8>)
    ensures
        digits_value(s) matches Ok(v) ==> 0 <= v <= i128::MAX,
    decreases s.len(),
{
    if s.len() > 0 {
        lemma_digits_nonnegative(s.drop_last());
    }
}

/// Once a prefix fails, the whole run fails the same way.
proof fn lemma_digits_error_persists(s: Seq<u8>, k: int)
    requires
        0 <= k <= s.len(),
        digits_value(s.take(k)) is Err,
    ensures
        digits_value(s) == digits_value(s.take(k)),
    decreases s.len() - k,
{
    if k < s.len() {
        assert(s.take(k + 1).drop_last() =~= s.take(k));
        lemma_digits_error_persists(s, k + 1);
    } else {
        assert(s.take(k) =~= s);
    }
}

pub proof fn lemma_dot_position(s: Seq<u8>, i: int)
    requires
        0 <= i <= s.len(),
        forall|j: int| 0 <= j < i ==> s[j] != DOT,
        i == s.len() || s[i] == DOT,
    ensures
        dot_position(s) == i,
    decreases i,
{
    if i > 0 {
        lemma_dot_position(s.drop_first(), i - 1);
    }
}

/// Reads `b[start..end]` as digits.
fn read_digits(b: &[u8], start: usize, end: usize) -> (r: Result<i128, DecimalError>)
    requires
        start <= end <= b@.len(),
    ensures
        match r {
            Ok(v) => digits_value(b@.subrange(start as int, end as int)) == Ok::<
                int,
                DecimalError,
            >(v as int),
            Err(e) => digits_value(b@.subrange(start as int, end as int)) == Err::<
                int,
                DecimalError,
            >(e),
        },
{
    let ghost s = b@.subrange(start as int, end as int);
    let mut v: i128 = 0;
    let mut i: usize = start;
    assert(s.take(0) =~= Seq::<u8>::empty());
    while i < end
        invariant
            start <= i <= end <= b@.len(),
            s == b@.subrange(start as int, end as int),
            digits_value(s.take(i - start)) == Ok::<int, DecimalError>(v as int),
            v >= 0,
        decreases end - i,
    {
        let c = b[i];
        let ghost k = i - start;
        assert(s.take(k + 1).drop_last() =~= s.take(k));
        assert(s.take(k + 1).last() == c);
        if c < ZERO || c > NINE {
            proof {
                lemma_digits_error_persists(s, k + 1);
            }
            return Err(DecimalError::Invalid);
        }
        let d = (c - ZERO) as i128;
        let next = match v.checked_mul(10) {
            Some(t) => t.checked_add(d),
            None => None,
        };
        match next {
            Some(n) => {
                v = n;
            },
            None => {
                proof {
                    lemma_digits_error_persists(s, k + 1);
                }
                return Err(DecimalError::Overflow);
            },
        }
        i = i + 1;
    }
    assert(s.take(end - start) =~= s);
    Ok(v)
}

/// `digits * 10^exp` where it fits the 128-bit intermediate.
fn scale_digits(digits: i128, exp: u32) -> (r: Option<i128>)
    requires
        digits >= 0,
    ensures
        r is Some <==> digits * pow10(exp as nat) <= i128::MAX,
        r matches Some(v) ==> v == digits * pow10(exp as nat),
{
    proof {
        lemma_pow10_positive(exp as nat);
    }
    if digits == 0 {
        return Some(0);
    }
    match checked_pow10(exp) {
        Some(p) => digits.checked_mul(p),
        None => {
            proof {
                let p = pow10(exp as nat);
                assert(digits * p >= p) by (nonlinear_arith)
                    requires
                        digits >= 1,
                        p >= 1,
                ;
            }
            None
        },
    }
}

/// The position of the first `.` at or after `start`, or `b.len()`.
fn find_dot(b: &[u8], start: usize) -> (r: usize)
    requires
        start <= b@.len(),
    ensures
        r == start + dot_position(b@.skip(start as int)),
        r <= b@.len(),
{
    let mut dot: usize = start;
    while dot < b.len() && b[dot] != DOT
        invariant
            start <= dot <= b@.len(),
            forall|j: int| start <= j < dot ==> b@[j] != DOT,
        decreases b@.len() - dot,
    {
        dot = dot + 1;
    }
    proof {
        lemma_dot_position(b@.skip(start as int), dot - start);
    }
    dot
}

/// `int_value * 10^scale + frac_value * 10^(scale - frac_len)`, where it
/// fits the 128-bit intermediate.
fn combine_parts(int_value: i128, frac_value: i128, scale: u32, frac_len: u32) -> (r: Option<i128>)
    requires
        int_value >= 0,
        frac_value >= 0,
        frac_len <= scale,
    ensures
        r is Some <==> int_value * pow10(scale as nat) + frac_value * pow10(
            (scale - frac_len) as nat,
        ) <= i128::MAX,
        r matches Some(m) ==> m == int_value * pow10(scale as nat) + frac_value * pow10(
            (scale - frac_len) as nat,
        ),
        r matches Some(m) ==> m >= 0,
{
    let ghost a = int_value * pow10(scale as nat);
    let ghost c = frac_value * pow10((scale - frac_len) as nat);
    proof {
        lemma_pow10_positive(scale as nat);
        lemma_pow10_positive((scale - frac_len) as nat);
        assert(a >= 0 && c >= 0) by (nonlinear_arith)
            requires
                a == int_value * pow10(scale as nat),
                c == frac_value * pow10((scale - frac_len) as nat),
                int_value >= 0,
                frac_value >= 0,
                pow10(scale as nat) >= 1,
                pow10((scale - frac_len) as nat) >= 1,
        ;
    }
    let scaled_int = match scale_digits(int_value, scale) {
        Some(v) => v,
        None => return None,
    };
    let scaled_frac = match scale_digits(frac_value, scale - frac_len) {
        Some(v) => v,
        None => return None,
    };
    scaled_int.checked_add(scaled_frac)
}

impl<T: DecimalInt, const SCALE: u32> Decimal<T, SCALE> {
    /// Reads `s` by the decimal grammar.
    pub fn parse(s: &str) -> (r: Result<Self, DecimalError>)
        ensures
            outcome(r) == parsed_units::<T>(s.spec_bytes(), SCALE as nat),
    {
        let b = s.as_bytes();
        let len = b.len();
        let ghost sb = b@;
        if len == 0 {
            return Err(DecimalError::Empty);
        }
        let negative = b[0] == MINUS;
        let start: usize = if b[0] == MINUS || b[0] == PLUS {
            1
        } else {
            0
        };
        let ghost u = unsigned_part(sb);
        assert(u =~= sb.skip(start as int));
        let dot = find_dot(b, start);
        let frac_start: usize = if dot < len {
            dot + 1
        } else {
            len
        };
        let int_len = dot - start;
        let frac_len = len - frac_start;
        let ghost ip = int_digits(u);
        let ghost fp = frac_digits(u);
        assert(ip =~= sb.subrange(start as int, dot as int));
        assert(fp =~= sb.subrange(frac_start as int, len as int));
        if int_len == 0 && frac_len == 0 {
            return Err(DecimalError::Invalid);
        }
        if (int_len > 0 && (b[start] == PLUS || b[start] == MINUS)) || (frac_len > 0 && (
        b[frac_start] == PLUS || b[frac_start] == MINUS)) {
            return Err(DecimalError::Invalid);
        }
        if frac_len > SCALE as usize {
            return Err(
                DecimalError::TooManyFractionalDigits {
                    provided: frac_len,
                    allowed: SCALE as usize,
                },
            );
        }
        let int_value = match read_digits(b, start, dot) {
            Ok(v) => v,
            Err(e) => return Err(e),
        };
        let frac_value = match read_digits(b, frac_start, len) {
            Ok(v) => v,
            Err(e) => return Err(e),
        };
        proof {
            lemma_digits_nonnegative(ip);
            lemma_digits_nonnegative(fp);
        }
        proof {
            T::lemma_range();
        }
        let minor = match combine_parts(int_value, frac_value, SCALE, frac_len as u32) {
            Some(m) => m,
            None => return Err(DecimalError::Overflow),
        };
        if T::try_from_i128(minor).is_none() {
            return Err(DecimalError::Overflow);
        }
        let signed = if negative {
            -minor
        } else {
            minor
        };
        Self::from_i128(signed)
    }
}

impl<T: DecimalInt, const SCALE: u32> core::str::FromStr for Decimal<T, SCALE> {
    type Err = DecimalError;

    /// Reads `s` as `Decimal::parse` does.
    fn from_str(s: &str) -> Result<Self, DecimalError> {
        Self::parse(s)
    }
}

} // verus!
