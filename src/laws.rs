//! Properties that relate several operations, proved over the same
//! functions that the operations' contracts are stated with.
use vstd::prelude::*;

use crate::arithmetic::quotient_value;
use crate::backing::DecimalInt;
use crate::conversion::{exactly_rescaled_units, rescale_value, round_value};
use crate::decimal::Decimal;
use crate::display::{digit_char, digits_of, padded_digits, rendered};
use crate::error::DecimalError;
use crate::parsing::{
    digits_value, frac_digits, int_digits, is_digit, lemma_dot_position, parsed_units,
    starts_with_sign, unsigned_part, DOT, MINUS, ZERO,
};
use crate::rounding::{
    abs, lemma_pow10_monotone, lemma_pow10_positive, lemma_pow10_wide_bound, pow10, round_div,
    round_magnitude, RoundingMode, MAX_SCALE,
};
use vstd::arithmetic::div_mod::{
    lemma_div_multiples_vanish, lemma_fundamental_div_mod, lemma_mod_breakdown,
    lemma_mod_multiples_basic, lemma_small_mod,
};
use vstd::utf8::{encode_utf8, is_ascii_chars, is_ascii_chars_encode_utf8};

verus! {

/// Rounding a quotient commutes with negating the dividend, in every mode:
/// the tie-break looks only at magnitudes.
pub proof fn lemma_round_div_negate_dividend(n: int, d: int, mode: RoundingMode)
    requires
        d != 0,
    ensures
        round_div(-n, d, mode) == -round_div(n, d, mode),
{
    assert(abs(-n) == abs(n));
    if n == 0 {
        assert(round_magnitude(0, abs(d), mode) == 0);
    }
}

/// Rounding a quotient commutes with negating the divisor, in every mode.
pub proof fn lemma_round_div_negate_divisor(n: int, d: int, mode: RoundingMode)
    requires
        d != 0,
    ensures
        round_div(n, -d, mode) == -round_div(n, d, mode),
{
    assert(abs(-d) == abs(d));
    if n == 0 {
        assert(round_magnitude(0, abs(d), mode) == 0);
    }
}

/// At an exact tie, half-even rounding lands on the even one of the two
/// nearest multiples.
pub proof fn lemma_half_even_tie(n: int, d: int)
    requires
        d > 0,
        2 * (abs(n) % d) == d,
    ensures
        round_div(n, d, RoundingMode::HalfEven) % 2 == 0,
        2 * abs(n - d * round_div(n, d, RoundingMode::HalfEven)) == d,
{
    let a = abs(n);
    let t = a / d;
    let m = round_magnitude(a, d, RoundingMode::HalfEven);
    lemma_fundamental_div_mod(a, d);
    assert(a - d * t == a % d);
    if t % 2 == 1 {
        assert(m == t + 1);
        assert(a - d * m == a % d - d) by (nonlinear_arith)
            requires
                m == t + 1,
                a - d * t == a % d,
        ;
    } else {
        assert(m == t);
    }
    assert(m % 2 == 0);
    let q = round_div(n, d, RoundingMode::HalfEven);
    if n < 0 {
        assert(q == -m);
        assert(n - d * q == -(a - d * m)) by (nonlinear_arith)
            requires
                q == -m,
                n == -a,
        ;
    } else {
        assert(q == m);
    }
}

/// Rescaling the negation gives the negation, before any range check.
pub proof fn lemma_rescale_negate(m: int, from: nat, to: nat, mode: RoundingMode)
    ensures
        rescale_value(-m, from, to, mode) == -rescale_value(m, from, to, mode),
{
    if to >= from {
        let p = pow10((to - from) as nat);
        assert((-m) * p == -(m * p)) by (nonlinear_arith);
    } else {
        lemma_pow10_positive((from - to) as nat);
        lemma_round_div_negate_dividend(m, pow10((from - to) as nat), mode);
    }
}

/// Rounding the negation in place gives the negation, before any range check.
pub proof fn lemma_round_negate(m: int, scale: nat, decimals: nat, mode: RoundingMode)
    ensures
        round_value(-m, scale, decimals, mode) == -round_value(m, scale, decimals, mode),
{
    if decimals < scale {
        let f = pow10((scale - decimals) as nat);
        lemma_pow10_positive((scale - decimals) as nat);
        lemma_round_div_negate_dividend(m, f, mode);
        let q = round_div(m, f, mode);
        assert((-q) * f == -(q * f)) by (nonlinear_arith);
    }
}

/// Dividing the negation of either operand gives the negated quotient,
/// before any range check.
pub proof fn lemma_quotient_negate(
    a: int,
    b: int,
    lhs_scale: nat,
    rhs_scale: nat,
    out_scale: nat,
    mode: RoundingMode,
)
    requires
        b != 0,
    ensures
        quotient_value(-a, b, lhs_scale, rhs_scale, out_scale, mode) == -quotient_value(
            a,
            b,
            lhs_scale,
            rhs_scale,
            out_scale,
            mode,
        ),
        quotient_value(a, -b, lhs_scale, rhs_scale, out_scale, mode) == -quotient_value(
            a,
            b,
            lhs_scale,
            rhs_scale,
            out_scale,
            mode,
        ),
{
    let pn = pow10(rhs_scale + out_scale);
    let pd = pow10(lhs_scale);
    lemma_pow10_positive(lhs_scale);
    assert((-a) * pn == -(a * pn)) by (nonlinear_arith);
    assert((-b) * pd == -(b * pd)) by (nonlinear_arith);
    assert(b * pd != 0) by (nonlinear_arith)
        requires
            b != 0,
            pd >= 1,
    ;
    lemma_round_div_negate_dividend(a * pn, b * pd, mode);
    lemma_round_div_negate_divisor(a * pn, b * pd, mode);
}

/// Scaling up exactly and then back down exactly gives the value again.
pub proof fn lemma_exact_rescale_round_trip<T: DecimalInt>(m: int, from: nat, to: nat)
    requires
        T::fits(m),
        from <= to,
    ensures
        exactly_rescaled_units::<T>(m, from, to) matches Ok(u) ==> exactly_rescaled_units::<T>(
            u,
            to,
            from,
        ) == Ok::<int, DecimalError>(m),
{
    let p = pow10((to - from) as nat);
    lemma_pow10_positive((to - from) as nat);
    if to > from {
        lemma_mod_multiples_basic(m, p);
        lemma_div_multiples_vanish(m, p);
        assert(p * m == m * p) by (nonlinear_arith);
    } else {
        assert(p == 1);
    }
}

/// The byte of each ASCII character.
pub open spec fn ascii_bytes(cs: Seq<char>) -> Seq<u8> {
    Seq::new(cs.len(), |i: int| cs[i] as u8)
}

pub open spec fn all_digits(s: Seq<u8>) -> bool {
    forall|i: int| 0 <= i < s.len() ==> is_digit(#[trigger] s[i])
}

proof fn lemma_digit_byte(d: int)
    requires
        0 <= d < 10,
    ensures
        digit_char(d) as u8 == ZERO + d,
        is_digit(digit_char(d) as u8),
        '\0' <= digit_char(d) <= '\u{7f}',
{
    assert(seq!['0', '1', '2', '3', '4', '5', '6', '7', '8', '9'][d] == digit_char(d));
}

proof fn lemma_ascii_bytes_push(cs: Seq<char>, c: char)
    ensures
        ascii_bytes(cs.push(c)) == ascii_bytes(cs).push(c as u8),
{
    assert(ascii_bytes(cs.push(c)) =~= ascii_bytes(cs).push(c as u8));
}

/// The digits of `n` read back as `n`.
proof fn lemma_read_digits_of(n: nat)
    requires
        n <= i128::MAX,
    ensures
        digits_value(ascii_bytes(digits_of(n))) == Ok::<int, DecimalError>(n as int),
        all_digits(ascii_bytes(digits_of(n))),
        digits_of(n).len() >= 1,
        is_ascii_chars(digits_of(n)),
    decreases n,
{
    let d = (n % 10) as int;
    lemma_digit_byte(d);
    assert(digits_value(Seq::<u8>::empty()) == Ok::<int, DecimalError>(0));
    if n < 10 {
        assert(ascii_bytes(digits_of(n)) =~= Seq::<u8>::empty().push(digit_char(n as int) as u8));
        assert(ascii_bytes(digits_of(n)).drop_last() =~= Seq::<u8>::empty());
        assert(ascii_bytes(digits_of(n)).last() == ZERO + n);
    } else {
        lemma_read_digits_of(n / 10);
        lemma_ascii_bytes_push(digits_of(n / 10), digit_char(d));
        assert(ascii_bytes(digits_of(n)).drop_last() =~= ascii_bytes(digits_of(n / 10)));
        assert(ascii_bytes(digits_of(n)).last() == ZERO + d);
        assert(n == (n / 10) * 10 + d);
    }
    assert(is_ascii_chars(digits_of(n)));
}

/// `width` padded digits of `n` read back as `n % 10^width`.
proof fn lemma_read_padded(n: nat, width: nat)
    requires
        width <= 38,
    ensures
        digits_value(ascii_bytes(padded_digits(n, width))) == Ok::<int, DecimalError>(
            (n % pow10(width) as nat) as int,
        ),
        all_digits(ascii_bytes(padded_digits(n, width))),
        padded_digits(n, width).len() == width,
        is_ascii_chars(padded_digits(n, width)),
    decreases width,
{
    lemma_pow10_positive(width);
    if width == 0 {
        assert(ascii_bytes(padded_digits(n, width)) =~= Seq::<u8>::empty());
    } else {
        let w1 = (width - 1) as nat;
        let d = (n % 10) as int;
        lemma_digit_byte(d);
        lemma_read_padded(n / 10, w1);
        lemma_ascii_bytes_push(padded_digits(n / 10, w1), digit_char(d));
        assert(ascii_bytes(padded_digits(n, width)).drop_last() =~= ascii_bytes(
            padded_digits(n / 10, w1),
        ));
        lemma_pow10_positive(w1);
        lemma_mod_breakdown(n as int, 10, pow10(w1));
        assert(pow10(width) == 10 * pow10(w1));
        lemma_pow10_wide_bound(width);
        assert(is_ascii_chars(padded_digits(n, width)));
    }
}

/// The text of `m` at `scale` reads back as `m`.
proof fn lemma_parse_rendered_units<T: DecimalInt>(m: int, scale: nat)
    requires
        T::fits(m),
        T::fits(abs(m)),
        scale <= MAX_SCALE,
    ensures
        parsed_units::<T>(encode_utf8(rendered(m, scale)), scale) == Ok::<int, DecimalError>(m),
{
    T::lemma_range();
    let a = abs(m) as nat;
    let p = pow10(scale);
    lemma_pow10_positive(scale);
    lemma_pow10_wide_bound(scale);
    lemma_pow10_monotone(scale, 38);
    let q = a / p as nat;
    let r = a % p as nat;
    lemma_fundamental_div_mod(a as int, p);
    assert(q <= a) by (nonlinear_arith)
        requires
            p >= 1,
            q == a / (p as nat),
    ;
    lemma_read_digits_of(q);
    lemma_read_digits_of(a);
    lemma_read_padded(r, scale);
    lemma_small_mod(r, p as nat);
    let sign: Seq<char> = if m < 0 {
        seq!['-']
    } else {
        Seq::empty()
    };
    let body: Seq<char> = if scale == 0 {
        digits_of(a)
    } else {
        digits_of(q) + seq!['.'] + padded_digits(r, scale)
    };
    assert(rendered(m, scale) =~= sign + body);
    let bb = ascii_bytes(body);
    if scale == 0 {
        assert(bb =~= ascii_bytes(digits_of(a)));
    } else {
        assert(bb =~= ascii_bytes(digits_of(q)) + seq![DOT] + ascii_bytes(padded_digits(r, scale)));
    }
    assert(is_digit(bb[0]));
    assert(ascii_bytes(sign) =~= (if m < 0 { seq![MINUS] } else { Seq::empty() }));
    assert(is_ascii_chars(body));
    assert(is_ascii_chars(sign + body));
    is_ascii_chars_encode_utf8(sign + body);
    let s = encode_utf8(sign + body);
    assert(s =~= ascii_bytes(sign) + ascii_bytes(body));
    let u = unsigned_part(s);
    assert(u =~= ascii_bytes(body));
    let ip = int_digits(u);
    let fp = frac_digits(u);
    if scale == 0 {
        lemma_dot_position(u, u.len() as int);
        assert(ip =~= ascii_bytes(digits_of(a)));
        assert(fp =~= Seq::<u8>::empty());
        assert(digits_value(fp) == Ok::<int, DecimalError>(0));
    } else {
        let k = digits_of(q).len() as int;
        assert(u[k] == DOT);
        lemma_dot_position(u, k);
        assert(ip =~= ascii_bytes(digits_of(q)));
        assert(fp =~= ascii_bytes(padded_digits(r, scale)));
        assert(q * p + r * pow10((scale - fp.len()) as nat) == a);
    }
    assert(!starts_with_sign(ip));
    assert(!starts_with_sign(fp));
    assert(s[0] == MINUS <==> m < 0);
}

/// Writing a decimal and reading the text back gives the decimal again,
/// for every value that parsing can produce: those whose magnitude fits
/// the backing type as well.
pub proof fn lemma_parse_to_string<T: DecimalInt, const SCALE: u32>(d: Decimal<T, SCALE>)
    requires
        SCALE <= MAX_SCALE,
        T::fits(abs(d@)),
    ensures
        parsed_units::<T>(encode_utf8(rendered(d@, SCALE as nat)), SCALE as nat) == Ok::<
            int,
            DecimalError,
        >(d@),
{
    d.lemma_in_range();
    lemma_parse_rendered_units::<T>(d@, SCALE as nat);
}

} // verus!
