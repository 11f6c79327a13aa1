use decimal::{Decimal, DecimalError, RoundingMode};

fn d2(s: &str) -> Decimal<i64, 2> {
    s.parse::<Decimal<i64, 2>>().unwrap()
}

fn d3(s: &str) -> Decimal<i64, 3> {
    s.parse::<Decimal<i64, 3>>().unwrap()
}

fn d4(s: &str) -> Decimal<i64, 4> {
    s.parse::<Decimal<i64, 4>>().unwrap()
}

#[test]
fn round_trip_through_text() {
    for input in ["0", "-0.01", "1.5", "-123.45", "92233720368547758.07", "-92233720368547758.08"] {
        if let Ok(value) = input.parse::<Decimal<i64, 2>>() {
            let text = value.to_string();
            let back = text.parse::<Decimal<i64, 2>>().unwrap();
            assert_eq!(back, value);
            assert_eq!(back.to_string(), text);
        }
    }
    let wide = "-12345678901234567890.123".parse::<Decimal<i128, 3>>().unwrap();
    assert_eq!(wide.to_string().parse::<Decimal<i128, 3>>().unwrap(), wide);
    let whole = "-42".parse::<Decimal<i64, 0>>().unwrap();
    assert_eq!(whole.to_string(), "-42");
    assert_eq!(whole.to_string().parse::<Decimal<i64, 0>>().unwrap(), whole);
}

#[test]
fn exact_rescale_up_then_down_round_trips() {
    let value = d2("-7.05");
    let up = value.try_rescale::<6>().unwrap();
    assert_eq!(up.to_string(), "-7.050000");
    let down = up.try_rescale::<2>().unwrap();
    assert_eq!(down, value);
}

#[test]
fn rounding_rescale_need_not_round_trip() {
    let value = d3("1.239");
    let down = value.rescale::<2>(RoundingMode::HalfUp).unwrap();
    let up = down.rescale::<3>(RoundingMode::HalfUp).unwrap();
    assert_eq!(up.to_string(), "1.240");
    assert_ne!(up, value);
}

#[test]
fn half_even_ties_go_to_even_neighbour() {
    assert_eq!(d3("1.245").rescale::<2>(RoundingMode::HalfEven).unwrap().to_string(), "1.24");
    assert_eq!(d3("1.255").rescale::<2>(RoundingMode::HalfEven).unwrap().to_string(), "1.26");
    assert_eq!(d3("-1.255").rescale::<2>(RoundingMode::HalfEven).unwrap().to_string(), "-1.26");
    assert_eq!(d2("2.50").round(0, RoundingMode::HalfEven).unwrap().to_string(), "2.00");
    assert_eq!(d2("3.50").round(0, RoundingMode::HalfEven).unwrap().to_string(), "4.00");
    assert_eq!(d2("2.51").round(0, RoundingMode::HalfEven).unwrap().to_string(), "3.00");
}

#[test]
fn negation_commutes_with_rounding() {
    let modes = [RoundingMode::Truncate, RoundingMode::HalfUp, RoundingMode::HalfEven];
    for mode in modes {
        for text in ["1.235", "1.245", "0.005", "7.999"] {
            let pos = d3(text).rescale::<2>(mode).unwrap();
            let neg = d3(&format!("-{}", text)).rescale::<2>(mode).unwrap();
            assert_eq!(neg.checked_add(pos).unwrap(), Decimal::<i64, 2>::zero());

            let pos = d3(text).round(1, mode).unwrap();
            let neg = d3(&format!("-{}", text)).round(1, mode).unwrap();
            assert_eq!(neg.checked_add(pos).unwrap(), Decimal::<i64, 3>::zero());
        }
        let pos = d2("1.00").div_rescale::<4, 2>(d4("3.0000"), mode).unwrap();
        let neg = d2("-1.00").div_rescale::<4, 2>(d4("3.0000"), mode).unwrap();
        let neg_divisor = d2("1.00").div_rescale::<4, 2>(d4("-3.0000"), mode).unwrap();
        assert_eq!(neg.checked_add(pos).unwrap(), Decimal::<i64, 2>::zero());
        assert_eq!(neg_divisor, neg);
    }
}

#[test]
fn division_by_zero_in_every_mode() {
    let zero = Decimal::<i64, 4>::zero();
    for mode in [RoundingMode::Truncate, RoundingMode::HalfUp, RoundingMode::HalfEven] {
        assert_eq!(d2("5.00").div_rescale::<4, 2>(zero, mode), Err(DecimalError::DivisionByZero));
        assert_eq!(d2("0.00").div::<4>(zero, mode), Err(DecimalError::DivisionByZero));
    }
}

#[test]
fn narrow_backing_overflow_boundary() {
    assert_eq!(
        "92233720368547758.08".parse::<Decimal<i64, 2>>(),
        Err(DecimalError::Overflow)
    );
    let max = d2("92233720368547758.07");
    assert_eq!(max.to_string(), "92233720368547758.07");
    assert_eq!(max.checked_add(d2("0.01")), None);
    assert_eq!(max.checked_sub(d2("0.01")).unwrap().to_string(), "92233720368547758.06");
    assert_eq!(
        "-92233720368547758.08".parse::<Decimal<i64, 2>>(),
        Err(DecimalError::Overflow)
    );
    let min = Decimal::<i64, 2>::from_i128(i64::MIN as i128).unwrap();
    assert_eq!(min.to_string(), "-92233720368547758.08");
    assert_eq!(min.checked_sub(d2("0.01")), None);
}

#[test]
fn wide_backing_extremes() {
    let max = "170141183460469231731687303715884105727".parse::<Decimal<i128, 0>>().unwrap();
    assert_eq!(max.to_string(), "170141183460469231731687303715884105727");
    assert_eq!(
        "-170141183460469231731687303715884105728".parse::<Decimal<i128, 0>>(),
        Err(DecimalError::Overflow)
    );
    let min = Decimal::<i128, 0>::from_i128(i128::MIN).unwrap();
    assert_eq!(min.to_string(), "-170141183460469231731687303715884105728");
    let min_scaled = Decimal::<i128, 18>::from_i128(i128::MIN).unwrap();
    assert_eq!(min_scaled.to_string(), "-170141183460469231731.687303715884105728");
}

#[test]
fn concrete_scenarios() {
    let amount = d2("10.00");
    let rate = d4("0.0125");
    assert_eq!(amount.mul::<4>(rate, RoundingMode::HalfUp).unwrap().to_string(), "0.13");
    assert_eq!(
        amount.mul_rescale::<4, 6>(rate, RoundingMode::Truncate).unwrap().to_string(),
        "0.125000"
    );
    assert_eq!(
        d2("1.00").div_rescale::<4, 2>(d4("8.0000"), RoundingMode::HalfEven).unwrap().to_string(),
        "0.12"
    );
    assert_eq!(d2(".5").to_string(), "0.50");
    assert_eq!(d2("1234.").to_string(), "1234.00");
    assert_eq!("".parse::<Decimal<i64, 2>>(), Err(DecimalError::Empty));
}

#[test]
fn parse_errors_are_exact() {
    assert_eq!(Decimal::<i64, 2>::parse(""), Err(DecimalError::Empty));
    assert_eq!(Decimal::<i64, 2>::parse("."), Err(DecimalError::Invalid));
    assert_eq!(Decimal::<i64, 2>::parse("-"), Err(DecimalError::Invalid));
    assert_eq!(Decimal::<i64, 2>::parse("+-1"), Err(DecimalError::Invalid));
    assert_eq!(Decimal::<i64, 2>::parse("1.-2"), Err(DecimalError::Invalid));
    assert_eq!(Decimal::<i64, 2>::parse(" 1"), Err(DecimalError::Invalid));
    assert_eq!(Decimal::<i64, 2>::parse("1é"), Err(DecimalError::Invalid));
    assert_eq!(
        Decimal::<i64, 2>::parse("1.2.3"),
        Err(DecimalError::TooManyFractionalDigits { provided: 3, allowed: 2 })
    );
    assert_eq!(
        Decimal::<i64, 2>::parse(".001"),
        Err(DecimalError::TooManyFractionalDigits { provided: 3, allowed: 2 })
    );
    let long = "9".repeat(40);
    assert_eq!(Decimal::<i64, 2>::parse(&long), Err(DecimalError::Overflow));
    assert_eq!(Decimal::<i64, 2>::parse(&format!("{}x", long)), Err(DecimalError::Overflow));
    assert_eq!(Decimal::<i64, 2>::parse(&format!("x{}", long)), Err(DecimalError::Invalid));
    assert_eq!(Decimal::<i64, 0>::parse("-0").unwrap().to_string(), "0");
    assert_eq!(Decimal::<i64, 2>::parse("+7.1").unwrap().to_string(), "7.10");
}

#[test]
fn multiply_and_divide_overflow() {
    let big = "92233720368547758.07".parse::<Decimal<i64, 2>>().unwrap();
    assert_eq!(big.mul::<2>(d2("2.00"), RoundingMode::Truncate), Err(DecimalError::Overflow));
    assert_eq!(
        big.div_rescale::<2, 18>(d2("1.00"), RoundingMode::Truncate),
        Err(DecimalError::Overflow)
    );
    let wide = Decimal::<i128, 0>::from_i128(i128::MAX).unwrap();
    assert_eq!(
        wide.mul_rescale::<0, 0>(Decimal::<i128, 0>::from_i128(2).unwrap(), RoundingMode::Truncate),
        Err(DecimalError::Overflow)
    );
    let min = Decimal::<i128, 0>::from_i128(i128::MIN).unwrap();
    let minus_one = Decimal::<i128, 0>::from_i128(-1).unwrap();
    assert_eq!(min.div::<0>(minus_one, RoundingMode::Truncate), Err(DecimalError::Overflow));
}

#[test]
fn multiply_rounds_each_mode() {
    let a = d2("-1.05");
    let b = d2("0.50");
    assert_eq!(a.mul::<2>(b, RoundingMode::Truncate).unwrap().to_string(), "-0.52");
    assert_eq!(a.mul::<2>(b, RoundingMode::HalfUp).unwrap().to_string(), "-0.53");
    assert_eq!(a.mul::<2>(b, RoundingMode::HalfEven).unwrap().to_string(), "-0.52");
    assert_eq!(
        d2("1.50").mul_rescale::<2, 5>(d2("2.00"), RoundingMode::Truncate).unwrap().to_string(),
        "3.00000"
    );
}

#[test]
fn round_in_place() {
    assert_eq!(d3("1.239").round(2, RoundingMode::Truncate).unwrap().to_string(), "1.230");
    assert_eq!(d3("1.235").round(2, RoundingMode::HalfUp).unwrap().to_string(), "1.240");
    assert_eq!(d3("-1.235").round(2, RoundingMode::HalfUp).unwrap().to_string(), "-1.240");
    assert_eq!(d3("1.239").round(3, RoundingMode::HalfUp).unwrap().to_string(), "1.239");
    assert_eq!(d3("1.239").round(7, RoundingMode::HalfUp).unwrap().to_string(), "1.239");
    let max = "9223372036854775.807".parse::<Decimal<i64, 3>>().unwrap();
    assert_eq!(max.round(0, RoundingMode::HalfUp), Err(DecimalError::Overflow));
}

#[test]
fn rescale_errors() {
    assert_eq!(d3("1.234").try_rescale::<2>(), Err(DecimalError::Invalid));
    assert_eq!(d3("-1.230").try_rescale::<2>().unwrap().to_string(), "-1.23");
    let big = "92233720368547758.07".parse::<Decimal<i64, 2>>().unwrap();
    assert_eq!(big.try_rescale::<3>(), Err(DecimalError::Overflow));
    assert_eq!(big.rescale::<3>(RoundingMode::HalfUp), Err(DecimalError::Overflow));
    assert_eq!(big.rescale::<2>(RoundingMode::HalfUp).unwrap(), big);
}

#[test]
fn constants_and_signs() {
    assert_eq!(Decimal::<i64, 3>::one().to_string(), "1.000");
    assert_eq!(Decimal::<i128, 0>::one().to_string(), "1");
    assert_eq!(Decimal::<i64, 18>::one().to_string(), "1.000000000000000000");
    assert_eq!(Decimal::<i128, 2>::zero().to_string(), "0.00");
    assert!(d2("-0.00").is_zero());
    assert!(d2("-0.00").is_positive());
}

#[test]
fn whole_numbers_and_widths() {
    assert_eq!(Decimal::<i64, 2>::checked_from_i128(-3).unwrap().to_string(), "-3.00");
    assert_eq!(Decimal::<i128, 38>::checked_from_i128(1), Ok(Decimal::<i128, 38>::from_i128(10_i128.pow(38)).unwrap()));
    assert_eq!(Decimal::<i128, 40>::checked_from_i128(1), Err(DecimalError::Overflow));
    assert_eq!(Decimal::<i128, 40>::checked_from_i128(0), Ok(Decimal::<i128, 40>::zero()));
    assert_eq!(Decimal::<i64, 0>::try_from(u64::MAX), Err(DecimalError::Overflow));
    assert_eq!(Decimal::<i128, 0>::try_from(u64::MAX).unwrap().to_string(), "18446744073709551615");
    assert_eq!(Decimal::<i64, 1>::try_from(-3_isize).unwrap().to_string(), "-3.0");
    assert_eq!(Decimal::<i64, 1>::try_from(7_usize).unwrap().to_string(), "7.0");
    assert_eq!(Decimal::<i64, 1>::try_from(-8_i8).unwrap().to_string(), "-8.0");
    assert_eq!(Decimal::<i64, 1>::try_from(300_u16).unwrap().to_string(), "300.0");
    let wide = "92233720368547758.08".parse::<Decimal<i128, 2>>().unwrap();
    assert_eq!(Decimal::<i64, 2>::try_from(wide), Err(DecimalError::Overflow));
}

#[test]
fn assigning_forms() {
    let mut total = d2("1.25");
    total.add_assign(d2("0.80"));
    assert_eq!(total.to_string(), "2.05");
    total.sub_assign(d2("3.00"));
    assert_eq!(total.to_string(), "-0.95");
    assert_eq!((d2("1.25") + d2("0.80") - d2("3.00")).to_string(), "-0.95");
}

#[test]
fn error_messages() {
    assert_eq!(DecimalError::Empty.to_string(), "empty input");
    assert_eq!(DecimalError::Invalid.to_string(), "invalid format");
    assert_eq!(
        DecimalError::TooManyFractionalDigits { provided: 13, allowed: 2 }.to_string(),
        "too many fractional digits (provided 13, allowed 2)"
    );
    assert_eq!(DecimalError::DivisionByZero.to_string(), "division by zero");
    assert_eq!(DecimalError::Overflow.to_string(), "value out of range");
}
