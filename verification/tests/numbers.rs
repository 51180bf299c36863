use crawler_core::numbers::{parse_integer, parse_thousandths};

fn chars(s: &str) -> Vec<char> {
    s.chars().collect()
}

#[test]
fn decimals_are_read_as_thousandths() {
    assert_eq!(parse_thousandths(&chars("2")), Some(2000));
    assert_eq!(parse_thousandths(&chars("1.5")), Some(1500));
    assert_eq!(parse_thousandths(&chars("0.25")), Some(250));
    assert_eq!(parse_thousandths(&chars("0.0019")), Some(1));
    assert_eq!(parse_thousandths(&chars(".5")), Some(500));
    assert_eq!(parse_thousandths(&chars("5.")), Some(5000));
    assert_eq!(parse_thousandths(&chars("007")), Some(7000));
    assert_eq!(parse_thousandths(&chars("18446744073709551.615")), Some(u64::MAX));
    assert_eq!(parse_thousandths(&chars("18446744073709551.614")), Some(u64::MAX - 1));
    assert_eq!(parse_thousandths(&chars("18446744073709551.616")), Some(u64::MAX));
    assert_eq!(parse_thousandths(&chars("99999999999999999999999")), Some(u64::MAX));
}

#[test]
fn sign_and_exponent_are_read() {
    assert_eq!(parse_thousandths(&chars("+1.5")), Some(1500));
    assert_eq!(parse_thousandths(&chars("1e1")), Some(10_000));
    assert_eq!(parse_thousandths(&chars("1E1")), Some(10_000));
    assert_eq!(parse_thousandths(&chars("1.5e+2")), Some(150_000));
    assert_eq!(parse_thousandths(&chars("25e-1")), Some(2500));
    assert_eq!(parse_thousandths(&chars("12345e-4")), Some(1234));
    assert_eq!(parse_thousandths(&chars("1e-3")), Some(1));
    assert_eq!(parse_thousandths(&chars("1e-4")), Some(0));
    assert_eq!(parse_thousandths(&chars("9.99e-10")), Some(0));
    assert_eq!(parse_thousandths(&chars(".5e1")), Some(5000));
    assert_eq!(parse_thousandths(&chars("5.e0")), Some(5000));
    assert_eq!(parse_thousandths(&chars("0e999999999999999999999999999999999999")), Some(0));
    assert_eq!(parse_thousandths(&chars("1e999999999999999999999999999999999999")), Some(u64::MAX));
    assert_eq!(parse_thousandths(&chars("1e-999999999999999999999999999999999999")), Some(0));
    assert_eq!(parse_thousandths(&chars("1e16")), Some(10_000_000_000_000_000_000));
    assert_eq!(parse_thousandths(&chars("1e17")), Some(u64::MAX));
    assert_eq!(parse_thousandths(&chars("0.0000000001e13")), Some(1_000_000));
}

#[test]
fn what_is_below_zero_counts_as_zero() {
    assert_eq!(parse_thousandths(&chars("-1")), Some(0));
    assert_eq!(parse_thousandths(&chars("-0.5e3")), Some(0));
    assert_eq!(parse_thousandths(&chars("-0")), Some(0));
    assert_eq!(parse_thousandths(&chars("-inf")), Some(0));
}

#[test]
fn infinity_and_not_a_number() {
    for s in ["inf", "INF", "Inf", "infinity", "Infinity", "+inf", "+INFINITY"] {
        assert_eq!(parse_thousandths(&chars(s)), Some(u64::MAX), "{:?}", s);
    }
    for s in ["nan", "NaN", "NAN", "+nan", "-nan"] {
        assert_eq!(parse_thousandths(&chars(s)), Some(0), "{:?}", s);
    }
}

#[test]
fn what_is_no_number_has_no_value() {
    for bad in [
        "", ".", "+", "-", "e", "e1", ".e1", "1e", "1e+", "1e-", "1e1.5", "1.2.3", "1,5", " 1",
        "1 ", "1s", "++1", "+-1", "1e1e1", "infinit", "in", "nanx", "0x10", "1_000", "١",
    ] {
        assert_eq!(parse_thousandths(&chars(bad)), None, "{:?}", bad);
    }
}

#[test]
fn the_same_texts_are_numbers_as_for_the_standard_library() {
    for s in [
        "", ".", "+", "-", "e", "e1", ".e1", "1e", "1e+", "1e-", "1e1.5", "1.2.3", "1,5", " 1",
        "1 ", "1s", "++1", "+-1", "1e1e1", "infinit", "in", "nanx", "0x10", "1_000", "١", "1",
        "1.", ".1", "+1", "-1", "1e5", "1E5", "1e+5", "1e-5", "1.5e3", ".5e3", "5.e3", "inf",
        "INF", "iNf", "infinity", "INFINITY", "-inf", "+infinity", "nan", "NaN", "-nan", "+NAN",
        "007", "0.0", "00.00e00", "1e0000000000000000000000000000001", "+.5", "-.5e-5", "+.",
        "2", "1.5", "0.25",
    ] {
        assert_eq!(
            parse_thousandths(&chars(s)).is_some(),
            s.parse::<f64>().is_ok(),
            "{:?}",
            s
        );
    }
}

#[test]
fn values_agree_with_the_standard_library() {
    for s in ["2", "1.5", "0.25", "1e1", "25e-1", "+3.125", "1.5e+2", "12", "0.5", "4e0", "1000"] {
        let seconds: f64 = s.parse().unwrap();
        assert_eq!(parse_thousandths(&chars(s)), Some((seconds * 1000.0) as u64), "{:?}", s);
    }
}

#[test]
fn integers_with_sign() {
    assert_eq!(parse_integer(&chars("0")), Some(0));
    assert_eq!(parse_integer(&chars("+17")), Some(17));
    assert_eq!(parse_integer(&chars("-17")), Some(-17));
    assert_eq!(parse_integer(&chars("0012")), Some(12));
    assert_eq!(parse_integer(&chars("9223372036854775807")), Some(i64::MAX));
    assert_eq!(parse_integer(&chars("-9223372036854775808")), Some(i64::MIN));
    assert_eq!(parse_integer(&chars("9223372036854775808")), None);
    assert_eq!(parse_integer(&chars("-9223372036854775809")), None);
    for bad in ["", "+", "-", "1.0", "12a", " 1", "--1"] {
        assert_eq!(parse_integer(&chars(bad)), None, "{:?}", bad);
    }
}
