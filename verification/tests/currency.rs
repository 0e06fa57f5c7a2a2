use currency::{Currency, CurrencyParseError};

#[test]
fn test_currency_parsing() {
    assert_eq!(
        "123.123".parse::<Currency>(),
        Err(CurrencyParseError::FracGreaterThan99)
    );
    assert_eq!(
        "123.-3".parse::<Currency>(),
        Err(CurrencyParseError::MatchFailed)
    );
    assert_eq!(
        "-123.-23".parse::<Currency>(),
        Err(CurrencyParseError::MatchFailed)
    );
    assert_eq!(
        "123.-123".parse::<Currency>(),
        Err(CurrencyParseError::MatchFailed)
    );
    assert_eq!(
        "0.0.0".parse::<Currency>(),
        Err(CurrencyParseError::MatchFailed)
    );

    for i in (-9999..9999).step_by(9) {
        let f = Currency(i).to_string();
        println!("{}", f);
        assert_eq!(f.parse(), Ok(Currency(i)));
    }
}

#[test]
fn test_currency_add_subtract() {
    for x in -999..999 {
        for y in -999..999 {
            let a: Currency = x.into();
            let b: Currency = y.into();

            assert_eq!(a - a, 0.into());
            assert_eq!(b - b, 0.into());
            assert_eq!(a + a - a, a);
            assert_eq!(b + a - b, a);
            assert_eq!(a + b - b, a);
            assert_eq!(b + b - b, b);
            assert_eq!(a + b - a, b);
            assert_eq!(b + a - a, b);

            let mut a2: Currency = a;

            a2.add_assign(a);
            assert_eq!(a2, a + a);
            a2.sub_assign(a);
            assert_eq!(a2, a);
            a2.add_assign(b);
            assert_eq!(a2, a + b);
            a2.add_assign(b);
            assert_eq!(a2, a + b + b);
            a2.sub_assign(b + a);
            assert_eq!(a2, b);
        }
    }
}

fn currency_f64(c: Currency) -> f64 {
    c.whole() as f64 + c.fractional() as f64 / 100.0
}

#[test]
fn test_currency_f64_repr() {
    assert_eq!(currency_f64(Currency::from(3220)), 32.20);
    assert_eq!(currency_f64(Currency::from(9999999)), 99999.99);
    assert_eq!(currency_f64(Currency::from(0)), 0.0);
    assert_eq!(currency_f64(Currency::from(1)), 0.01);
    assert_eq!(currency_f64(Currency::from(-232323)), -2323.23);
    assert_eq!(currency_f64(Currency::from(-1)), -0.01);
}

#[test]
fn test_display_exact() {
    assert_eq!(Currency(500).to_string(), "5");
    assert_eq!(Currency(512).to_string(), "5.12");
    assert_eq!(Currency(-512).to_string(), "-5.12");
    assert_eq!(Currency(-5).to_string(), "-0.05");
    assert_eq!(Currency(0).to_string(), "0");
    assert_eq!(Currency(30).to_string(), "0.30");
    assert_eq!(Currency(i32::MAX).to_string(), "21474836.47");
    assert_eq!(Currency(i32::MIN).to_string(), "-21474836.48");
}

#[test]
fn test_whole_and_fractional() {
    assert_eq!(Currency(512).whole(), 5);
    assert_eq!(Currency(512).fractional(), 12);
    assert_eq!(Currency(-512).whole(), -5);
    assert_eq!(Currency(-512).fractional(), -12);
    assert_eq!(Currency(-5).whole(), 0);
    assert_eq!(Currency(-5).fractional(), -5);
    assert_eq!(Currency(99).whole(), 0);
    assert_eq!(Currency(99).fractional(), 99);
}

#[test]
fn test_round_trip_wide_sample() {
    let mut v: i64 = i32::MIN as i64 + 1;
    while v <= i32::MAX as i64 {
        let c = Currency(v as i32);
        assert_eq!(c.to_string().parse(), Ok(c));
        v += 104_729; // a prime stride, so fractional parts vary
    }
    for v in [0, 1, -1, 99, -99, 100, -100, i32::MAX, i32::MIN + 1] {
        let c = Currency(v);
        assert_eq!(c.to_string().parse(), Ok(c));
        assert_eq!(currency::laws::parse_of_rendering(c), Ok(c));
    }
    // the one value whose rendering cannot be read back: its magnitude
    // overflows the backing integer during combination
    assert_eq!(
        Currency(i32::MIN).to_string().parse::<Currency>(),
        Err(CurrencyParseError::IntegerOverflow)
    );
}

#[test]
fn test_one_digit_fraction_scaling() {
    assert_eq!("3.5".parse::<Currency>(), Ok(Currency(350)));
    assert_eq!("3.50".parse::<Currency>(), Ok(Currency(350)));
    assert_eq!(
        "3.5".parse::<Currency>().unwrap(),
        "3.50".parse::<Currency>().unwrap()
    );
    assert_eq!("0.5".parse::<Currency>(), Ok(Currency(50)));
    assert_eq!("-0.5".parse::<Currency>(), Ok(Currency(-50)));
}

#[test]
fn test_parse_accepts() {
    assert_eq!("0".parse::<Currency>(), Ok(Currency(0)));
    assert_eq!("-0".parse::<Currency>(), Ok(Currency(0)));
    assert_eq!("12".parse::<Currency>(), Ok(Currency(1200)));
    assert_eq!("  12  ".parse::<Currency>(), Ok(Currency(1200)));
    assert_eq!("\t-12.34\n".parse::<Currency>(), Ok(Currency(-1234)));
    assert_eq!("007.08".parse::<Currency>(), Ok(Currency(708)));
    assert_eq!("0.00".parse::<Currency>(), Ok(Currency(0)));
    assert_eq!(
        "00000000000000000000001.05".parse::<Currency>(),
        Ok(Currency(105))
    );
    assert_eq!("21474836.47".parse::<Currency>(), Ok(Currency(i32::MAX)));
}

#[test]
fn test_parse_rejects() {
    assert_eq!("".parse::<Currency>(), Err(CurrencyParseError::MatchFailed));
    assert_eq!("   ".parse::<Currency>(), Err(CurrencyParseError::MatchFailed));
    assert_eq!("-".parse::<Currency>(), Err(CurrencyParseError::MatchFailed));
    assert_eq!("abc".parse::<Currency>(), Err(CurrencyParseError::MatchFailed));
    assert_eq!("5.".parse::<Currency>(), Err(CurrencyParseError::MatchFailed));
    assert_eq!(".5".parse::<Currency>(), Err(CurrencyParseError::MatchFailed));
    assert_eq!("-.5".parse::<Currency>(), Err(CurrencyParseError::MatchFailed));
    assert_eq!("--5".parse::<Currency>(), Err(CurrencyParseError::MatchFailed));
    assert_eq!("- 5".parse::<Currency>(), Err(CurrencyParseError::MatchFailed));
    assert_eq!("1 2".parse::<Currency>(), Err(CurrencyParseError::MatchFailed));
    assert_eq!("12x".parse::<Currency>(), Err(CurrencyParseError::MatchFailed));
    assert_eq!("1,50".parse::<Currency>(), Err(CurrencyParseError::MatchFailed));
    assert_eq!("\u{0660}".parse::<Currency>(), Err(CurrencyParseError::MatchFailed));
    assert_eq!(
        "1.100".parse::<Currency>(),
        Err(CurrencyParseError::FracGreaterThan99)
    );
    assert_eq!(
        "0.999".parse::<Currency>(),
        Err(CurrencyParseError::FracGreaterThan99)
    );
}

#[test]
fn test_parse_overflow_boundary() {
    // whole-part digits alone exceed the backing integer
    assert_eq!(
        "2147483648".parse::<Currency>(),
        Err(CurrencyParseError::IntegerOverflow)
    );
    assert_eq!(
        "99999999999999999999".parse::<Currency>(),
        Err(CurrencyParseError::IntegerOverflow)
    );
    // the whole part fits, but scaling it to hundredths does not
    assert_eq!(
        "21474837".parse::<Currency>(),
        Err(CurrencyParseError::IntegerOverflow)
    );
    assert_eq!(
        "21474836.48".parse::<Currency>(),
        Err(CurrencyParseError::IntegerOverflow)
    );
    assert_eq!(
        "-21474836.48".parse::<Currency>(),
        Err(CurrencyParseError::IntegerOverflow)
    );
    // an overlong fractional digit run overflows before the range check
    assert_eq!(
        "1.99999999999999999999".parse::<Currency>(),
        Err(CurrencyParseError::IntegerOverflow)
    );
}

#[test]
fn test_error_messages() {
    assert_eq!(CurrencyParseError::MatchFailed.message(), "parsing failed");
    assert_eq!(CurrencyParseError::IntegerOverflow.message(), "integer overflow");
    assert_eq!(
        CurrencyParseError::FracGreaterThan99.message(),
        "decimal fraction greater than 99"
    );
}

#[test]
fn test_ordering_and_conversions() {
    assert!(Currency(-100) < Currency(0));
    assert!(Currency(0) < Currency(1));
    assert!(Currency(-2) < Currency(-1));
    assert_eq!(Currency(-100).max(Currency(1)), Currency(1));
    assert_eq!(Currency::default(), Currency(0));
    assert_eq!(i32::from(Currency(417)), 417);
    assert_eq!(Currency::from(-417), Currency(-417));
    assert_eq!(-Currency(417), Currency(-417));
}
