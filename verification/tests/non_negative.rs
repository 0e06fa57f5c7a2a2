use currency::{Currency, NonNegativeCurrency, NonNegativeCurrencyError};

#[test]
fn test_non_negative_construction() {
    let ok = NonNegativeCurrency::new(Currency(0));
    assert!(ok.is_ok());
    assert_eq!(ok.unwrap().currency(), Currency(0));

    let ok = NonNegativeCurrency::new(Currency(1234));
    assert_eq!(ok.unwrap().currency(), Currency(1234));

    assert_eq!(
        NonNegativeCurrency::new(Currency(-1)),
        Err(NonNegativeCurrencyError::NegativeValue)
    );
    assert_eq!(
        NonNegativeCurrency::new(Currency(i32::MIN)),
        Err(NonNegativeCurrencyError::NegativeValue)
    );

    assert_eq!(
        NonNegativeCurrency::from_raw(500).unwrap().currency(),
        Currency(500)
    );
    assert_eq!(
        NonNegativeCurrency::from_raw(-500),
        Err(NonNegativeCurrencyError::NegativeValue)
    );
}

#[test]
fn test_non_negative_add_never_fails() {
    for x in [0, 1, 99, 100, 12345] {
        for y in [0, 1, 99, 100, 54321] {
            let a = NonNegativeCurrency::from_raw(x).unwrap();
            let b = NonNegativeCurrency::from_raw(y).unwrap();
            // addition is closed: it yields a wrapper directly, no Result
            let sum: NonNegativeCurrency = a + b;
            assert_eq!(sum.currency(), Currency(x + y));
        }
    }
}

#[test]
fn test_non_negative_subtraction() {
    let a = NonNegativeCurrency::from_raw(500).unwrap();
    let b = NonNegativeCurrency::from_raw(300).unwrap();

    assert_eq!(
        a.checked_sub(b).unwrap().currency(),
        Currency(200)
    );
    assert_eq!(a.checked_sub(a).unwrap().currency(), Currency(0));

    // subtracting a larger value fails and leaves both operands as they
    // were: no partially-mutated wrapper exists
    assert_eq!(
        b.checked_sub(a),
        Err(NonNegativeCurrencyError::NegativeValue)
    );
    assert_eq!(a.currency(), Currency(500));
    assert_eq!(b.currency(), Currency(300));
}

#[test]
fn test_non_negative_unwrap() {
    let a = NonNegativeCurrency::from_raw(250).unwrap();
    let c: Currency = a.into();
    assert_eq!(c, Currency(250));
    assert_eq!(c.to_string(), "2.50");
    assert_eq!(NonNegativeCurrencyError::NegativeValue.message(), "negative value");
}
