use rlox::number::Decimal;

#[test]
fn numerals_parse() {
    for text in ["0", "1", "42", "3.14", "0.5", "00", "1.0", "123456789012345678901234567890.5"] {
        assert!(Decimal::parse(text).is_some(), "{}", text);
    }
}

#[test]
fn other_text_does_not_parse() {
    for text in ["", ".", "1.", ".5", "1.2.3", "a", "1a", "-1", "+1", " 1", "1 ", "1e5", "１"] {
        assert!(Decimal::parse(text).is_none(), "{:?}", text);
    }
}

#[test]
fn decimals_are_written_in_canonical_form() {
    let cases = [
        ("0", "0"),
        ("000", "0"),
        ("0.0", "0"),
        ("7", "7"),
        ("007", "7"),
        ("7.0", "7"),
        ("7.50", "7.5"),
        ("0.05", "0.05"),
        ("10", "10"),
        ("10.010", "10.01"),
        ("3.14", "3.14"),
        ("100.001", "100.001"),
    ];
    for (text, canonical) in cases {
        assert_eq!(Decimal::parse(text).unwrap().to_string(), canonical);
    }
}

#[test]
fn equal_numbers_have_equal_decimals() {
    let a = Decimal::parse("1.50").unwrap();
    let b = Decimal::parse("01.5").unwrap();
    let c = Decimal::parse("1.05").unwrap();
    let d = Decimal::parse("15").unwrap();
    assert!(a.same_as(&b));
    assert_eq!(a, b);
    assert!(!a.same_as(&c));
    assert!(!a.same_as(&d));
}

#[test]
fn decimals_keep_the_value_of_their_numeral() {
    for text in ["0", "12", "012.50", "3.14159", "1000.0001", "0.000", "98765.43210"] {
        let written = Decimal::parse(text).unwrap().to_string();
        let kept: f64 = written.parse().unwrap();
        let direct: f64 = text.parse().unwrap();
        assert_eq!(kept, direct);
    }
}
