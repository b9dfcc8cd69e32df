use gnome_wallpaperz::Decimal;
use gnome_wallpaperz::FilterError;
use gnome_wallpaperz::TemplateValue;
use gnome_wallpaperz::with_zero;

#[test]
fn test_with_zero() {
    let tests: Vec<(&str, String)> = vec![
        ("300.0", String::from("300.0")),
        ("-400.03", String::from("-400.03")),
    ];
    for (input, expected) in tests {
        let value = TemplateValue::Number(Decimal::parse(input).unwrap());
        let result = with_zero(&value);

        assert!(result.is_ok());
        assert_eq!(result.unwrap(), expected);
    }

    // integers are treated as floats
    let result = with_zero(&TemplateValue::Number(Decimal::from_u64(600)));

    assert!(result.is_ok());
    assert_eq!(result.unwrap(), "600.0");

    // unsupported type
    let result = with_zero(&TemplateValue::Text(String::from("500.0")));

    assert!(result.is_err());
}

#[test]
fn with_zero_rejects_every_non_numeric_kind() {
    assert_eq!(
        with_zero(&TemplateValue::Boolean(true)),
        Err(FilterError::NonNumericValue)
    );
    assert_eq!(
        with_zero(&TemplateValue::Null),
        Err(FilterError::NonNumericValue)
    );
    assert_eq!(
        FilterError::NonNumericValue.message(),
        "Filter `with_zero` received non-numeric type"
    );
}

#[test]
fn with_zero_negative_whole_keeps_sign() {
    let value = TemplateValue::Number(Decimal::parse("-400").unwrap());
    assert_eq!(with_zero(&value).unwrap(), "-400.0");
}

#[test]
fn parse_canonicalizes_digits() {
    let d = Decimal::parse("007.50").unwrap();
    assert!(!d.negative);
    assert_eq!(d.int_part, "7");
    assert_eq!(d.frac_part, "5");

    let zero = Decimal::parse("-0.000").unwrap();
    assert!(!zero.negative);
    assert_eq!(zero.int_part, "0");
    assert_eq!(zero.frac_part, "");

    assert!(Decimal::parse("1e3").is_none());
    assert!(Decimal::parse(".5").is_none());
    assert!(Decimal::parse("5.").is_none());
    assert!(Decimal::parse("").is_none());
    assert!(Decimal::parse("12.3.4").is_none());
    assert!(Decimal::parse("-").is_none());
}
