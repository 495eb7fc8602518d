use whale::ir::lower_ast::envelope::{
    check_envelope, parse_decimal, within_limit, EnvelopeError, DEFAULT_MAX_INPUT_BYTES,
};

#[test]
fn decimal_literals_are_exact_and_strict() {
    assert_eq!(parse_decimal("42"), Ok(42));
    assert_eq!(parse_decimal("-7"), Ok(-7));
    assert_eq!(parse_decimal("007"), Ok(7));
    assert_eq!(parse_decimal(&i128::MAX.to_string()), Ok(i128::MAX));
    assert_eq!(parse_decimal(&i128::MIN.to_string()), Ok(i128::MIN));
    for bad in ["+1", "1.0", " 1", "1e2", "", "-", "--1", "1 ", "170141183460469231731687303715884105728", "-170141183460469231731687303715884105729", "340282366920938463463374607431768211456"] {
        assert!(parse_decimal(bad).is_err(), "{bad}");
    }
}

#[test]
fn envelope_versions_and_features_are_checked_in_order() {
    assert_eq!(check_envelope(1, 1, 0), Ok(()));
    assert_eq!(check_envelope(99, 99, 3), Err(EnvelopeError::FormatVersion(99)));
    assert_eq!(check_envelope(1, 2, 3), Err(EnvelopeError::SemanticsVersion(2)));
    assert_eq!(check_envelope(1, 1, 1), Err(EnvelopeError::Features));
    assert_eq!(within_limit(DEFAULT_MAX_INPUT_BYTES, DEFAULT_MAX_INPUT_BYTES), Ok(()));
    assert_eq!(within_limit(11, 10), Err(EnvelopeError::TooLarge));
    assert_eq!(DEFAULT_MAX_INPUT_BYTES, 8 * 1024 * 1024);
}

#[test]
fn decimal_errors_say_whether_the_text_or_the_range_is_wrong() {
    assert_eq!(parse_decimal("12x").unwrap_err(), "integer value must be a decimal string");
    assert_eq!(parse_decimal("-").unwrap_err(), "integer value must be a decimal string");
    assert_eq!(parse_decimal("99999999999999999999999999999999999999999x").unwrap_err(), "integer value must be a decimal string");
    assert_eq!(parse_decimal("170141183460469231731687303715884105728").unwrap_err(), "integer value is out of range");
    assert_eq!(parse_decimal("-170141183460469231731687303715884105729").unwrap_err(), "integer value is out of range");
}
