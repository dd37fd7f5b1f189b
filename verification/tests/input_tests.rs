use asset_versions::coord::RunError;
use asset_versions::input::parse_asset_id;

#[test]
fn parses_plain_number() {
    assert_eq!(parse_asset_id("1818"), Ok(1818));
    assert_eq!(parse_asset_id("0"), Ok(0));
}

#[test]
fn parses_with_surrounding_whitespace() {
    assert_eq!(parse_asset_id("  1818\n"), Ok(1818));
    assert_eq!(parse_asset_id("\t42\r\n"), Ok(42));
}

#[test]
fn parses_the_largest_value() {
    assert_eq!(parse_asset_id("18446744073709551615"), Ok(u64::MAX));
}

#[test]
fn rejects_value_above_the_largest() {
    assert_eq!(parse_asset_id("18446744073709551616"), Err(RunError::InputError));
    assert_eq!(parse_asset_id("99999999999999999999999"), Err(RunError::InputError));
}

#[test]
fn rejects_non_numeric_input() {
    // Scenario: non-numeric console input is the fatal input error,
    // before any network activity.
    assert_eq!(parse_asset_id("abc"), Err(RunError::InputError));
    assert_eq!(parse_asset_id("12a4"), Err(RunError::InputError));
    assert_eq!(parse_asset_id("-5"), Err(RunError::InputError));
    assert_eq!(parse_asset_id("12 34"), Err(RunError::InputError));
}

#[test]
fn rejects_empty_input() {
    assert_eq!(parse_asset_id(""), Err(RunError::InputError));
    assert_eq!(parse_asset_id("   \n"), Err(RunError::InputError));
}
