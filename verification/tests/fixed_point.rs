use ib::decimal::Dec;
use ib::fixed::{scaled, scaled_round};
use ib::orders::parse_decimal;

fn dec(text: &str) -> Dec {
    parse_decimal(text, "value").unwrap()
}

#[test]
fn fixed_point_values_are_scaled_without_binary_rounding() {
    assert_eq!(scaled(&dec("185.50")).unwrap(), 185_500_000);
    assert_eq!(scaled(&dec("0.000001")).unwrap(), 1);
}

#[test]
fn values_with_more_than_six_places_are_rejected_for_input() {
    assert!(scaled(&dec("1.0000001")).is_err());
    assert_eq!(scaled_round(&dec("1.0000006")).unwrap(), 1_000_001);
}

#[test]
fn too_precise_value_is_named_in_the_error() {
    assert_eq!(
        scaled(&dec("1.0000001")).unwrap_err(),
        "value 1.0000001 has more than 6 decimal places"
    );
}

#[test]
fn trailing_zeros_beyond_six_places_are_accepted() {
    assert_eq!(scaled(&dec("2.50000000")).unwrap(), 2_500_000);
    assert_eq!(scaled(&dec("-3")).unwrap(), -3_000_000);
}

#[test]
fn values_outside_the_fixed_point_range_are_refused() {
    assert_eq!(
        scaled(&dec("10000000000000")).unwrap_err(),
        "value 10000000000000 is outside the fixed-point range"
    );
    assert!(scaled(&dec("9223372036854.775807")).is_ok());
}

#[test]
fn rounding_conversion_rounds_halves_to_even() {
    assert_eq!(scaled_round(&dec("0.0000005")).unwrap(), 0);
    assert_eq!(scaled_round(&dec("0.0000015")).unwrap(), 2);
    assert_eq!(scaled_round(&dec("-0.0000025")).unwrap(), -2);
    assert_eq!(scaled_round(&dec("0.00000251")).unwrap(), 3);
}

#[test]
fn stored_amount_reads_back_unchanged() {
    for k in [0i64, 1, -1, 185_520_000, i64::MAX, i64::MIN] {
        assert_eq!(scaled(&Dec::from_micros(k)).unwrap(), k);
    }
}

#[test]
fn scaled_amount_reads_back_as_the_same_value() {
    let v = dec("185.5");
    let k = scaled(&v).unwrap();
    assert!(Dec::from_micros(k).same_value(&v));
}

#[test]
fn same_value_ignores_scale() {
    assert!(dec("1.50").same_value(&dec("1.5")));
    assert!(!dec("1.50").same_value(&dec("1.05")));
    assert!(dec("-0").same_value(&dec("0.000")));
}

#[test]
fn large_values_with_trailing_zeros_convert_exactly() {
    let v = Dec { mantissa: 9_000_000_000_000_000_000_000_000_000, scale: 18 };
    assert_eq!(scaled(&v), Ok(9_000_000_000_000_000));
    let w = Dec { mantissa: -9_000_000_000_000_000_000_000_000_000, scale: 18 };
    assert_eq!(scaled(&w), Ok(-9_000_000_000_000_000));
}

#[test]
fn values_whose_micro_units_exceed_a_decimal_are_refused() {
    let huge = Dec { mantissa: 79_228_162_514_264_337_593_543_950_335, scale: 0 };
    assert_eq!(
        scaled(&huge).unwrap_err(),
        "value 79228162514264337593543950335 is outside the fixed-point range"
    );
    assert_eq!(
        scaled_round(&huge).unwrap_err(),
        "value 79228162514264337593543950335 is outside the fixed-point range"
    );
}
