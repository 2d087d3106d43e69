use solar_idle::utils::{format_number, Value};

#[test]
fn whole_numbers_show_without_decimals() {
    assert_eq!(format_number(5_000), "5");
    assert_eq!(format_number(0), "0");
    assert_eq!(format_number(9_999_000), "9999");
}

#[test]
fn fractions_show_two_decimals() {
    assert_eq!(format_number(2_500), "2.50");
    assert_eq!(format_number(1_234), "1.23");
    assert_eq!(format_number(12_999), "13.00");
}

#[test]
fn large_numbers_are_shortened() {
    assert_eq!(format_number(10_000_000), "10k");
    assert_eq!(format_number(12_345_000), "12.35k");
    assert_eq!(format_number(2_000_000_000), "2M");
    assert_eq!(format_number(1_000_000_000_000), "1B");
    assert_eq!(format_number(1_500_000_000_000), "1.50B");
}

#[test]
fn percentages_scale_to_amounts() {
    let mut v = Value::Percentage(250);
    v.scale(400);
    assert_eq!(v, Value::Abs(100));
    let mut a = Value::Abs(7);
    a.scale(400);
    assert_eq!(a, Value::Abs(7));
}

#[test]
fn values_just_off_a_whole_number_show_without_decimals() {
    assert_eq!(format_number(10_999_600), "11k");
    assert_eq!(format_number(10_000_400), "10k");
    assert_eq!(format_number(1_999_999_000_000), "2B");
    assert_eq!(format_number(10_996_000), "11.00k");
    assert_eq!(format_number(1_000_400), "1000.40");
}
