use pc_usage_monitor::text::{format_frequency, push_decimal, serial_string};

#[test]
fn frequency_below_one_thousand_is_megahertz() {
    assert_eq!(format_frequency(999), "999.00MHz");
    assert_eq!(format_frequency(0), "0.00MHz");
    assert_eq!(format_frequency(1), "1.00MHz");
    assert_eq!(format_frequency(42), "42.00MHz");
}

#[test]
fn frequency_from_one_thousand_is_gigahertz() {
    assert_eq!(format_frequency(1000), "1.00GHz");
    assert_eq!(format_frequency(2500), "2.50GHz");
    assert_eq!(format_frequency(3601), "3.60GHz");
    assert_eq!(format_frequency(4008), "4.01GHz");
}

#[test]
fn frequency_rounds_to_nearest_hundredth_half_up() {
    assert_eq!(format_frequency(1234), "1.23GHz");
    assert_eq!(format_frequency(1235), "1.24GHz");
    assert_eq!(format_frequency(1994), "1.99GHz");
    assert_eq!(format_frequency(1995), "2.00GHz");
    assert_eq!(format_frequency(9999), "10.00GHz");
    assert_eq!(format_frequency(12345), "12.35GHz");
}

#[test]
fn frequency_of_largest_input() {
    assert_eq!(format_frequency(u64::MAX), "18446744073709551.62GHz");
}

#[test]
fn decimal_is_appended() {
    let mut s = String::from("n=");
    push_decimal(&mut s, 0);
    assert_eq!(s, "n=0");
    push_decimal(&mut s, 10);
    assert_eq!(s, "n=010");
    push_decimal(&mut s, 907);
    assert_eq!(s, "n=010907");
    let mut t = String::new();
    push_decimal(&mut t, u64::MAX);
    assert_eq!(t, "18446744073709551615");
}

#[test]
fn push_extends_by_one_character() {
    let mut s = String::from("7");
    push_decimal(&mut s, 5);
    assert_eq!(s.len(), 2);
    assert_eq!(s, "75");
}

#[test]
fn serial_is_sixteen_upper_case_hex_digits() {
    assert_eq!(serial_string(0x0123_4567_89AB_CDEF), "0123456789ABCDEF");
    assert_eq!(serial_string(0), "0000000000000000");
    assert_eq!(serial_string(u64::MAX), "FFFFFFFFFFFFFFFF");
    assert_eq!(serial_string(0xE661_4103_E73C_5B2A), "E6614103E73C5B2A");
    assert_eq!(serial_string(255), "00000000000000FF");
}
