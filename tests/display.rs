use cosmic_ext_applet_bitrate::config::Unit;
use cosmic_ext_applet_bitrate::display::{format_rate, format_unit, format_value, highest_bit};

fn shown(raw: u64, unit: Unit) -> (String, String) {
    format_rate(raw, unit)
}

#[test]
fn zero_has_no_prefix() {
    assert_eq!(shown(0, Unit::Bits), ("0".to_string(), "b/s".to_string()));
    assert_eq!(shown(0, Unit::Bytes), ("0".to_string(), "B/s".to_string()));
}

#[test]
fn below_one_kibi_is_a_plain_integer() {
    assert_eq!(shown(1023, Unit::Bytes), ("1023".to_string(), "B/s".to_string()));
    assert_eq!(shown(1, Unit::Bits), ("1".to_string(), "b/s".to_string()));
    assert_eq!(shown(512, Unit::Bits), ("512".to_string(), "b/s".to_string()));
}

#[test]
fn one_and_a_half_million_is_mega() {
    assert_eq!(shown(1_500_000, Unit::Bits), ("1.43".to_string(), "Mb/s".to_string()));
    assert_eq!(shown(1_500_000, Unit::Bytes), ("1.43".to_string(), "MB/s".to_string()));
}

#[test]
fn kibi_values_drop_trailing_zeros() {
    assert_eq!(shown(1024, Unit::Bytes), ("1".to_string(), "KB/s".to_string()));
    assert_eq!(shown(1536, Unit::Bytes), ("1.5".to_string(), "KB/s".to_string()));
    assert_eq!(shown(10 * 1024, Unit::Bits), ("10".to_string(), "Kb/s".to_string()));
}

#[test]
fn hundred_or_more_takes_one_decimal() {
    // 150.25 rounds to 150.2 with one place, ties going to the even digit.
    assert_eq!(format_value(150 * 1024 + 256), "150.2");
    // 100.75 rounds to 100.8.
    assert_eq!(format_value(100 * 1024 + 768), "100.8");
    assert_eq!(format_value(100 * 1024), "100");
}

#[test]
fn ten_to_hundred_takes_two_decimals() {
    // 12.34375 rounds to 12.34.
    assert_eq!(format_value(12 * 1024 + 352), "12.34");
    // 12.5 keeps one digit once the zero is stripped.
    assert_eq!(format_value(12 * 1024 + 512), "12.5");
}

#[test]
fn rounding_ties_go_to_even() {
    // 1.125 and 1.375 are exact ties at two places.
    assert_eq!(format_value(1152), "1.12");
    assert_eq!(format_value(1408), "1.38");
}

#[test]
fn rounding_can_carry_into_the_integer_part() {
    // 102399 / 1024 = 99.999..., which rounds to 100.00 and shows as 100.
    assert_eq!(shown(102_399, Unit::Bytes), ("100".to_string(), "KB/s".to_string()));
    // 2^20 - 1 scaled by 1024 is 1023.999..., which rounds to 1024.0.
    assert_eq!(shown(1_048_575, Unit::Bytes), ("1024".to_string(), "KB/s".to_string()));
}

#[test]
fn values_are_cut_to_five_characters() {
    // 1000.5 K: one decimal gives "1000.5", cut to "1000.".
    assert_eq!(format_value(1000 * 1024 + 512), "1000.");
    // 1023.5 M: "1023.5" cut to "1023.".
    assert_eq!(format_value(1023 * 1024 * 1024 + 512 * 1024), "1023.");
}

#[test]
fn gibi_rates_stay_under_the_mega_prefix() {
    // From 2^30 the rate is divided by 2^30 but still carries the "M" prefix.
    assert_eq!(shown(1 << 30, Unit::Bits), ("1".to_string(), "Mb/s".to_string()));
    assert_eq!(shown(u64::MAX, Unit::Bytes), ("16".to_string(), "MB/s".to_string()));
}

#[test]
fn every_value_fits_five_characters() {
    let mut raw: u64 = 1;
    while raw < u64::MAX / 3 {
        for r in [raw - 1, raw, raw + 1, raw * 2 - 1, raw + raw / 3] {
            let (value, unit) = shown(r, Unit::Bits);
            assert!(!value.is_empty() && value.chars().count() <= 5, "{} -> {}", r, value);
            assert!(["b/s", "Kb/s", "Mb/s"].contains(&unit.as_str()));
            let (_, unit) = shown(r, Unit::Bytes);
            assert!(["B/s", "KB/s", "MB/s"].contains(&unit.as_str()));
        }
        raw = raw * 3 + 1;
    }
}

#[test]
fn unit_prefix_thresholds() {
    assert_eq!(format_unit(1023, Unit::Bits), "b/s");
    assert_eq!(format_unit(1024, Unit::Bits), "Kb/s");
    assert_eq!(format_unit((1 << 20) - 1, Unit::Bytes), "KB/s");
    assert_eq!(format_unit(1 << 20, Unit::Bytes), "MB/s");
}

#[test]
fn highest_bit_positions() {
    assert_eq!(highest_bit(0), 0);
    assert_eq!(highest_bit(1), 0);
    assert_eq!(highest_bit(1023), 9);
    assert_eq!(highest_bit(1_500_000), 20);
    assert_eq!(highest_bit(u64::MAX), 63);
}
