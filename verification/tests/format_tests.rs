use tokei_badge::format::format_amount;
use tokei_badge::strutil::u64_to_decimal;

#[test]
fn plain_number_below_thousand() {
    assert_eq!(format_amount(999), "999");
    assert_eq!(format_amount(0), "0");
    assert_eq!(format_amount(42), "42");
}

#[test]
fn thousands_suffix() {
    assert_eq!(format_amount(1500), "1.5K");
    assert_eq!(format_amount(1000), "1.0K");
    assert_eq!(format_amount(999_499), "999.5K");
}

#[test]
fn millions_suffix() {
    assert_eq!(format_amount(2_500_000), "2.5M");
    assert_eq!(format_amount(1_000_000), "1.0M");
}

#[test]
fn billions_suffix() {
    assert_eq!(format_amount(3_200_000_000), "3.2B");
    assert_eq!(format_amount(1_000_000_000), "1.0B");
}

#[test]
fn decimal_rendering() {
    assert_eq!(u64_to_decimal(0), "0");
    assert_eq!(u64_to_decimal(7), "7");
    assert_eq!(u64_to_decimal(105), "105");
    assert_eq!(u64_to_decimal(18_446_744_073_709_551_615), "18446744073709551615");
}
