use schwab_bot::decimal::Decimal;
use schwab_bot::format::{format_int, to_fixed, to_integer_text, to_plain, to_signed};

fn d(x: f64) -> Decimal {
    Decimal::from_binary64(x.to_bits()).unwrap()
}

#[test]
fn fixed_numbers_are_rounded() {
    assert_eq!(to_fixed(d(1234.567), 2), "1234.57");
    assert_eq!(to_fixed(d(0.5), 2), "0.50");
    assert_eq!(to_fixed(d(-3.14159), 4), "-3.1416");
    assert_eq!(to_fixed(d(7.0), 0), "7");
    assert_eq!(to_fixed(d(0.0), 2), "0.00");
    assert_eq!(to_fixed(d(-0.001), 2), "-0.00");
}

#[test]
fn fixed_numbers_tie_to_the_even_digit_like_the_formatter() {
    assert_eq!(to_fixed(d(0.5), 0), format!("{:.0}", 0.5));
    assert_eq!(to_fixed(d(1.5), 0), format!("{:.0}", 1.5));
    assert_eq!(to_fixed(d(2.5), 0), format!("{:.0}", 2.5));
    assert_eq!(to_fixed(d(0.125), 2), format!("{:.2}", 0.125));
    assert_eq!(to_fixed(d(0.375), 2), format!("{:.2}", 0.375));
    assert_eq!(to_fixed(d(-2.5), 0), format!("{:.0}", -2.5));
}

#[test]
fn signed_numbers_always_show_their_sign() {
    assert_eq!(to_signed(d(1.5), 2), "+1.50");
    assert_eq!(to_signed(d(-1.5), 2), "-1.50");
    assert_eq!(to_signed(d(0.0), 2), "+0.00");
}

#[test]
fn plain_numbers_show_what_they_need() {
    assert_eq!(to_plain(d(5.0)), "5");
    assert_eq!(to_plain(d(0.25)), "0.25");
    assert_eq!(to_plain(d(-12.5)), "-12.5");
    assert_eq!(to_plain(d(0.0)), "0");
    assert_eq!(to_plain(Decimal::from_units(1)), "0.00000001");
    assert_eq!(to_plain(Decimal::from_units(1_000_000_010)), "10.0000001");
}

#[test]
fn integers_are_grouped_by_thousands() {
    assert_eq!(format_int(0), "0");
    assert_eq!(format_int(7), "7");
    assert_eq!(format_int(999), "999");
    assert_eq!(format_int(1000), "1,000");
    assert_eq!(format_int(1_234_567), "1,234,567");
    assert_eq!(format_int(-1_234_567), "-1,234,567");
    assert_eq!(format_int(-12), "-12");
    assert_eq!(format_int(i64::MAX), "9,223,372,036,854,775,807");
}

#[test]
fn grouping_only_adds_commas() {
    for n in [0i64, 12, 123, 1234, 98_765, 432_100, 7_000_001] {
        assert_eq!(format_int(n).replace(',', ""), n.to_string());
    }
}

#[test]
fn integers_are_written_in_decimal() {
    assert_eq!(to_integer_text(4002), "4002");
    assert_eq!(to_integer_text(-1), "-1");
    assert_eq!(to_integer_text(i64::MIN), "-9223372036854775808");
}
