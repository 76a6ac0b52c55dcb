use schwab_bot::decimal::{integer_from_binary64, Decimal};

fn d(x: f64) -> Decimal {
    Decimal::from_binary64(x.to_bits()).unwrap()
}

#[test]
fn binary_numbers_become_the_nearest_decimal() {
    assert_eq!(d(1.5).units, 150_000_000);
    assert_eq!(d(-0.1).units, -10_000_000);
    assert_eq!(d(0.0).units, 0);
    assert_eq!(d(-0.0).units, 0);
    assert_eq!(d(123_456.789).units, 12_345_678_900_000);
    assert_eq!(d(0.000_000_01).units, 1);
    assert_eq!(d(0.000_000_001).units, 0);
    assert_eq!(d(f64::MIN_POSITIVE).units, 0);
    assert_eq!(d(4_503_599_627.370_497).units, 450_359_962_737_049_675);
}

#[test]
fn a_tie_between_units_goes_to_the_even_one() {
    // 2^-9 is 195312.5 units, and 3 * 2^-9 is 585937.5 units.
    assert_eq!(d(0.001953125).units, 195_312);
    assert_eq!(d(0.005859375).units, 585_938);
    assert_eq!(d(-0.001953125).units, -195_312);
}

#[test]
fn numbers_beyond_the_range_stay_at_its_ends() {
    assert_eq!(d(1e300).units, i64::MAX);
    assert_eq!(d(-1e300).units, i64::MIN);
    assert_eq!(d(1e12).units, i64::MAX);
    assert_eq!(d(f64::INFINITY).units, i64::MAX);
    assert_eq!(d(f64::NEG_INFINITY).units, i64::MIN);
    assert!(Decimal::from_binary64(f64::NAN.to_bits()).is_none());
}

#[test]
fn integers_are_scaled_and_held_in_range() {
    assert_eq!(Decimal::from_integer(7).units, 700_000_000);
    assert_eq!(Decimal::from_integer(-7).units, -700_000_000);
    assert_eq!(Decimal::from_integer(i64::MAX).units, i64::MAX);
    assert_eq!(Decimal::from_integer(i64::MIN).units, i64::MIN);
}

#[test]
fn sums_and_differences_saturate() {
    assert_eq!(d(1.25).plus(d(2.5)), d(3.75));
    assert_eq!(d(1.25).minus(d(2.5)), d(-1.25));
    let top = Decimal::from_units(i64::MAX);
    let bottom = Decimal::from_units(i64::MIN);
    assert_eq!(top.plus(d(1.0)), top);
    assert_eq!(bottom.minus(d(1.0)), bottom);
}

#[test]
fn products_and_quotients_take_the_size_of_the_other_number() {
    assert_eq!(d(12.5).times_magnitude(d(-4.0)), d(50.0));
    assert_eq!(d(-12.5).times_magnitude(d(4.0)), d(-50.0));
    assert_eq!(d(50.0).over_magnitude(d(-4.0)), d(12.5));
    assert_eq!(d(1.0).over_magnitude(d(3.0)).units, 33_333_333);
    assert_eq!(d(-2.0).over_magnitude(d(3.0)).units, -66_666_667);
}

#[test]
fn cents_are_rounded_away_from_zero_on_a_tie() {
    assert_eq!(d(10.004).to_cents(), d(10.0));
    assert_eq!(Decimal::from_units(1_000_500_000).to_cents(), d(10.01));
    assert_eq!(Decimal::from_units(-1_000_500_000).to_cents(), d(-10.01));
    assert_eq!(d(10.006).to_cents(), d(10.01));
}

#[test]
fn integers_are_rounded_away_from_zero_on_a_tie() {
    for x in [
        2.5, -2.5, 2.4, -2.4, 0.5, -0.5, 0.49999999999999994, -0.0, 1e11, 100_000_000_000.5, 1e18,
        -1e18, 9.3e18, -9.3e18, 9_223_372_036_854_774_784.0, f64::MAX, f64::MIN, f64::MIN_POSITIVE,
        f64::INFINITY, f64::NEG_INFINITY, f64::NAN, 4_503_599_627_370_495.5,
        9_007_199_254_740_993.0,
    ] {
        assert_eq!(integer_from_binary64(x.to_bits()), x.round() as i64, "{}", x);
    }
    assert_eq!(integer_from_binary64(2.5f64.to_bits()), 3);
    assert_eq!(integer_from_binary64(f64::NAN.to_bits()), 0);
}

#[test]
fn amounts_buy_whole_shares() {
    assert_eq!(d(1000.0).shares_at(d(333.33)), d(3.0));
    assert_eq!(d(1000.0).shares_at(d(250.0)), d(4.0));
    assert_eq!(d(1000.0).shares_at(d(1000.01)), d(0.0));
    assert_eq!(d(0.0).shares_at(d(10.0)), d(0.0));
    assert_eq!(d(-5.0).shares_at(d(10.0)), d(0.0));
    assert_eq!(d(10.0).shares_at(d(-3.0)), d(-4.0));
    assert_eq!(d(10.0).shares_at(d(0.0)), Decimal::from_integer(92_233_720_368));
}

#[test]
fn whole_shares_are_affordable() {
    for amount in [1.0, 99.99, 500.0, 1234.56] {
        for price in [0.01, 1.0, 33.33, 499.99, 2000.0] {
            let shares = d(amount).shares_at(d(price));
            assert_eq!(shares.units % 100_000_000, 0);
            let cost = shares.units as i128 * d(price).units as i128;
            assert!(cost <= d(amount).units as i128 * 100_000_000);
        }
    }
}
