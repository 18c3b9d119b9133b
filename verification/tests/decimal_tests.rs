use pulp_model::decimal::{LIMIT, SCALE};
use pulp_model::Decimal;

fn d(x: f64) -> Decimal {
    Decimal::from_raw((x * 1e9).round() as i64)
}

#[test]
fn a_decimal_counts_billionths() {
    assert_eq!(SCALE, 1_000_000_000);
    assert_eq!(Decimal::from_int(3).raw(), 3_000_000_000);
    assert_eq!(Decimal::from_raw(10_300_000_000).raw(), 10_300_000_000);
    assert_eq!(Decimal::zero().raw(), 0);
    assert_eq!(Decimal::one().raw(), SCALE);
    assert_eq!(d(10.3), Decimal::from_raw(10_300_000_000));
    assert_eq!(d(-0.05).raw(), -50_000_000);
    assert_eq!(Decimal::from_int(3).wide(), 3_000_000_000i128);
    assert_eq!(Decimal::from_wide(-7), Decimal::from_raw(-7));
}

#[test]
fn construction_stops_at_the_ends_of_the_range() {
    assert_eq!(LIMIT, 9_000_000_000_000_000_000);
    assert_eq!(Decimal::from_raw(i64::MAX).raw(), LIMIT);
    assert_eq!(Decimal::from_raw(i64::MIN).raw(), -LIMIT);
    assert_eq!(Decimal::from_int(9_000_000_000).raw(), LIMIT);
    assert_eq!(Decimal::from_int(9_000_000_001).raw(), LIMIT);
    assert_eq!(Decimal::from_int(i64::MIN).raw(), -LIMIT);
    assert_eq!(Decimal::from_wide(i128::MAX).raw(), LIMIT);
    assert_eq!(Decimal::from_wide(i128::MIN).raw(), -LIMIT);
}

#[test]
fn sums_and_differences_are_exact_within_the_range() {
    assert_eq!(d(10.3).minus(d(10.0)), d(0.3));
    assert_eq!(d(0.1).plus(d(0.2)), d(0.3));
    assert_eq!(d(-1.5).plus(d(1.5)), Decimal::zero());
    assert_eq!(d(2.0).minus(d(5.0)), d(-3.0));
}

#[test]
fn sums_and_differences_stop_at_the_ends_of_the_range() {
    let top = Decimal::from_raw(LIMIT);
    let bottom = Decimal::from_raw(-LIMIT);
    assert_eq!(top.plus(Decimal::one()), top);
    assert_eq!(bottom.minus(Decimal::one()), bottom);
    assert_eq!(top.minus(bottom), top);
    assert_eq!(bottom.minus(top), bottom);
    assert_eq!(top.plus(bottom), Decimal::zero());
}

#[test]
fn products_round_to_the_nearest_billionth() {
    assert_eq!(d(2.0).times(d(3.5)), d(7.0));
    assert_eq!(d(-2.0).times(d(3.5)), d(-7.0));
    assert_eq!(d(0.5).times(d(0.5)), d(0.25));
    // 0.000000001 * 0.5 lies halfway between two billionths: away from zero.
    assert_eq!(Decimal::from_raw(1).times(d(0.5)), Decimal::from_raw(1));
    assert_eq!(Decimal::from_raw(-1).times(d(0.5)), Decimal::from_raw(-1));
    assert_eq!(Decimal::from_raw(1).times(d(0.4)), Decimal::zero());
    assert_eq!(Decimal::from_raw(3).times(d(0.5)), Decimal::from_raw(2));
    assert_eq!(d(7.0).times(Decimal::one()), d(7.0));
    assert_eq!(d(7.0).times(Decimal::one().negated()), d(-7.0));
}

#[test]
fn products_stop_at_the_ends_of_the_range() {
    let top = Decimal::from_raw(LIMIT);
    assert_eq!(top.times(d(2.0)), top);
    assert_eq!(top.times(d(-2.0)), top.negated());
    assert_eq!(top.times(top), top);
    assert_eq!(top.negated().times(top), top.negated());
}

#[test]
fn quotients_round_to_the_nearest_billionth() {
    assert_eq!(d(7.0).over(d(2.0)), Some(d(3.5)));
    assert_eq!(d(1.0).over(d(3.0)), Some(Decimal::from_raw(333_333_333)));
    assert_eq!(d(2.0).over(d(3.0)), Some(Decimal::from_raw(666_666_667)));
    assert_eq!(d(-2.0).over(d(3.0)), Some(Decimal::from_raw(-666_666_667)));
    assert_eq!(d(2.0).over(d(-3.0)), Some(Decimal::from_raw(-666_666_667)));
    assert_eq!(d(-2.0).over(d(-3.0)), Some(Decimal::from_raw(666_666_667)));
    assert_eq!(Decimal::from_raw(1).over(d(2.0)), Some(Decimal::from_raw(1)));
    assert_eq!(Decimal::zero().over(d(2.0)), Some(Decimal::zero()));
}

#[test]
fn a_quotient_by_zero_is_nothing() {
    assert_eq!(d(7.0).over(Decimal::zero()), None);
    assert_eq!(Decimal::zero().over(Decimal::zero()), None);
}

#[test]
fn quotients_stop_at_the_ends_of_the_range() {
    let top = Decimal::from_raw(LIMIT);
    assert_eq!(top.over(Decimal::from_raw(1)), Some(top));
    assert_eq!(top.over(Decimal::from_raw(-1)), Some(top.negated()));
    assert_eq!(d(10.0).over(Decimal::from_raw(1)), Some(top));
}

#[test]
fn rounding_goes_to_the_nearest_whole_number_and_ties_go_away_from_zero() {
    assert_eq!(d(10.3).round(), d(10.0));
    assert_eq!(d(10.5).round(), d(11.0));
    assert_eq!(d(10.7).round(), d(11.0));
    assert_eq!(d(-10.3).round(), d(-10.0));
    assert_eq!(d(-10.5).round(), d(-11.0));
    assert_eq!(d(0.499999999).round(), Decimal::zero());
    assert_eq!(d(-0.499999999).round(), Decimal::zero());
    assert_eq!(d(4.0).round(), d(4.0));
    assert_eq!(Decimal::from_raw(LIMIT).round(), Decimal::from_raw(LIMIT));
    assert_eq!(Decimal::from_raw(LIMIT - 1).round(), Decimal::from_raw(LIMIT));
    assert_eq!(Decimal::from_raw(-LIMIT + 1).round(), Decimal::from_raw(-LIMIT));
}

#[test]
fn sign_magnitude_and_order() {
    assert_eq!(d(-2.5).abs(), d(2.5));
    assert_eq!(d(2.5).abs(), d(2.5));
    assert_eq!(Decimal::from_raw(-LIMIT).abs(), Decimal::from_raw(LIMIT));
    assert_eq!(d(2.5).negated(), d(-2.5));
    assert_eq!(Decimal::zero().negated(), Decimal::zero());
    assert_eq!(d(1.0).max(d(2.0)), d(2.0));
    assert_eq!(d(2.0).max(d(1.0)), d(2.0));
    assert_eq!(d(-1.0).max(d(-2.0)), d(-1.0));
    assert!(Decimal::zero().is_zero());
    assert!(!Decimal::from_raw(1).is_zero());
    assert!(d(1.0) < d(2.0));
    assert!(d(-1.0) < Decimal::zero());
}

#[test]
fn a_decimal_as_text() {
    assert_eq!(Decimal::zero().to_string(), "0");
    assert_eq!(d(2.0).to_string(), "2");
    assert_eq!(d(10.3).to_string(), "10.3");
    assert_eq!(d(-0.5).to_string(), "-0.5");
    assert_eq!(d(-7.0).to_string(), "-7");
    assert_eq!(d(0.05).to_string(), "0.05");
    assert_eq!(Decimal::from_raw(1).to_string(), "0.000000001");
    assert_eq!(Decimal::from_raw(-1_000_000_001).to_string(), "-1.000000001");
    assert_eq!(Decimal::from_raw(123_456_789_120).to_string(), "123.45678912");
    assert_eq!(Decimal::from_raw(LIMIT).to_string(), "9000000000");
    assert_eq!(Decimal::from_raw(100_000_000).to_string(), "0.1");
}
