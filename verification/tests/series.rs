use rspamd_mon::counters::{DivisionByZero, KnownCounter};
use rspamd_mon::series::RspamdStatElement;
use rspamd_mon::value::{Ratio, Reading};

fn ratio(numerator: i128, divisor: usize) -> Ratio {
    Ratio { negative: numerator < 0, magnitude: numerator.unsigned_abs(), divisor }
}

fn window(series: &RspamdStatElement) -> Vec<Ratio> {
    series.history().iter().copied().collect()
}

#[test]
fn new_series_is_empty() {
    let series = RspamdStatElement::new(80, KnownCounter::Spam, false);
    assert_eq!(series.nelts(), 80);
    assert_eq!(series.label(), "spam msg/sec");
    assert!(series.history().is_empty());
}

#[test]
fn first_rate_update_stores_nothing() {
    for value in [0i128, 1, -1, 1_000_000, i128::MAX, i128::MIN] {
        let mut series = RspamdStatElement::new(4, KnownCounter::Spam, false);
        assert_eq!(series.update(value, 1000), Ok(Reading::Unavailable));
        assert!(series.history().is_empty());
    }
}

#[test]
fn rate_history_holds_the_differences() {
    let raw = [3i128, 10, 10, 4, 1000];
    let mut series = RspamdStatElement::new(4, KnownCounter::Ham, false);
    for value in raw {
        series.update(value, 250).unwrap();
    }
    assert_eq!(
        window(&series),
        vec![ratio(7, 250), ratio(0, 250), ratio(-6, 250), ratio(996, 250)]
    );
}

#[test]
fn rate_history_uses_each_interval() {
    let mut series = RspamdStatElement::new(3, KnownCounter::Ham, false);
    series.update(0, 5).unwrap();
    series.update(8, 2).unwrap();
    series.update(9, 1000).unwrap();
    assert_eq!(window(&series), vec![ratio(8, 2), ratio(1, 1000)]);
}

#[test]
fn zero_interval_fails_keeps_history_advances_counter() {
    let mut series = RspamdStatElement::new(4, KnownCounter::Junk, false);
    series.update(10, 100).unwrap();
    series.update(30, 100).unwrap();
    assert_eq!(series.update(50, 0), Err(DivisionByZero));
    assert_eq!(window(&series), vec![ratio(20, 100)]);
    assert_eq!(series.update(51, 100), Ok(Reading::Value(ratio(1, 100))));
    assert_eq!(window(&series), vec![ratio(20, 100), ratio(1, 100)]);
}

#[test]
fn zero_interval_on_first_update_fails_too() {
    let mut series = RspamdStatElement::new(4, KnownCounter::Junk, false);
    assert_eq!(series.update(10, 0), Err(DivisionByZero));
    assert!(series.history().is_empty());
    assert_eq!(series.update(25, 5), Ok(Reading::Value(ratio(15, 5))));
}

#[test]
fn window_never_exceeds_capacity() {
    let mut series = RspamdStatElement::new(3, KnownCounter::Total, false);
    for step in 0..20i128 {
        series.update(step * step, 10).unwrap();
        assert!(series.history().len() <= 3);
    }
    assert_eq!(window(&series), vec![ratio(33, 10), ratio(35, 10), ratio(37, 10)]);
}

#[test]
fn oldest_value_leaves_first() {
    let mut gauge = RspamdStatElement::new(3, KnownCounter::AvgTime, true);
    for value in [11i128, 22, 33, 44] {
        gauge.update(value, 1).unwrap();
    }
    assert_eq!(window(&gauge), vec![ratio(22, 1), ratio(33, 1), ratio(44, 1)]);

    let mut rate = RspamdStatElement::new(3, KnownCounter::Spam, false);
    for value in [11i128, 22, 44, 88] {
        rate.update(value, 1).unwrap();
    }
    assert_eq!(window(&rate), vec![ratio(11, 1), ratio(22, 1), ratio(44, 1)]);
    rate.update(89, 1).unwrap();
    assert_eq!(window(&rate), vec![ratio(22, 1), ratio(44, 1), ratio(1, 1)]);
}

#[test]
fn gauge_ignores_the_interval() {
    let mut series = RspamdStatElement::new(5, KnownCounter::AvgTime, true);
    assert_eq!(series.update(7, 0), Ok(Reading::Value(ratio(7, 1))));
    assert_eq!(series.update(7, 1000), Ok(Reading::Value(ratio(7, 1))));
    assert_eq!(series.update(-2, usize::MAX), Ok(Reading::Value(ratio(-2, 1))));
    assert_eq!(window(&series), vec![ratio(7, 1), ratio(7, 1), ratio(-2, 1)]);
}

#[test]
fn window_of_capacity_one_keeps_the_newest() {
    let mut series = RspamdStatElement::new(1, KnownCounter::AvgTime, true);
    series.update(1, 1).unwrap();
    series.update(2, 1).unwrap();
    assert_eq!(window(&series), vec![ratio(2, 1)]);
}

#[test]
fn window_of_capacity_zero_keeps_nothing() {
    let mut series = RspamdStatElement::new(0, KnownCounter::AvgTime, true);
    assert_eq!(series.update(1, 1), Ok(Reading::Value(ratio(1, 1))));
    assert_eq!(series.update(2, 1), Ok(Reading::Value(ratio(2, 1))));
    assert!(series.history().is_empty());
}

#[test]
fn reading_accessors() {
    assert!(Reading::Unavailable.is_unavailable());
    assert_eq!(Reading::Unavailable.value(), None);
    let value = Reading::Value(ratio(-3, 4));
    assert!(!value.is_unavailable());
    assert_eq!(value.value(), Some(ratio(-3, 4)));
}

#[test]
fn ratio_constructors() {
    assert_eq!(Ratio::between(5, 2, 9), ratio(-3, 9));
    assert_eq!(Ratio::between(-5, 2, 9), ratio(7, 9));
    assert_eq!(Ratio::between(-5, -2, 9), ratio(3, 9));
    assert_eq!(Ratio::between(2, 2, 9), ratio(0, 9));
    assert_eq!(Ratio::whole(-8), ratio(-8, 1));
    assert_eq!(Ratio::whole(0), Ratio { negative: false, magnitude: 0, divisor: 1 });
}

#[test]
fn ratio_order() {
    let third = ratio(1, 3);
    let half = ratio(2, 4);
    let other_half = ratio(1, 2);
    let minus_half = ratio(-1, 2);
    let zero = ratio(0, 5);
    let minus_zero = Ratio { negative: true, magnitude: 0, divisor: 7 };
    assert!(third.le(&half));
    assert!(!half.le(&third));
    assert!(half.le(&other_half));
    assert!(other_half.le(&half));
    assert!(minus_half.le(&third));
    assert!(!third.le(&minus_half));
    assert!(minus_half.le(&zero));
    assert!(!zero.le(&minus_half));
    assert!(zero.le(&minus_zero));
    assert!(minus_zero.le(&zero));
    assert!(ratio(-3, 4).le(&minus_half));
    assert!(!minus_half.le(&ratio(-3, 4)));
    let large = Ratio { negative: false, magnitude: u128::MAX, divisor: usize::MAX };
    let larger = Ratio { negative: false, magnitude: u128::MAX, divisor: usize::MAX - 1 };
    assert!(large.le(&larger));
    assert!(!larger.le(&large));
}
