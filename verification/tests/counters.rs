use rspamd_mon::counters::{
    AnyCounter, Counter, DiffCounter, DivisionByZero, GaugeCounter, KnownCounter,
};
use rspamd_mon::series::RspamdStatElement;
use rspamd_mon::value::{Ratio, Reading};
use std::time::Duration;

fn as_float(ratio: Ratio) -> f64 {
    let magnitude = ratio.magnitude as f64 / ratio.divisor as f64;
    if ratio.negative {
        -magnitude
    } else {
        magnitude
    }
}

fn reading_as_float(reading: Reading) -> f64 {
    match reading {
        Reading::Unavailable => f64::NAN,
        Reading::Value(ratio) => as_float(ratio),
    }
}

#[test]
fn diff_counter_test() {
    let mut ctr = RspamdStatElement::new(2, KnownCounter::Unknown, false);
    let elapsed = Duration::from_millis(1);
    let ms = elapsed.as_millis() as usize;
    assert!(reading_as_float(ctr.update(1, ms).unwrap()).is_nan());
    assert!(ctr.values.is_empty());
    assert_eq!(reading_as_float(ctr.update(2, ms).unwrap()), 1_f64);
    assert_eq!(as_float(ctr.values[0]), 1_f64);
    assert_eq!(reading_as_float(ctr.update(2, ms).unwrap()), 0_f64);
    assert_eq!(as_float(ctr.values[0]), 1_f64);
    assert_eq!(as_float(ctr.values[1]), 0_f64);
    assert_eq!(reading_as_float(ctr.update(3, ms).unwrap()), 1_f64);
    assert_eq!(as_float(ctr.values[0]), 0_f64);
    assert_eq!(as_float(ctr.values[1]), 1_f64);
}

#[test]
fn gauge_counter_test() {
    let mut ctr = RspamdStatElement::new(2, KnownCounter::Unknown, true);
    let elapsed = Duration::from_millis(1);
    let ms = elapsed.as_millis() as usize;
    assert_eq!(reading_as_float(ctr.update(1, ms).unwrap()), 1_f64);
    assert_eq!(as_float(ctr.values[0]), 1_f64);
    assert_eq!(reading_as_float(ctr.update(2, ms).unwrap()), 2_f64);
    assert_eq!(as_float(ctr.values[0]), 1_f64);
    assert_eq!(as_float(ctr.values[1]), 2_f64);
    assert_eq!(reading_as_float(ctr.update(2, ms).unwrap()), 2_f64);
    assert_eq!(as_float(ctr.values[0]), 2_f64);
    assert_eq!(as_float(ctr.values[1]), 2_f64);
    assert_eq!(reading_as_float(ctr.update(3, ms).unwrap()), 3_f64);
    assert_eq!(as_float(ctr.values[0]), 2_f64);
    assert_eq!(as_float(ctr.values[1]), 3_f64);
}

#[test]
fn rate_counter_first_value_is_unavailable() {
    let mut counter = DiffCounter::new("rate");
    assert_eq!(counter.update(-7, 250), Ok(Reading::Unavailable));
    assert_eq!(counter.label(), "rate");
}

#[test]
fn rate_counter_divides_change_by_interval() {
    let mut counter = DiffCounter::new("rate");
    counter.update(100, 1).unwrap();
    assert_eq!(
        counter.update(350, 500),
        Ok(Reading::Value(Ratio { negative: false, magnitude: 250, divisor: 500 }))
    );
    assert_eq!(
        counter.update(50, 20),
        Ok(Reading::Value(Ratio { negative: true, magnitude: 300, divisor: 20 }))
    );
    assert_eq!(
        counter.update(50, 20),
        Ok(Reading::Value(Ratio { negative: false, magnitude: 0, divisor: 20 }))
    );
}

#[test]
fn rate_counter_fails_over_no_interval_and_still_advances() {
    let mut counter = DiffCounter::new("rate");
    assert_eq!(counter.update(10, 0), Err(DivisionByZero));
    assert_eq!(
        counter.update(30, 10),
        Ok(Reading::Value(Ratio { negative: false, magnitude: 20, divisor: 10 }))
    );
    assert_eq!(counter.update(100, 0), Err(DivisionByZero));
    assert_eq!(
        counter.update(101, 1),
        Ok(Reading::Value(Ratio { negative: false, magnitude: 1, divisor: 1 }))
    );
}

#[test]
fn rate_counter_spans_the_whole_range() {
    let mut counter = DiffCounter::new("rate");
    counter.update(i128::MIN, 1).unwrap();
    assert_eq!(
        counter.update(i128::MAX, 3),
        Ok(Reading::Value(Ratio { negative: false, magnitude: u128::MAX, divisor: 3 }))
    );
    assert_eq!(
        counter.update(i128::MIN, 3),
        Ok(Reading::Value(Ratio { negative: true, magnitude: u128::MAX, divisor: 3 }))
    );
    assert_eq!(
        counter.update(-1, 3),
        Ok(Reading::Value(Ratio { negative: false, magnitude: (1u128 << 127) - 1, divisor: 3 }))
    );
}

#[test]
fn gauge_counter_returns_its_input() {
    let mut counter = GaugeCounter::new("gauge");
    for (value, ms) in [(5i128, 1000usize), (-3, 0), (0, 7), (i128::MIN, 0), (i128::MAX, 1)] {
        let expected = Ratio {
            negative: value < 0,
            magnitude: value.unsigned_abs(),
            divisor: 1,
        };
        assert_eq!(counter.update(value, ms), Ok(Reading::Value(expected)));
    }
    assert_eq!(counter.label(), "gauge");
}

#[test]
fn any_counter_dispatches_on_its_kind() {
    let mut gauge = AnyCounter::create("g", true);
    let mut rate = AnyCounter::create("r", false);
    assert_eq!(gauge.update(4, 0), Ok(Reading::Value(Ratio::whole(4))));
    assert_eq!(rate.update(4, 0), Err(DivisionByZero));
    assert_eq!(rate.update(6, 2), Ok(Reading::Value(Ratio::between(4, 6, 2))));
    assert_eq!(gauge.label(), "g");
    assert_eq!(rate.label(), "r");
}

#[test]
fn known_counter_labels() {
    let labels: Vec<&'static str> = vec![
        KnownCounter::Ham.into(),
        KnownCounter::Spam.into(),
        KnownCounter::Junk.into(),
        KnownCounter::Total.into(),
        KnownCounter::AvgTime.into(),
        KnownCounter::Unknown.into(),
    ];
    assert_eq!(
        labels,
        vec![
            "ham msg/sec",
            "spam msg/sec",
            "junk msg/sec",
            "total msg/sec",
            "average_time sec",
            "unknown"
        ]
    );
}

#[test]
fn known_counter_of_action_names() {
    assert_eq!(KnownCounter::from("no action"), KnownCounter::Ham);
    assert_eq!(KnownCounter::from("no_action"), KnownCounter::Ham);
    assert_eq!(KnownCounter::from("total"), KnownCounter::Total);
    assert_eq!(KnownCounter::from("add header"), KnownCounter::Junk);
    assert_eq!(KnownCounter::from("add_header"), KnownCounter::Junk);
    assert_eq!(KnownCounter::from("rewrite subject"), KnownCounter::Junk);
    assert_eq!(KnownCounter::from("rewrite_subject"), KnownCounter::Junk);
    assert_eq!(KnownCounter::from("reject"), KnownCounter::Unknown);
    assert_eq!(KnownCounter::from(""), KnownCounter::Unknown);
    assert_eq!(KnownCounter::from("No Action"), KnownCounter::Unknown);
}

#[test]
fn division_by_zero_message() {
    assert_eq!(DivisionByZero.message(), "division by zero");
}
