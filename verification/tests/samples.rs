use rspamd_mon::samples::{average_micros, micros_from_bits, MICROS_PER_SECOND};

fn micros(seconds: f64) -> Option<i64> {
    micros_from_bits(seconds.to_bits())
}

#[test]
fn micros_of_plain_seconds() {
    assert_eq!(MICROS_PER_SECOND, 1_000_000);
    assert_eq!(micros(0.0), Some(0));
    assert_eq!(micros(1.0), Some(1_000_000));
    assert_eq!(micros(2.0), Some(2_000_000));
    assert_eq!(micros(0.5), Some(500_000));
    assert_eq!(micros(0.507925), Some(507_925));
    assert_eq!(micros(0.209795), Some(209_795));
    assert_eq!(micros(60901.0), Some(60_901_000_000));
    assert_eq!(micros(0.000001), Some(1));
}

#[test]
fn micros_round_to_nearest_half_up() {
    assert_eq!(micros(0.0078125), Some(7813));
    assert_eq!(micros(-0.0078125), Some(-7813));
    assert_eq!(micros(0.0000004), Some(0));
    assert_eq!(micros(0.0000006), Some(1));
    assert_eq!(micros(0.00000095367431640625), Some(1));
    assert_eq!(micros(0.000000476837158203125), Some(0));
}

#[test]
fn micros_of_negative_seconds() {
    assert_eq!(micros(-1.5), Some(-1_500_000));
    assert_eq!(micros(-0.0), Some(0));
}

#[test]
fn micros_of_tiny_seconds_are_zero() {
    assert_eq!(micros(1e-300), Some(0));
    assert_eq!(micros(f64::MIN_POSITIVE), Some(0));
    assert_eq!(micros(f64::from_bits(1)), Some(0));
    assert_eq!(micros(-1e-30), Some(0));
}

#[test]
fn micros_of_what_is_no_finite_number() {
    assert_eq!(micros(f64::NAN), None);
    assert_eq!(micros(f64::INFINITY), None);
    assert_eq!(micros(f64::NEG_INFINITY), None);
    assert_eq!(micros_from_bits(0x7ff0_0000_0000_0001), None);
    assert_eq!(micros_from_bits(0xfff8_0000_0000_0000), None);
}

#[test]
fn micros_out_of_range() {
    assert_eq!(micros(1e300), None);
    assert_eq!(micros(f64::MAX), None);
    assert_eq!(micros(-1e20), None);
    assert_eq!(micros(9_223_372_036_854.775), Some(9_223_372_036_854_775_391));
    assert_eq!(micros(9_223_372_036_855.0), None);
    assert_eq!(micros(4503599627370496.0), None);
}

#[test]
fn mean_of_samples_passes_over_what_is_no_number() {
    let entries = vec![
        Some(1.0f64.to_bits()),
        Some(2.0f64.to_bits()),
        Some(f64::NAN.to_bits()),
        Some(3.0f64.to_bits()),
    ];
    assert_eq!(average_micros(&entries), Some(2_000_000));
    let entries = vec![Some(1.0f64.to_bits()), None, Some(2.0f64.to_bits())];
    assert_eq!(average_micros(&entries), Some(1_500_000));
}

#[test]
fn mean_of_no_samples() {
    assert_eq!(average_micros(&vec![]), None);
    assert_eq!(average_micros(&vec![Some(f64::NAN.to_bits()), Some(f64::NAN.to_bits())]), None);
    assert_eq!(average_micros(&vec![None, Some(f64::INFINITY.to_bits())]), None);
}

#[test]
fn mean_rounds_down() {
    let entries = vec![Some(0.000001f64.to_bits()), Some(0.000002f64.to_bits())];
    assert_eq!(average_micros(&entries), Some(1));
    let entries = vec![Some((-0.000001f64).to_bits()), Some((-0.000002f64).to_bits())];
    assert_eq!(average_micros(&entries), Some(-2));
    let entries = vec![Some((-0.000003f64).to_bits()), Some(0.000003f64.to_bits())];
    assert_eq!(average_micros(&entries), Some(0));
    let entries = vec![Some((-0.000004f64).to_bits()), Some(0.000003f64.to_bits())];
    assert_eq!(average_micros(&entries), Some(-1));
}

#[test]
fn mean_of_a_long_list_does_not_drift() {
    let mut entries = Vec::new();
    for _ in 0..100_000 {
        entries.push(Some(0.1f64.to_bits()));
    }
    assert_eq!(average_micros(&entries), Some(100_000));
    entries.push(Some(9_000_000_000_000.0f64.to_bits()));
    assert_eq!(
        average_micros(&entries),
        Some((100_000i128 * 100_000 + 9_000_000_000_000_000_000) / 100_001)
    );
}

#[test]
fn mean_of_the_scan_times_of_a_report() {
    let seconds = [
        0.507925, 0.209795, 0.223006, 0.647264, 0.529891, 0.273673, 0.537307, 0.533161, 0.539620,
        0.535399, 0.540692, 0.227740, 0.540794, 0.254937, 0.498498, 0.220530, 0.477884, 0.555480,
        0.502577, 0.499710, 0.424071, 0.485661, 0.505764, 0.492892, 0.495350, 0.260113, 0.597570,
        0.588293, 0.501595, 0.519670, 0.504542,
    ];
    let entries: Vec<Option<u64>> = seconds.iter().map(|s: &f64| Some(s.to_bits())).collect();
    let float_mean = seconds.iter().sum::<f64>() / seconds.len() as f64;
    let mean = average_micros(&entries).unwrap();
    assert_eq!(mean, 14_231_404 / 31);
    assert!((mean as f64 / 1e6 - float_mean).abs() < 1e-6);
}
