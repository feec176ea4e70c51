use timegrep::duration::{
    duration_string, format_duration, select_unit, unit_tint, Tint, EMPHASIS_FROM, MICRO_FROM,
    MILLI_FROM, SECONDS_FROM,
};
use timegrep::unit::TimeUnit;

fn auto_text(nanos: u128) -> String {
    format_duration(nanos, &None).text
}

fn fixed_text(nanos: u128, unit: TimeUnit) -> String {
    format_duration(nanos, &Some(unit)).text
}

#[test]
fn thresholds_are_a_tenth_over_the_round_boundaries() {
    assert_eq!(MICRO_FROM, 1_100);
    assert_eq!(MILLI_FROM, 1_100_000);
    assert_eq!(SECONDS_FROM, 1_100_000_000);
    assert_eq!(EMPHASIS_FROM, 10_000_000_000);
}

#[test]
fn auto_selects_nanoseconds_below_1100() {
    for nanos in [0u128, 1, 999, 1000, 1001, 1099] {
        assert_eq!(select_unit(nanos), TimeUnit::Nano);
        assert!(auto_text(nanos).ends_with("ns"));
    }
    assert_eq!(auto_text(0), "0ns");
    assert_eq!(auto_text(1), "1ns");
    assert_eq!(auto_text(1000), "1000ns");
    assert_eq!(auto_text(1099), "1099ns");
}

#[test]
fn auto_selects_microseconds_from_1100() {
    for nanos in [1_100u128, 1_101, 999_999, 1_000_000, 1_099_999] {
        assert_eq!(select_unit(nanos), TimeUnit::Micro);
        assert!(auto_text(nanos).ends_with("us"));
    }
    assert_eq!(auto_text(1_100), "1.100us");
    assert_eq!(auto_text(1_101), "1.101us");
    assert_eq!(auto_text(999_999), "999.999us");
    assert_eq!(auto_text(1_000_000), "1000.000us");
    assert_eq!(auto_text(1_099_999), "1099.999us");
}

#[test]
fn auto_selects_milliseconds_from_1_100_000() {
    for nanos in [1_100_000u128, 1_100_001, 999_999_999, 1_000_000_000, 1_099_999_999] {
        assert_eq!(select_unit(nanos), TimeUnit::Milli);
        assert!(auto_text(nanos).ends_with("ms"));
    }
    assert_eq!(auto_text(1_100_000), "1.100ms");
    assert_eq!(auto_text(1_234_567), "1.234ms");
    assert_eq!(auto_text(999_999_999), "999.999ms");
    assert_eq!(auto_text(1_000_000_000), "1000.000ms");
    assert_eq!(auto_text(1_099_999_999), "1099.999ms");
}

#[test]
fn auto_selects_seconds_from_1_100_000_000() {
    for nanos in [1_100_000_000u128, 1_100_000_001, 60_000_000_000, u128::MAX] {
        assert_eq!(select_unit(nanos), TimeUnit::Seconds);
        let text = auto_text(nanos);
        assert!(text.ends_with('s'));
        assert!(!text.ends_with("ns") && !text.ends_with("us") && !text.ends_with("ms"));
    }
    assert_eq!(auto_text(1_100_000_000), "1.100s");
    assert_eq!(auto_text(1_999_999_999), "1.999s");
    assert_eq!(auto_text(60_000_000_000), "60.000s");
    assert_eq!(auto_text(3_600_123_456_789), "3600.123s");
}

#[test]
fn a_fixed_unit_is_used_whatever_the_magnitude() {
    assert_eq!(fixed_text(0, TimeUnit::Nano), "0ns");
    assert_eq!(fixed_text(0, TimeUnit::Micro), "0.000us");
    assert_eq!(fixed_text(0, TimeUnit::Milli), "0.000ms");
    assert_eq!(fixed_text(0, TimeUnit::Seconds), "0.000s");

    assert_eq!(fixed_text(1_500, TimeUnit::Nano), "1500ns");
    assert_eq!(fixed_text(1_500, TimeUnit::Micro), "1.500us");
    assert_eq!(fixed_text(1_500, TimeUnit::Milli), "0.001ms");
    assert_eq!(fixed_text(1_500, TimeUnit::Seconds), "0.000s");

    assert_eq!(fixed_text(12_345_678_901, TimeUnit::Nano), "12345678901ns");
    assert_eq!(fixed_text(12_345_678_901, TimeUnit::Micro), "12345678.901us");
    assert_eq!(fixed_text(12_345_678_901, TimeUnit::Milli), "12345.678ms");
    assert_eq!(fixed_text(12_345_678_901, TimeUnit::Seconds), "12.345s");
}

#[test]
fn coarser_units_cut_off_and_do_not_round() {
    assert_eq!(fixed_text(1_999, TimeUnit::Milli), "0.001ms");
    assert_eq!(fixed_text(999_999, TimeUnit::Milli), "0.999ms");
    assert_eq!(fixed_text(999_999, TimeUnit::Seconds), "0.000s");
    assert_eq!(fixed_text(1_999_999, TimeUnit::Seconds), "0.001s");
    assert_eq!(fixed_text(999_999_999, TimeUnit::Seconds), "0.999s");
}

#[test]
fn duration_string_is_the_text_of_format_duration() {
    for unit in TimeUnit::value_variants() {
        for nanos in [0u128, 7, 1_100, 42_000_000, 98_765_432_109] {
            assert_eq!(duration_string(nanos, *unit), fixed_text(nanos, *unit));
        }
    }
}

#[test]
fn the_longest_duration_is_printed_in_full() {
    assert_eq!(
        fixed_text(u128::MAX, TimeUnit::Nano),
        "340282366920938463463374607431768211455ns"
    );
    assert_eq!(
        fixed_text(u128::MAX, TimeUnit::Micro),
        "340282366920938463463374607431768211.455us"
    );
    assert_eq!(
        fixed_text(u128::MAX, TimeUnit::Milli),
        "340282366920938463463374607431768.211ms"
    );
    assert_eq!(
        fixed_text(u128::MAX, TimeUnit::Seconds),
        "340282366920938463463374607431.768s"
    );
}

#[test]
fn each_unit_has_its_colour() {
    assert_eq!(unit_tint(TimeUnit::Nano), Tint::Cyan);
    assert_eq!(unit_tint(TimeUnit::Micro), Tint::Green);
    assert_eq!(unit_tint(TimeUnit::Milli), Tint::Yellow);
    assert_eq!(unit_tint(TimeUnit::Seconds), Tint::Red);

    assert_eq!(format_duration(5, &None).tint, Tint::Cyan);
    assert_eq!(format_duration(5_000, &None).tint, Tint::Green);
    assert_eq!(format_duration(5_000_000, &None).tint, Tint::Yellow);
    assert_eq!(format_duration(5_000_000_000, &None).tint, Tint::Red);
    assert_eq!(format_duration(5, &Some(TimeUnit::Seconds)).tint, Tint::Red);
    assert_eq!(format_duration(5_000_000_000, &Some(TimeUnit::Nano)).tint, Tint::Cyan);
}

#[test]
fn seconds_stand_out_from_ten_seconds_on() {
    assert!(!format_duration(1_100_000_000, &None).bold);
    assert!(!format_duration(9_999_999_999, &None).bold);
    assert!(format_duration(10_000_000_000, &None).bold);
    assert!(format_duration(10_000_000_001, &None).bold);
    assert!(format_duration(u128::MAX, &None).bold);
    assert!(!format_duration(9_999_999_999, &Some(TimeUnit::Seconds)).bold);
    assert!(format_duration(10_000_000_000, &Some(TimeUnit::Seconds)).bold);
}

#[test]
fn finer_units_never_stand_out() {
    for unit in [TimeUnit::Nano, TimeUnit::Micro, TimeUnit::Milli] {
        assert!(!format_duration(0, &Some(unit)).bold);
        assert!(!format_duration(10_000_000_000, &Some(unit)).bold);
        assert!(!format_duration(u128::MAX, &Some(unit)).bold);
    }
}

#[test]
fn three_places_agree_with_floating_point_formatting() {
    for nanos in [0u128, 1, 999, 1_100, 1_500, 123_456, 1_099_999, 987_654_321, 12_345_678_901] {
        assert_eq!(
            fixed_text(nanos, TimeUnit::Micro),
            format!("{:.3}us", nanos as f64 / 1000.0)
        );
        assert_eq!(
            fixed_text(nanos, TimeUnit::Milli),
            format!("{:.3}ms", (nanos / 1_000) as f64 / 1000.0)
        );
        assert_eq!(
            fixed_text(nanos, TimeUnit::Seconds),
            format!("{:.3}s", (nanos / 1_000_000) as f64 / 1000.0)
        );
    }
}
