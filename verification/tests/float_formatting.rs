use breeze_shell::float_decimal::{millis_places, per_second_places, secs_places};
use breeze_shell::performance_report::format_ms;
use breeze_shell::text::{push_millis0, push_millis1, push_millis3, push_rounded3};
use std::time::Duration;

fn text(write: impl FnOnce(&mut Vec<char>)) -> String {
    let mut out = Vec::new();
    write(&mut out);
    out.into_iter().collect()
}

fn millis(us: u64) -> f64 {
    Duration::from_micros(us).as_secs_f64() * 1000.0
}

#[test]
fn ties_follow_the_float_that_holds_the_duration() {
    assert_eq!(format_ms(1_050), "1.1 ms");
    assert_eq!(format_ms(2_050), "2.1 ms");
    assert_eq!(format_ms(1_250), "1.2 ms");
    assert_eq!(format_ms(16_050), "16.0 ms");
    assert_eq!(millis_places(2_500, 1), 2);
    assert_eq!(millis_places(3_500, 1), 4);
    assert_eq!(per_second_places(5, 2_000_000, 1), 2);
    assert_eq!(per_second_places(7, 2_000_000, 1), 4);
    assert_eq!(secs_places(1_500, 1000), 2);
}

#[test]
fn durations_print_as_float_milliseconds() {
    let ranges = (0..300_000u64)
        .chain(3_600_000_000u64..3_600_030_000)
        .chain(u64::MAX - 3_000..=u64::MAX);
    for us in ranges {
        let ms = millis(us);
        assert_eq!(text(|o| push_millis1(o, us)), format!("{ms:.1}"), "{us} us");
        assert_eq!(text(|o| push_millis0(o, us)), format!("{ms:.0}"), "{us} us");
        assert_eq!(text(|o| push_millis3(o, us)), format!("{ms:.3}"), "{us} us");
    }
}

#[test]
fn durations_print_as_float_seconds() {
    for us in (0..200_000u64).chain(u64::MAX - 2_000..=u64::MAX) {
        let seconds = Duration::from_micros(us).as_secs_f64();
        let expected = format!("{seconds:.3}");
        let q = secs_places(us, 1000);
        assert_eq!(format!("{}.{:03}", q / 1000, q % 1000), expected, "{us} us");
    }
}

#[test]
fn rates_print_as_float_division_by_float_seconds() {
    let counts = [0u64, 1, 2, 5, 7, 59, 60, 61, 119, 1000, 123_456, 1 << 53, (1 << 53) + 1, u64::MAX];
    for count in counts {
        for us in (1..20_000u64).chain([999_999, 1_000_000, 2_000_000, 16_666_667, u64::MAX]) {
            let rate = count as f64 / Duration::from_micros(us).as_secs_f64();
            let q0 = per_second_places(count, us, 1);
            assert_eq!(q0.to_string(), format!("{rate:.0}"), "{count}/{us}");
            let q1 = per_second_places(count, us, 10);
            assert_eq!(format!("{}.{}", q1 / 10, q1 % 10), format!("{rate:.1}"), "{count}/{us}");
            let q3 = per_second_places(count, us, 1000);
            assert_eq!(format!("{}.{:03}", q3 / 1000, q3 % 1000), format!("{rate:.3}"), "{count}/{us}");
        }
    }
}

#[test]
fn quotients_print_as_float_division() {
    for d in [1u64, 2, 3, 7, 10, 1000, 16_667, 1_000_000, 10_000_000, 123_456_789] {
        for n in (0..20_000u64).chain(u64::MAX - 2_000..=u64::MAX).chain((1 << 53) - 100..(1 << 53) + 100) {
            let q = n as f64 / d as f64;
            assert_eq!(text(|o| push_rounded3(o, n, d)), format!("{q:.3}"), "{n}/{d}");
        }
    }
}
