use nbody::config::{parse_args, parse_count, Config};
use nbody::decimal::{push_decimal, push_digit};
use nbody::report::{banner, elapsed_line, push_seconds, result_line, round_to_ticks};
use std::time::Duration;

fn decimal(value: u128) -> String {
    let mut out: String = String::new();
    push_decimal(&mut out, value);
    out
}

#[test]
fn banner_names_both_counts() {
    assert_eq!(banner(10, 5), "Running Native Rust N-body with N=10, Steps=5");
    assert_eq!(banner(100, 100), "Running Native Rust N-body with N=100, Steps=100");
    assert_eq!(banner(0, 0), "Running Native Rust N-body with N=0, Steps=0");
}

#[test]
fn banner_of_the_largest_counts() {
    let expected: String =
        format!("Running Native Rust N-body with N={}, Steps={}", usize::MAX, usize::MAX);
    assert_eq!(banner(usize::MAX, usize::MAX), expected);
}

#[test]
fn result_line_has_four_places() {
    assert_eq!(result_line(0), "RESULT: 0.0000");
    assert_eq!(result_line(1_234_560_000), "RESULT: 1.2346");
    assert_eq!(result_line(1_000_000_000), "RESULT: 1.0000");
    assert_eq!(result_line(100_000), "RESULT: 0.0001");
    assert_eq!(result_line(12_345_678_900_000), "RESULT: 12345.6789");
    assert_eq!(result_line(10_020_300_000), "RESULT: 10.0203");
}

#[test]
fn elapsed_line_has_four_places() {
    assert_eq!(elapsed_line(0), "Time: 0.0000 seconds");
    assert_eq!(elapsed_line(1_234_560_000), "Time: 1.2346 seconds");
    assert_eq!(elapsed_line(59_999_940_000), "Time: 59.9999 seconds");
}

#[test]
fn rounding_goes_to_the_nearest() {
    assert_eq!(round_to_ticks(0), 0);
    assert_eq!(round_to_ticks(49_999), 0);
    assert_eq!(round_to_ticks(50_001), 1);
    assert_eq!(round_to_ticks(100_000), 1);
    assert_eq!(round_to_ticks(149_999), 1);
    assert_eq!(round_to_ticks(150_001), 2);
    assert_eq!(round_to_ticks(999_949_999), 9_999);
    assert_eq!(round_to_ticks(999_950_001), 10_000);
    assert_eq!(result_line(999_950_001), "RESULT: 1.0000");
    assert_eq!(result_line(999_949_999), "RESULT: 0.9999");
}

#[test]
fn ties_go_to_the_even_neighbour() {
    assert_eq!(round_to_ticks(50_000), 0);
    assert_eq!(round_to_ticks(150_000), 2);
    assert_eq!(round_to_ticks(250_000), 2);
    assert_eq!(round_to_ticks(350_000), 4);
    assert_eq!(round_to_ticks(999_950_000), 10_000);
    assert_eq!(result_line(50_000), "RESULT: 0.0000");
    assert_eq!(result_line(150_000), "RESULT: 0.0002");
}

#[test]
fn largest_time_is_printed() {
    let ticks: u128 = u128::MAX / 100_000;
    assert!(u128::MAX % 100_000 < 50_000);
    assert_eq!(round_to_ticks(u128::MAX), ticks);
    assert_eq!(round_to_ticks(u128::MAX - 11_455 - 49_999), ticks);
    let expected: String = format!("RESULT: {}.{:04}", ticks / 10_000, ticks % 10_000);
    assert_eq!(result_line(u128::MAX), expected);
}

fn has_result_shape(line: &str) -> bool {
    let rest: &str = match line.strip_prefix("RESULT: ") {
        Some(rest) => rest,
        None => return false,
    };
    let (whole, fraction) = match rest.split_once('.') {
        Some(parts) => parts,
        None => return false,
    };
    !whole.is_empty()
        && whole.bytes().all(|b| b.is_ascii_digit())
        && fraction.len() == 4
        && fraction.bytes().all(|b| b.is_ascii_digit())
}

#[test]
fn result_line_always_has_the_harvested_shape() {
    let samples: Vec<u128> = vec![
        0, 1, 49_999, 50_000, 99_999, 100_000, 999_999_999, 1_000_000_000, 3_141_592_653,
        86_400_000_000_000, u128::from(u64::MAX), u128::MAX,
    ];
    for nanos in samples {
        let line: String = result_line(nanos);
        assert!(has_result_shape(&line), "{:?}", line);
    }
    assert!(!has_result_shape("RESULT: 1.234"));
    assert!(!has_result_shape("RESULT: .2345"));
    assert!(!has_result_shape("RESULT:1.2345"));
}

#[test]
fn agrees_with_floating_point_formatting_off_the_ties() {
    let mut nanos: u64 = 1;
    let mut checked: u32 = 0;
    while nanos < 5_000_000_000_000 {
        if nanos % 100_000 != 50_000 {
            let seconds: f64 = Duration::from_nanos(nanos).as_secs_f64();
            assert_eq!(result_line(u128::from(nanos)), format!("RESULT: {:.4}", seconds));
            assert_eq!(elapsed_line(u128::from(nanos)), format!("Time: {:.4} seconds", seconds));
            checked += 1;
        }
        nanos = nanos + nanos / 7 + 12_347;
    }
    assert!(checked > 100);
    for nanos in [49_999u64, 50_001, 149_999, 150_001, 999_949_999, 999_950_001, 1_234_560_000] {
        let seconds: f64 = Duration::from_nanos(nanos).as_secs_f64();
        assert_eq!(result_line(u128::from(nanos)), format!("RESULT: {:.4}", seconds));
    }
}

#[test]
fn push_seconds_appends() {
    let mut out: String = String::from("took ");
    push_seconds(&mut out, 2_500_000_000);
    assert_eq!(out, "took 2.5000");
    push_seconds(&mut out, 7_000_000);
    assert_eq!(out, "took 2.50000.0070");
}

#[test]
fn decimal_notation() {
    assert_eq!(decimal(0), "0");
    assert_eq!(decimal(7), "7");
    assert_eq!(decimal(10), "10");
    assert_eq!(decimal(1_000_000), "1000000");
    assert_eq!(decimal(9_876_543_210), "9876543210");
    assert_eq!(decimal(u128::MAX), u128::MAX.to_string());
}

#[test]
fn push_digit_appends_one_digit() {
    let mut out: String = String::from("x");
    for d in 0u8..10 {
        push_digit(&mut out, d);
    }
    assert_eq!(out, "x0123456789");
}

#[test]
fn banner_counts_are_read_back() {
    for (n, steps) in [(0usize, 0usize), (10, 5), (100, 100), (12345, 678), (usize::MAX, 1)] {
        let line: String = banner(n, steps);
        let rest: &str = line.strip_prefix("Running Native Rust N-body with N=").unwrap();
        let (first, second) = rest.split_once(", Steps=").unwrap();
        assert_eq!(parse_count(first), Some(n));
        assert_eq!(parse_count(second), Some(steps));
    }
}

#[test]
fn lines_of_a_run_of_ten_particles_and_five_steps() {
    let args: Vec<String> = vec![
        String::from("nbody"),
        String::from("--n"),
        String::from("10"),
        String::from("--steps"),
        String::from("5"),
    ];
    let config: Config = parse_args(&args);
    let first: String = banner(config.n, config.steps);
    assert!(first.contains("10"));
    assert!(first.contains("5"));
    assert_eq!(first, "Running Native Rust N-body with N=10, Steps=5");
    let elapsed: u128 = 1_234_567;
    let second: String = elapsed_line(elapsed);
    assert_eq!(second, "Time: 0.0012 seconds");
    let third: String = result_line(elapsed);
    assert_eq!(third, "RESULT: 0.0012");
    assert!(has_result_shape(&third));
}
