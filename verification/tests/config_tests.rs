use nbody::config::{
    parse_args, parse_count, Config, DEFAULT_PARTICLES, DEFAULT_STEPS, SEED, SOFTENING_INVERSE,
    STEPS_PER_TIME_UNIT,
};

fn argv(words: &[&str]) -> Vec<String> {
    let mut all: Vec<String> = vec![String::from("nbody")];
    for word in words {
        all.push(String::from(*word));
    }
    all
}

#[test]
fn defaults_are_one_hundred() {
    assert_eq!(DEFAULT_PARTICLES, 100);
    assert_eq!(DEFAULT_STEPS, 100);
    assert_eq!(Config::fallback(), Config { n: 100, steps: 100 });
}

#[test]
fn fixed_parameters() {
    assert_eq!(SEED, 42);
    assert_eq!(1.0 / f64::from(STEPS_PER_TIME_UNIT), 0.01);
    assert_eq!(1.0 / f64::from(SOFTENING_INVERSE), 1e-9);
}

#[test]
fn no_arguments_give_defaults() {
    assert_eq!(parse_args(&argv(&[])), Config { n: 100, steps: 100 });
}

#[test]
fn empty_argument_list_gives_defaults() {
    let none: Vec<String> = Vec::new();
    assert_eq!(parse_args(&none), Config { n: 100, steps: 100 });
}

#[test]
fn both_flags_are_read() {
    assert_eq!(parse_args(&argv(&["--n", "10", "--steps", "5"])), Config { n: 10, steps: 5 });
}

#[test]
fn flags_in_either_order() {
    assert_eq!(parse_args(&argv(&["--steps", "5", "--n", "10"])), Config { n: 10, steps: 5 });
}

#[test]
fn one_flag_leaves_the_other_default() {
    assert_eq!(parse_args(&argv(&["--n", "7"])), Config { n: 7, steps: 100 });
    assert_eq!(parse_args(&argv(&["--steps", "3"])), Config { n: 100, steps: 3 });
}

#[test]
fn unreadable_count_is_like_no_count() {
    assert_eq!(parse_args(&argv(&["--n", "abc"])), parse_args(&argv(&[])));
    assert_eq!(parse_args(&argv(&["--n", "abc"])), Config { n: 100, steps: 100 });
    assert_eq!(parse_args(&argv(&["--steps", "abc"])), Config { n: 100, steps: 100 });
    assert_eq!(parse_args(&argv(&["--n", "abc", "--steps", "4"])), Config { n: 100, steps: 4 });
}

#[test]
fn unreadable_count_resets_an_earlier_one() {
    assert_eq!(parse_args(&argv(&["--n", "5", "--n", "abc"])), Config { n: 100, steps: 100 });
    assert_eq!(parse_args(&argv(&["--steps", "5", "--steps", "-1"])), Config { n: 100, steps: 100 });
}

#[test]
fn later_count_wins() {
    assert_eq!(parse_args(&argv(&["--n", "5", "--n", "6"])), Config { n: 6, steps: 100 });
}

#[test]
fn flag_in_last_place_is_skipped() {
    assert_eq!(parse_args(&argv(&["--n"])), Config { n: 100, steps: 100 });
    assert_eq!(parse_args(&argv(&["--steps"])), Config { n: 100, steps: 100 });
    assert_eq!(parse_args(&argv(&["--n", "8", "--steps"])), Config { n: 8, steps: 100 });
}

#[test]
fn value_is_consumed_even_when_it_is_a_flag() {
    // "--steps" is taken as the unreadable value of "--n"; "5" is then a stray word.
    assert_eq!(parse_args(&argv(&["--n", "--steps", "5"])), Config { n: 100, steps: 100 });
    // "--n" is taken as the value of "--n"; then "--steps 5" is read.
    assert_eq!(parse_args(&argv(&["--n", "--n", "--steps", "5"])), Config { n: 100, steps: 5 });
}

#[test]
fn unknown_words_are_skipped() {
    assert_eq!(
        parse_args(&argv(&["--verbose", "--n", "12", "extra", "--steps", "9", "--N", "3"])),
        Config { n: 12, steps: 9 }
    );
    assert_eq!(parse_args(&argv(&["-n", "12", "--step", "9"])), Config { n: 100, steps: 100 });
}

#[test]
fn program_name_is_never_a_flag() {
    let args: Vec<String> = vec![String::from("--n"), String::from("5")];
    assert_eq!(parse_args(&args), Config { n: 100, steps: 100 });
    let args: Vec<String> = vec![String::from("--n"), String::from("--n"), String::from("5")];
    assert_eq!(parse_args(&args), Config { n: 5, steps: 100 });
}

#[test]
fn zero_counts_are_accepted() {
    assert_eq!(parse_args(&argv(&["--n", "0", "--steps", "0"])), Config { n: 0, steps: 0 });
}

#[test]
fn counts_are_plain_decimal() {
    assert_eq!(parse_count("0"), Some(0));
    assert_eq!(parse_count("7"), Some(7));
    assert_eq!(parse_count("10"), Some(10));
    assert_eq!(parse_count("007"), Some(7));
    assert_eq!(parse_count("+5"), Some(5));
    assert_eq!(parse_count("+0012"), Some(12));
    assert_eq!(parse_count("123456789"), Some(123456789));
}

#[test]
fn what_is_no_count() {
    assert_eq!(parse_count(""), None);
    assert_eq!(parse_count("+"), None);
    assert_eq!(parse_count("-"), None);
    assert_eq!(parse_count("-0"), None);
    assert_eq!(parse_count("-1"), None);
    assert_eq!(parse_count("++1"), None);
    assert_eq!(parse_count("+-1"), None);
    assert_eq!(parse_count("1+"), None);
    assert_eq!(parse_count(" 1"), None);
    assert_eq!(parse_count("1 "), None);
    assert_eq!(parse_count("1_000"), None);
    assert_eq!(parse_count("1e3"), None);
    assert_eq!(parse_count("1.0"), None);
    assert_eq!(parse_count("0x10"), None);
    assert_eq!(parse_count("abc"), None);
    assert_eq!(parse_count("12a"), None);
    assert_eq!(parse_count("\u{0663}"), None);
    assert_eq!(parse_count("\u{ff11}\u{ff12}"), None);
    assert_eq!(parse_count("1\u{00e9}"), None);
}

#[test]
fn largest_count_and_beyond() {
    let largest: String = usize::MAX.to_string();
    assert_eq!(parse_count(&largest), Some(usize::MAX));
    let mut beyond: String = largest.clone();
    beyond.pop();
    let last: u32 = largest.chars().last().unwrap().to_digit(10).unwrap();
    if last < 9 {
        beyond.push(char::from_digit(last + 1, 10).unwrap());
        assert_eq!(parse_count(&beyond), None);
    }
    let longer: String = format!("{}0", largest);
    assert_eq!(parse_count(&longer), None);
    assert_eq!(parse_count("99999999999999999999999999999999999999999"), None);
    assert_eq!(parse_count("99999999999999999999999999999999999999999x"), None);
    let padded: String = format!("000000000000000000000000000000{}", largest);
    assert_eq!(parse_count(&padded), Some(usize::MAX));
}

#[test]
fn counts_agree_with_the_standard_reading() {
    let samples: Vec<&str> = vec![
        "", "+", "-", "0", "00", "+0", "-0", "1", "+1", "-1", "42", "100", "0100", "+0100",
        " 42", "42 ", "4 2", "4_2", "4,2", "4.2", "42u", "u42", "0b1", "0o7", "0xf", "1e2",
        "\u{0661}\u{0662}\u{0663}", "\u{ff14}\u{ff12}", "18446744073709551615", "18446744073709551616", "4294967295", "4294967296",
        "340282366920938463463374607431768211456", "+18446744073709551615", "\t7", "7\n", "\u{0667}",
        "--n", "--steps", "abc",
    ];
    for text in samples {
        let standard: Option<usize> = text.parse::<usize>().ok();
        assert_eq!(parse_count(text), standard, "reading {:?}", text);
    }
}

#[test]
fn printed_counts_are_read_back() {
    let samples: Vec<usize> = vec![0, 1, 9, 10, 11, 99, 100, 101, 1000, 65535, 65536, usize::MAX];
    for count in samples {
        assert_eq!(parse_count(&count.to_string()), Some(count));
    }
}
