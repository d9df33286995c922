//! Run parameters: their defaults, and how they are read from an argument list.
//!
//! An argument list is scanned from its second entry on (the first names the
//! program). `--n <count>` sets the particle count and `--steps <count>` the
//! step count. A count that cannot be read silently gives the default, a flag
//! in last place has no value and is skipped, and every other word is skipped.

use crate::decimal::{
    all_digits, decimal_digits, decimal_value, digit_value, is_digit, lemma_decimal_digits,
    lemma_decimal_value_prefix, lemma_decimal_value_step,
};
use vstd::prelude::*;
use vstd::string::*;

verus! {

/// Particle count used when none is given or the given one cannot be read.
pub const DEFAULT_PARTICLES: usize = 100;

/// Step count used when none is given or the given one cannot be read.
pub const DEFAULT_STEPS: usize = 100;

/// Seed of the pseudo-random stream from which the initial state is drawn.
pub const SEED: u64 = 42;

/// The time increment of one step is `1 / STEPS_PER_TIME_UNIT`.
pub const STEPS_PER_TIME_UNIT: u32 = 100;

/// The softening term added to every squared distance is `1 / SOFTENING_INVERSE`.
pub const SOFTENING_INVERSE: u32 = 1_000_000_000;

/// The parameters of one run.
#[derive(Clone, Copy, Debug, PartialEq, Eq, Structural)]
pub struct Config {
    /// Number of particles.
    pub n: usize,
    /// Number of integration steps.
    pub steps: usize,
}

/// The word that announces a particle count: `--n`.
pub open spec fn particles_flag() -> Seq<char> {
    seq!['-', '-', 'n']
}

/// The word that announces a step count: `--steps`.
pub open spec fn steps_flag() -> Seq<char> {
    seq!['-', '-', 's', 't', 'e', 'p', 's']
}

/// `s` without one leading `+`, if it has one.
pub open spec fn without_plus(s: Seq<char>) -> Seq<char> {
    if s.len() > 0 && s[0] == '+' {
        s.skip(1)
    } else {
        s
    }
}

/// The count that `s` denotes: an optional `+`, then one or more decimal digits
/// and nothing else, whose value fits the machine word. Anything else, the
/// empty string and a lone `+` included, denotes no count.
pub open spec fn spec_parse_count(s: Seq<char>) -> Option<usize> {
    let digits = without_plus(s);
    if digits.len() > 0 && all_digits(digits) && decimal_value(digits) <= usize::MAX {
        Some(decimal_value(digits) as usize)
    } else {
        None
    }
}

/// The count that `s` denotes, or `default` where it denotes none.
pub open spec fn count_or(s: Seq<char>, default: usize) -> usize {
    match spec_parse_count(s) {
        Some(count) => count,
        None => default,
    }
}

/// The configuration after scanning `args` from position `i` on, having
/// gathered `so_far` from the positions before it.
pub open spec fn scan_from(args: Seq<Seq<char>>, i: int, so_far: Config) -> Config
    decreases args.len() - i,
{
    if i < 0 || i >= args.len() {
        so_far
    } else if args[i] == particles_flag() && i + 1 < args.len() {
        scan_from(
            args,
            i + 2,
            Config { n: count_or(args[i + 1], DEFAULT_PARTICLES), steps: so_far.steps },
        )
    } else if args[i] == steps_flag() && i + 1 < args.len() {
        scan_from(
            args,
            i + 2,
            Config { n: so_far.n, steps: count_or(args[i + 1], DEFAULT_STEPS) },
        )
    } else {
        scan_from(args, i + 1, so_far)
    }
}

/// The configuration that an argument list asks for.
pub open spec fn spec_parse_args(args: Seq<Seq<char>>) -> Config {
    scan_from(args, 1, Config::spec_fallback())
}

/// A count that cannot be read changes nothing: asking for it gives what not
/// asking gives, the default.
pub proof fn lemma_unreadable_count(program: Seq<char>, value: Seq<char>)
    requires
        spec_parse_count(value) is None,
    ensures
        spec_parse_args(seq![program]) == Config::spec_fallback(),
        spec_parse_args(seq![program, particles_flag(), value]) == spec_parse_args(seq![program]),
        spec_parse_args(seq![program, steps_flag(), value]) == spec_parse_args(seq![program]),
{
    reveal_with_fuel(scan_from, 3);
    assert(particles_flag().len() != steps_flag().len());
}

/// A count that can be read is taken, and the other parameter keeps its
/// default.
pub proof fn lemma_readable_count(program: Seq<char>, value: Seq<char>)
    requires
        spec_parse_count(value) is Some,
    ensures
        spec_parse_args(seq![program, particles_flag(), value]) == (Config {
            n: spec_parse_count(value)->0,
            steps: DEFAULT_STEPS,
        }),
        spec_parse_args(seq![program, steps_flag(), value]) == (Config {
            n: DEFAULT_PARTICLES,
            steps: spec_parse_count(value)->0,
        }),
{
    reveal_with_fuel(scan_from, 3);
    assert(particles_flag().len() != steps_flag().len());
}

/// A flag in last place has no value and changes nothing.
pub proof fn lemma_flag_without_value(program: Seq<char>, flag: Seq<char>)
    ensures
        spec_parse_args(seq![program, flag]) == Config::spec_fallback(),
{
    reveal_with_fuel(scan_from, 3);
}

/// The decimal notation of a count is read back as that count.
pub proof fn lemma_count_round_trip(count: usize)
    ensures
        spec_parse_count(decimal_digits(count as nat)) == Some(count),
{
    lemma_decimal_digits(count as nat);
    assert(is_digit(decimal_digits(count as nat)[0]));
}

impl Config {
    /// The configuration of a run for which nothing was asked.
    pub open spec fn spec_fallback() -> Config {
        Config { n: DEFAULT_PARTICLES, steps: DEFAULT_STEPS }
    }

    /// The configuration of a run for which nothing was asked.
    pub fn fallback() -> (c: Config)
        ensures
            c == Config::spec_fallback(),
    {
        Config { n: DEFAULT_PARTICLES, steps: DEFAULT_STEPS }
    }
}

/// Reads a count: an optional `+` followed by decimal digits only. Returns
/// `None` for every other text and for a number too large for the machine word.
pub fn parse_count(text: &str) -> (r: Option<usize>)
    ensures
        r == spec_parse_count(text@),
{
    broadcast use is_ascii_spec_bytes;

    let ghost digits = without_plus(text@);
    if !text.is_ascii() {
        proof {
            if all_digits(digits) {
                assert forall|i: int| 0 <= i < text@.len() implies '\0' <= #[trigger] text@[i]
                    <= '\u{7f}' by {
                    if digits.len() < text@.len() {
                        if i > 0 {
                            assert(is_digit(digits[i - 1]));
                        }
                    } else {
                        assert(is_digit(digits[i]));
                    }
                }
            }
        }
        return None;
    }
    let bytes = text.as_bytes();
    let len = bytes.len();
    let start: usize = if len > 0 && bytes[0] == 43u8 {
        1
    } else {
        0
    };
    assert(digits =~= text@.skip(start as int));
    if start == len {
        return None;
    }
    let mut value: usize = 0;
    let mut i: usize = start;
    assert(digits.take(0) =~= Seq::<char>::empty());
    while i < len
        invariant
            text.is_ascii(),
            bytes@ == text.spec_bytes(),
            len == bytes@.len(),
            len == text@.len(),
            digits == without_plus(text@),
            digits == text@.skip(start as int),
            start <= i <= len,
            all_digits(digits.take(i - start)),
            value == decimal_value(digits.take(i - start)),
        decreases len - i,
    {
        let byte = bytes[i];
        let ghost k = i - start;
        assert(digits[k] == text@[i as int]);
        assert(byte == text@[i as int] as u8);
        if byte < 48u8 || byte > 57u8 {
            assert(!is_digit(digits[k]));
            return None;
        }
        assert(is_digit(digits[k]));
        assert(digit_value(digits[k]) == byte - 48);
        proof {
            lemma_decimal_value_step(digits, k);
            lemma_decimal_value_prefix(digits, k + 1);
        }
        let digit: usize = (byte - 48u8) as usize;
        let shifted = match value.checked_mul(10) {
            Some(shifted) => shifted,
            None => {
                return None;
            },
        };
        value = match shifted.checked_add(digit) {
            Some(sum) => sum,
            None => {
                return None;
            },
        };
        i += 1;
        proof {
            assert forall|j: int| 0 <= j < digits.take(i - start).len() implies is_digit(
                #[trigger] digits.take(i - start)[j],
            ) by {
                if j < k {
                    assert(digits.take(k)[j] == digits[j]);
                }
            }
        }
    }
    assert(digits.take(len - start) =~= digits);
    Some(value)
}

/// Scans a process's argument list (`args[0]` names the program) and returns
/// the configuration it asks for. Never fails: what cannot be read is skipped
/// or replaced by its default.
pub fn parse_args(args: &Vec<String>) -> (c: Config)
    ensures
        c == spec_parse_args(args.deep_view()),
{
    let particles = String::from_str("--n");
    let steps = String::from_str("--steps");
    proof {
        reveal_strlit("--n");
        reveal_strlit("--steps");
        assert(particles@ =~= particles_flag());
        assert(steps@ =~= steps_flag());
    }
    let ghost texts = args.deep_view();
    let mut config = Config::fallback();
    let mut i: usize = 1;
    while i < args.len()
        invariant
            texts == args.deep_view(),
            particles@ == particles_flag(),
            steps@ == steps_flag(),
            1 <= i,
            scan_from(texts, i as int, config) == spec_parse_args(texts),
        decreases args.len() - i,
    {
        assert(texts[i as int] == args[i as int]@);
        if args[i] == particles && i + 1 < args.len() {
            assert(texts[i + 1] == args[i + 1]@);
            config.n =
            match parse_count(args[i + 1].as_str()) {
                Some(count) => count,
                None => DEFAULT_PARTICLES,
            };
            i += 2;
        } else if args[i] == steps && i + 1 < args.len() {
            assert(texts[i + 1] == args[i + 1]@);
            config.steps =
            match parse_count(args[i + 1].as_str()) {
                Some(count) => count,
                None => DEFAULT_STEPS,
            };
            i += 2;
        } else {
            i += 1;
        }
    }
    config
}

} // verus!
