//! The lines a run prints: a banner before it starts, then the elapsed time,
//! once for a reader and once for a program that harvests results.
//!
//! Elapsed time is taken in whole nanoseconds and printed in seconds with four
//! decimal places, rounded to the nearest ten-thousandth; a time that lies
//! exactly between two ten-thousandths goes to the even one.

use crate::decimal::{
    all_digits, decimal_digits, digit_char, lemma_decimal_digits, push_decimal, push_digit,
};
use vstd::prelude::*;
use vstd::string::*;

verus! {

/// Nanoseconds in one ten-thousandth of a second.
pub const NANOS_PER_TICK: u128 = 100_000;

/// Ten-thousandths in one second.
pub const TICKS_PER_SECOND: u128 = 10_000;

/// `nanos` nanoseconds in ten-thousandths of a second, rounded to the nearest
/// one, and to the even one where two are equally near.
pub open spec fn ticks(nanos: nat) -> nat {
    let whole = nanos / 100_000;
    let part = nanos % 100_000;
    if part > 50_000 || (part == 50_000 && whole % 2 == 1) {
        whole + 1
    } else {
        whole
    }
}

/// The four decimal places of a number of ten-thousandths.
pub open spec fn fraction_digits(ticks: nat) -> Seq<char> {
    seq![
        digit_char(ticks / 1000 % 10),
        digit_char(ticks / 100 % 10),
        digit_char(ticks / 10 % 10),
        digit_char(ticks % 10),
    ]
}

/// `nanos` nanoseconds as seconds with four decimal places: the whole seconds
/// in decimal notation, a point, and four digits.
pub open spec fn seconds_text(nanos: nat) -> Seq<char> {
    decimal_digits(ticks(nanos) / 10_000) + seq!['.'] + fraction_digits(ticks(nanos))
}

/// The banner of a run of `steps` steps on `n` particles.
pub open spec fn banner_text(n: nat, steps: nat) -> Seq<char> {
    "Running Native Rust N-body with N="@ + decimal_digits(n) + ", Steps="@
        + decimal_digits(steps)
}

/// The line that tells a reader the elapsed time.
pub open spec fn elapsed_text(nanos: nat) -> Seq<char> {
    "Time: "@ + seconds_text(nanos) + " seconds"@
}

/// The line that tells a harvesting program the elapsed time.
pub open spec fn result_text(nanos: nat) -> Seq<char> {
    "RESULT: "@ + seconds_text(nanos)
}

/// The printed time is the ten-thousandth nearest to the measured one: they
/// differ by at most half a ten-thousandth of a second.
pub proof fn lemma_ticks_nearest(nanos: nat)
    ensures
        ticks(nanos) * 100_000 - 50_000 <= nanos <= ticks(nanos) * 100_000 + 50_000,
{
}

/// The shape of a printed time: one or more digits, a point, and exactly four
/// digits.
pub proof fn lemma_seconds_text_shape(nanos: nat)
    ensures
        ({
            let text = seconds_text(nanos);
            let point = text.len() - 5;
            &&& point >= 1
            &&& all_digits(text.subrange(0, point))
            &&& text[point] == '.'
            &&& all_digits(text.subrange(point + 1, text.len() as int))
        }),
{
    let whole = decimal_digits(ticks(nanos) / 10_000);
    let fraction = fraction_digits(ticks(nanos));
    let text = seconds_text(nanos);
    lemma_decimal_digits(ticks(nanos) / 10_000);
    assert(text.subrange(0, whole.len() as int) =~= whole);
    assert(text.subrange(whole.len() as int + 1, text.len() as int) =~= fraction);
}

/// Rounds `nanos` nanoseconds to ten-thousandths of a second.
pub fn round_to_ticks(nanos: u128) -> (t: u128)
    ensures
        t == ticks(nanos as nat),
{
    let whole = nanos / NANOS_PER_TICK;
    let part = nanos % NANOS_PER_TICK;
    if part > 50_000 || (part == 50_000 && whole % 2 == 1) {
        whole + 1
    } else {
        whole
    }
}

/// Appends `nanos` nanoseconds, as seconds with four decimal places, to `out`.
pub fn push_seconds(out: &mut String, nanos: u128)
    ensures
        final(out)@ == old(out)@ + seconds_text(nanos as nat),
{
    let t = round_to_ticks(nanos);
    push_decimal(out, t / TICKS_PER_SECOND);
    out.append(".");
    push_digit(out, (t / 1000 % 10) as u8);
    push_digit(out, (t / 100 % 10) as u8);
    push_digit(out, (t / 10 % 10) as u8);
    push_digit(out, (t % 10) as u8);
    proof {
        reveal_strlit(".");
        assert("."@ =~= seq!['.']);
        assert(out@ =~= old(out)@ + seconds_text(nanos as nat));
    }
}

/// The banner of a run of `steps` steps on `n` particles.
pub fn banner(n: usize, steps: usize) -> (line: String)
    ensures
        line@ == banner_text(n as nat, steps as nat),
{
    let mut line = String::from_str("Running Native Rust N-body with N=");
    push_decimal(&mut line, n as u128);
    line.append(", Steps=");
    push_decimal(&mut line, steps as u128);
    line
}

/// The line that tells a reader that the steps took `nanos` nanoseconds.
pub fn elapsed_line(nanos: u128) -> (line: String)
    ensures
        line@ == elapsed_text(nanos as nat),
{
    let mut line = String::from_str("Time: ");
    push_seconds(&mut line, nanos);
    line.append(" seconds");
    line
}

/// The line that tells a harvesting program that the steps took `nanos`
/// nanoseconds.
pub fn result_line(nanos: u128) -> (line: String)
    ensures
        line@ == result_text(nanos as nat),
{
    let mut line = String::from_str("RESULT: ");
    push_seconds(&mut line, nanos);
    line
}

} // verus!
