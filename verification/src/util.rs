//! Time arithmetic and the text of a pass's time span.

use vstd::prelude::*;
use vstd::string::*;

verus! {

/// The most seconds, in either direction, that a `chrono::TimeDelta` holds:
/// `i64::MAX / 1000`.
pub const MAX_DELTA_SECONDS: i64 = 9_223_372_036_854_775;

/// Two instants closer than this many seconds are the same instant to the
/// notification history.
pub const TOLERANCE_SECONDS: i64 = 10;

/// `chrono::TimeDelta`, of which only the whole seconds are spoken of.
#[verifier::external_type_specification]
#[verifier::external_body]
pub struct ExTimeDelta(chrono::TimeDelta);

/// The whole seconds that a time delta spans.
pub uninterp spec fn delta_seconds(delta: chrono::TimeDelta) -> int;

/// `numerator / denominator` as Rust divides machine integers: rounded toward zero.
pub open spec fn truncating_div(numerator: int, denominator: int) -> int
    recommends
        denominator > 0,
{
    if numerator >= 0 {
        numerator / denominator
    } else {
        -((-numerator) / denominator)
    }
}

/// `chrono::TimeDelta::seconds`: the delta of that many whole seconds. It
/// panics past `i64::MAX / 1000` seconds in either direction, which the
/// precondition leaves out.
pub assume_specification[ chrono::TimeDelta::seconds ](seconds: i64) -> (delta: chrono::TimeDelta)
    requires
        -MAX_DELTA_SECONDS <= seconds <= MAX_DELTA_SECONDS,
    ensures
        delta_seconds(delta) == seconds,
;

/// `chrono::TimeDelta::num_seconds`: the whole seconds in the delta.
pub assume_specification[ chrono::TimeDelta::num_seconds ](delta: &chrono::TimeDelta) -> (seconds: i64)
    ensures
        seconds == delta_seconds(*delta),
;

/// `chrono::TimeDelta::num_minutes`: the whole seconds divided by 60, rounded toward zero.
pub assume_specification[ chrono::TimeDelta::num_minutes ](delta: &chrono::TimeDelta) -> (minutes: i64)
    ensures
        minutes == truncating_div(delta_seconds(*delta), 60),
;

/// `chrono::TimeDelta::num_hours`: the whole seconds divided by 3600, rounded toward zero.
pub assume_specification[ chrono::TimeDelta::num_hours ](delta: &chrono::TimeDelta) -> (hours: i64)
    ensures
        hours == truncating_div(delta_seconds(*delta), 3600),
;

/// `chrono::TimeDelta::num_days`: the whole seconds divided by 86400, rounded toward zero.
pub assume_specification[ chrono::TimeDelta::num_days ](delta: &chrono::TimeDelta) -> (days: i64)
    ensures
        days == truncating_div(delta_seconds(*delta), 86_400),
;

/// `chrono::Utc::now` and `DateTime::timestamp`: the seconds that the
/// machine's clock counts since the Unix epoch. Nothing is claimed of them.
/// A clock that stands before the epoch makes `chrono` panic.
#[verifier::external_body]
pub fn current_utc() -> i64 {
    chrono::Utc::now().timestamp()
}

/// The character of one decimal digit.
pub open spec fn digit_char(digit: nat) -> char
    recommends
        digit < 10,
{
    if digit == 0 {
        '0'
    } else if digit == 1 {
        '1'
    } else if digit == 2 {
        '2'
    } else if digit == 3 {
        '3'
    } else if digit == 4 {
        '4'
    } else if digit == 5 {
        '5'
    } else if digit == 6 {
        '6'
    } else if digit == 7 {
        '7'
    } else if digit == 8 {
        '8'
    } else {
        '9'
    }
}

/// The decimal digits of a natural number, without leading zeros.
pub open spec fn decimal_digits(n: nat) -> Seq<char>
    decreases n,
{
    if n < 10 {
        seq![digit_char(n)]
    } else {
        decimal_digits(n / 10).push(digit_char(n % 10))
    }
}

/// An integer in decimal, with a minus sign in front of a negative one.
pub open spec fn decimal(n: int) -> Seq<char> {
    if n < 0 {
        seq!['-'] + decimal_digits((-n) as nat)
    } else {
        decimal_digits(n as nat)
    }
}

/// The text of one decimal digit.
fn digit_str(digit: u32) -> (text: &'static str)
    requires
        digit < 10,
    ensures
        text@ == seq![digit_char(digit as nat)],
{
    proof {
        reveal_strlit("0");
        reveal_strlit("1");
        reveal_strlit("2");
        reveal_strlit("3");
        reveal_strlit("4");
        reveal_strlit("5");
        reveal_strlit("6");
        reveal_strlit("7");
        reveal_strlit("8");
        reveal_strlit("9");
    }
    let text = if digit == 0 {
        "0"
    } else if digit == 1 {
        "1"
    } else if digit == 2 {
        "2"
    } else if digit == 3 {
        "3"
    } else if digit == 4 {
        "4"
    } else if digit == 5 {
        "5"
    } else if digit == 6 {
        "6"
    } else if digit == 7 {
        "7"
    } else if digit == 8 {
        "8"
    } else {
        "9"
    };
    text
}

/// A natural number in decimal, without leading zeros.
pub fn u64_to_string(n: u64) -> (text: String)
    ensures
        text@ == decimal(n as int),
    decreases n,
{
    if n < 10 {
        String::from_str(digit_str(n as u32))
    } else {
        let mut text = u64_to_string(n / 10);
        text.append(digit_str((n % 10) as u32));
        text
    }
}

/// A natural number in decimal.
pub fn usize_to_string(n: usize) -> (text: String)
    ensures
        text@ == decimal(n as int),
{
    u64_to_string(n as u64)
}

/// An integer in decimal, with a minus sign in front of a negative one.
pub fn i64_to_string(n: i64) -> (text: String)
    ensures
        text@ == decimal(n as int),
{
    if n < 0 {
        let magnitude: u64 = (-(n + 1)) as u64 + 1;
        let mut text = String::from_str("-");
        text.append(u64_to_string(magnitude).as_str());
        proof {
            reveal_strlit("-");
        }
        text
    } else {
        u64_to_string(n as u64)
    }
}

/// The last `width` decimal digits of `n`, with zeros in front where `n` has fewer.
pub open spec fn padded_digits(n: nat, width: nat) -> Seq<char>
    decreases width,
{
    if width == 0 {
        Seq::empty()
    } else {
        padded_digits(n / 10, (width - 1) as nat).push(digit_char(n % 10))
    }
}

/// The digits behind the decimal point of a fraction of `width` digits,
/// without the zeros at the end; nothing for a fraction of zero.
pub open spec fn fraction_digits(fraction: nat, width: nat) -> Seq<char>
    decreases width,
{
    if width == 0 || fraction == 0 {
        Seq::empty()
    } else if fraction % 10 == 0 {
        fraction_digits(fraction / 10, (width - 1) as nat)
    } else {
        padded_digits(fraction, width)
    }
}

/// A count of units, of which `scale` make one, as a decimal number:
/// `scale` is ten to the power of `width`. A whole number has no decimal
/// point, and no zeros stand at the end of a fraction.
pub open spec fn fixed_point_text(units: int, scale: int, width: nat) -> Seq<char>
    recommends
        scale > 0,
{
    let magnitude = if units < 0 {
        -units
    } else {
        units
    };
    let sign = if units < 0 {
        seq!['-']
    } else {
        Seq::empty()
    };
    let fraction = if magnitude % scale == 0 {
        Seq::empty()
    } else {
        seq!['.'] + fraction_digits((magnitude % scale) as nat, width)
    };
    sign + decimal_digits((magnitude / scale) as nat) + fraction
}

/// Millionths of a degree, written in degrees.
pub open spec fn degrees_text(units: int) -> Seq<char> {
    fixed_point_text(units, 1_000_000, 6)
}

/// Millimetres, written in metres.
pub open spec fn metres_text(units: int) -> Seq<char> {
    fixed_point_text(units, 1_000, 3)
}

/// Appends the last `width` decimal digits of `n`.
fn append_padded(text: &mut String, n: u32, width: u32)
    ensures
        final(text)@ == old(text)@ + padded_digits(n as nat, width as nat),
    decreases width,
{
    if width > 0 {
        append_padded(text, n / 10, width - 1);
        text.append(digit_str(n % 10));
    }
}

/// Appends the digits behind the decimal point of a fraction of `width` digits.
fn append_fraction(text: &mut String, fraction: u32, width: u32)
    ensures
        final(text)@ == old(text)@ + fraction_digits(fraction as nat, width as nat),
    decreases width,
{
    if width > 0 && fraction != 0 {
        if fraction % 10 == 0 {
            append_fraction(text, fraction / 10, width - 1);
        } else {
            append_padded(text, fraction, width);
        }
    }
}

/// A count of units as a decimal number.
fn fixed_point_string(units: i64, scale: u32, width: u32) -> (text: String)
    requires
        scale > 0,
    ensures
        text@ == fixed_point_text(units as int, scale as int, width as nat),
{
    let magnitude: u64 = if units < 0 {
        (-(units + 1)) as u64 + 1
    } else {
        units as u64
    };
    let mut text = if units < 0 {
        String::from_str("-")
    } else {
        String::new()
    };
    proof {
        reveal_strlit("-");
        reveal_strlit(".");
    }
    let whole: u64 = magnitude / (scale as u64);
    let fraction: u32 = (magnitude % (scale as u64)) as u32;
    text.append(u64_to_string(whole).as_str());
    if fraction != 0 {
        text.append(".");
        append_fraction(&mut text, fraction, width);
    }
    text
}

/// Millionths of a degree, written in degrees.
pub fn degrees_to_string(units: i64) -> (text: String)
    ensures
        text@ == degrees_text(units as int),
{
    fixed_point_string(units, 1_000_000, 6)
}

/// Millimetres, written in metres.
pub fn metres_to_string(units: i64) -> (text: String)
    ensures
        text@ == metres_text(units as int),
{
    fixed_point_string(units, 1_000, 3)
}

/// The whole minutes in `seconds` beyond its whole hours.
pub open spec fn minutes_past_hour(seconds: int) -> int {
    truncating_div(seconds, 60) - 60 * truncating_div(seconds, 3600)
}

/// The seconds in `seconds` beyond its whole minutes.
pub open spec fn seconds_past_minute(seconds: int) -> int {
    seconds - 60 * truncating_div(seconds, 60)
}

/// How a span of `seconds` is written: its minutes past the hour and its
/// seconds past the minute. Whole hours are not shown.
pub open spec fn duration_text(seconds: int) -> Seq<char> {
    decimal(minutes_past_hour(seconds)) + "m "@ + decimal(seconds_past_minute(seconds)) + "s"@
}

/// How the span from `start` to `end` is written for the chat platform: two
/// timestamp markers and the duration.
pub open spec fn pass_time_text(start: int, end: int) -> Seq<char> {
    "<t:"@ + decimal(start) + "> - <t:"@ + decimal(end) + ":t> ("@ + duration_text(end - start)
        + ")"@
}

/// Whether the span from `a` to `b` is one that a time delta holds.
pub open spec fn spans_a_delta(a: int, b: int) -> bool {
    -MAX_DELTA_SECONDS <= b - a <= MAX_DELTA_SECONDS
}

/// The text of the time span of a pass.
pub fn format_pass_time(start: i64, end: i64) -> (text: String)
    requires
        spans_a_delta(start as int, end as int),
    ensures
        text@ == pass_time_text(start as int, end as int),
{
    let mut text = String::from_str("<t:");
    text.append(i64_to_string(start).as_str());
    text.append("> - <t:");
    text.append(i64_to_string(end).as_str());
    text.append(":t> (");
    text.append(duration_between(start, end).as_str());
    text.append(")");
    text
}

/// The duration from `a` to `b`, as minutes past the hour and seconds past
/// the minute.
pub fn duration_between(a: i64, b: i64) -> (text: String)
    requires
        spans_a_delta(a as int, b as int),
    ensures
        text@ == duration_text(b - a),
{
    let duration = chrono::TimeDelta::seconds(b - a);
    let days: i64 = duration.num_days();
    let hours: i64 = duration.num_hours() - days * 24;
    let minutes: i64 = duration.num_minutes() - days * 24 * 60 - hours * 60;
    let seconds: i64 = duration.num_seconds() - days * 24 * 60 * 60 - hours * 60 * 60
        - minutes * 60;
    let mut text = i64_to_string(minutes);
    text.append("m ");
    text.append(i64_to_string(seconds).as_str());
    text.append("s");
    text
}

/// Whether `a` and `b` lie less than ten seconds apart.
pub fn are_within_10_seconds(a: i64, b: i64) -> (within: bool)
    requires
        spans_a_delta(a as int, b as int),
    ensures
        within == (-TOLERANCE_SECONDS < b - a < TOLERANCE_SECONDS),
{
    let duration = chrono::TimeDelta::seconds(b - a);
    let seconds: i64 = duration.num_seconds();
    -10 < seconds && seconds < 10
}

} // verus!
