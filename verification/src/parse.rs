//! Durations written for people, such as `1m30s` or `2h5m`.

use vstd::prelude::*;
use crate::duration::{Duration, NANOS_PER_SEC};

verus! {

/// What `humantime::parse_duration` gives for a text: the whole seconds and the
/// nanoseconds of the span, or the text of its error.
pub uninterp spec fn humantime_duration(input: Seq<char>) -> Result<(u64, u32), Seq<char>>;

/// The most significant digits a text may hold for the parser to be called on it.
pub const MAX_SIGNIFICANT_DIGITS: usize = 11;

/// An ASCII digit.
pub open spec fn is_digit(c: char) -> bool {
    '0' <= c && c <= '9'
}

/// A character that no number of the parser reads across: an ASCII letter
/// (a unit) or `.` (the start of a fraction).
pub open spec fn ends_number(c: char) -> bool {
    ('a' <= c && c <= 'z') || ('A' <= c && c <= 'Z') || c == '.'
}

/// The significant digits of `s`, read from the state `started` (a non-zero
/// digit was seen since the last character that ends a number): every digit
/// but the zeros that lead a number.
pub open spec fn significant_digits_from(s: Seq<char>, started: bool) -> nat
    decreases s.len(),
{
    if s.len() == 0 {
        0
    } else if is_digit(s[0]) {
        if started || s[0] != '0' {
            1 + significant_digits_from(s.skip(1), true)
        } else {
            significant_digits_from(s.skip(1), false)
        }
    } else if ends_number(s[0]) {
        significant_digits_from(s.skip(1), false)
    } else {
        significant_digits_from(s.skip(1), started)
    }
}

/// The significant digits of a text: its digits, less the zeros that lead a
/// number.
pub open spec fn significant_digits(s: Seq<char>) -> nat {
    significant_digits_from(s, false)
}

/// Calls `humantime::parse_duration` and hands back the span as whole seconds
/// and nanoseconds, or the error as its message. The contract claims that the
/// result depends on the text alone, and that the nanoseconds are below one
/// second (`Duration::subsec_nanos` documents that).
///
/// The parser panics, inside `std::time::Duration::new`, only when the parts of
/// a text add up to `u64::MAX` seconds and one further second of nanoseconds;
/// every other overflow is an error. The parser reads a number from digits,
/// skipping whitespace between them, and ends it at a letter (its unit) or at
/// `.` (its fraction); so all digits of one number stand between two such
/// characters, and a number is below `10^k` for its `k` significant digits. A
/// unit multiplies a number by at most 31_557_600 seconds (a year), and a
/// fraction adds less than one unit, so a span with `k` significant digits in
/// its number and fraction adds at most `10^k` years, and a span with none adds
/// nothing. A text with at most `MAX_SIGNIFICANT_DIGITS` significant digits thus
/// describes less than `10^11 * 31_557_600 < 2^62` seconds in all, and the
/// `requires` keeps the call away from the panic.
#[verifier::external_body]
fn humantime_parse(input: &str) -> (r: Result<(u64, u32), String>)
    requires
        significant_digits(input@) <= MAX_SIGNIFICANT_DIGITS,
    ensures
        parsed_view(r) == humantime_duration(input@),
        r matches Ok(p) ==> p.1 < NANOS_PER_SEC,
{
    match humantime::parse_duration(input) {
        Ok(d) => Ok((d.as_secs(), d.subsec_nanos())),
        Err(e) => Err(e.to_string()),
    }
}

/// The outcome of reading `input` as a duration, given what the parser made of
/// it: the span in nanoseconds, or the message that rejects the text.
pub open spec fn reading_outcome(input: Seq<char>, parsed: Result<(u64, u32), Seq<char>>) -> Result<
    nat,
    Seq<char>,
> {
    match parsed {
        Ok((secs, nanos)) => Ok((secs * (NANOS_PER_SEC as nat) + nanos) as nat),
        Err(msg) => Err("Invalid duration '"@ + input + "': "@ + msg),
    }
}

/// The view of a reading's result.
pub open spec fn reading_view(r: Result<Duration, String>) -> Result<nat, Seq<char>> {
    match r {
        Ok(d) => Ok(d@),
        Err(e) => Err(e@),
    }
}

/// The parts of a string view.
pub open spec fn parsed_view(p: Result<(u64, u32), String>) -> Result<(u64, u32), Seq<char>> {
    match p {
        Ok(v) => Ok(v),
        Err(e) => Err(e@),
    }
}

/// The duration that the parser's result describes, or the message that names
/// the rejected text and the parser's reason.
pub fn duration_from_parse(input: &str, parsed: Result<(u64, u32), String>) -> (r: Result<
    Duration,
    String,
>)
    requires
        parsed matches Ok(p) ==> p.1 < NANOS_PER_SEC,
    ensures
        reading_view(r) == reading_outcome(input@, parsed_view(parsed)),
{
    match parsed {
        Ok((secs, nanos)) => Ok(Duration::new(secs, nanos)),
        Err(msg) => {
            let mut text = String::from_str("Invalid duration '");
            text.append(input);
            text.append("': ");
            text.append(msg.as_str());
            Err(text)
        },
    }
}

/// Reads a duration written for people, such as `1m30s`, `2h5m` or `4.2s`.
pub fn parse_human_duration(input: &str) -> (r: Result<Duration, String>)
    requires
        significant_digits(input@) <= MAX_SIGNIFICANT_DIGITS,
    ensures
        reading_view(r) == reading_outcome(input@, humantime_duration(input@)),
{
    let parsed = humantime_parse(input);
    duration_from_parse(input, parsed)
}

/// The significant digits of `s`: its digits, less the zeros that lead a
/// number.
pub fn count_significant_digits(s: &str) -> (n: usize)
    ensures
        n == significant_digits(s@),
{
    let len = s.unicode_len();
    let mut n: usize = 0;
    let mut started = false;
    let mut i: usize = 0;
    assert(s@.skip(0) == s@);
    while i < len
        invariant
            i <= len,
            len == s@.len(),
            n + significant_digits_from(s@.skip(i as int), started) == significant_digits(s@),
            n <= i,
        decreases len - i,
    {
        let c = s.get_char(i);
        assert(s@.skip(i as int).skip(1) == s@.skip(i + 1));
        assert(s@.skip(i as int)[0] == c);
        if '0' <= c && c <= '9' {
            if started || c != '0' {
                n = n + 1;
                started = true;
            }
        } else if ('a' <= c && c <= 'z') || ('A' <= c && c <= 'Z') || c == '.' {
            started = false;
        }
        i = i + 1;
    }
    n
}

/// Reads a duration written for people when the text holds at most
/// `MAX_SIGNIFICANT_DIGITS` significant digits, and gives `None`, without
/// reading it, otherwise.
pub fn read_human_duration(input: &str) -> (r: Option<Result<Duration, String>>)
    ensures
        r is None <==> significant_digits(input@) > MAX_SIGNIFICANT_DIGITS,
        r matches Some(res) ==> reading_view(res) == reading_outcome(
            input@,
            humantime_duration(input@),
        ),
{
    if count_significant_digits(input) > MAX_SIGNIFICANT_DIGITS {
        None
    } else {
        Some(parse_human_duration(input))
    }
}

} // verus!
