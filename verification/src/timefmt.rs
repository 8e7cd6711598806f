//! Fixed-width time strings: `H:MM:SS`, `MM:SS`, `NNs` and `Ns`, with leading
//! zero groups blanked out so that the strings keep their width.

use vstd::prelude::*;
use crate::duration::{Duration, whole_secs};
use crate::text::{
    decimal,
    pad_left,
    digit_char,
    repeat_seq,
    decimal_string,
    pad_left_str,
    lemma_pad_left_len,
};
use crate::escape::free_of;

verus! {

/// The number of decimal digits of `n`.
pub open spec fn num_digits(n: nat) -> nat {
    decimal(n).len()
}

/// `10` raised to `k`.
pub open spec fn pow10(k: nat) -> nat
    decreases k,
{
    if k == 0 {
        1
    } else {
        10 * pow10((k - 1) as nat)
    }
}

pub proof fn lemma_num_digits_step(n: nat)
    ensures
        n >= 10 ==> num_digits(n) == num_digits(n / 10) + 1,
        n < 10 ==> num_digits(n) == 1,
        num_digits(n) >= 1,
    decreases n,
{
    if n >= 10 {
        lemma_num_digits_step(n / 10);
    }
}

pub proof fn lemma_num_digits_below_pow(n: nat, k: nat)
    requires
        k >= 1,
        n < pow10(k),
    ensures
        num_digits(n) <= k,
    decreases k,
{
    lemma_num_digits_step(n);
    if n >= 10 {
        assert(k >= 2) by {
            if k == 1 {
                assert(pow10(1) == 10) by {
                    reveal_with_fuel(pow10, 2);
                }
            }
        }
        assert(n / 10 < pow10((k - 1) as nat));
        lemma_num_digits_below_pow(n / 10, (k - 1) as nat);
    }
}

pub proof fn lemma_num_digits_u64(n: nat)
    requires
        n <= u64::MAX,
    ensures
        num_digits(n) <= 20,
{
    assert(pow10(20) == 100000000000000000000) by {
        reveal_with_fuel(pow10, 21);
    }
    lemma_num_digits_below_pow(n, 20);
}

/// The width of the hour field for a timer of `total_secs` seconds: the digits of
/// its hours, at least two.
pub open spec fn hour_digits_of(total_secs: nat) -> nat {
    let h = total_secs / 3600;
    if num_digits(h) < 2 {
        2
    } else {
        num_digits(h)
    }
}

/// The width of every time string of a timer of `total_secs` seconds.
pub open spec fn display_width_of(total_secs: nat) -> nat {
    if total_secs >= 3600 {
        hour_digits_of(total_secs) + 6
    } else if total_secs >= 60 {
        5
    } else if total_secs >= 10 {
        3
    } else {
        2
    }
}

/// Leading `00:` groups become three spaces each; then a single leading zero
/// that stands before a digit becomes a space.
pub open spec fn prettify(s: Seq<char>) -> Seq<char>
    decreases s.len(),
{
    if s.len() >= 3 && s[0] == '0' && s[1] == '0' && s[2] == ':' {
        seq![' ', ' ', ' '] + prettify(s.skip(3))
    } else if s.len() >= 2 && s[0] == '0' && is_ascii_digit(s[1]) {
        seq![' '] + s.skip(1)
    } else {
        s
    }
}

pub open spec fn is_ascii_digit(c: char) -> bool {
    '0' <= c && c <= '9'
}

/// Two digits, zero-filled.
pub open spec fn two_digits(n: nat) -> Seq<char> {
    pad_left(decimal(n), 2, '0')
}

/// The time string of a span of `secs` whole seconds in a timer of `total_secs`
/// seconds: the layout follows the total, the values follow the span.
pub open spec fn fixed_text(secs: nat, total_secs: nat) -> Seq<char> {
    let h = secs / 3600;
    let m = (secs % 3600) / 60;
    let s = secs % 60;
    if total_secs >= 3600 {
        prettify(
            pad_left(decimal(h), hour_digits_of(total_secs), '0') + seq![':'] + two_digits(m)
                + seq![':'] + two_digits(s),
        )
    } else if total_secs >= 60 {
        prettify(two_digits(m) + seq![':'] + two_digits(s))
    } else if total_secs >= 10 {
        pad_left(decimal(s), 2, ' ') + seq!['s']
    } else {
        decimal(s) + seq!['s']
    }
}

pub proof fn lemma_num_digits_monotone(a: nat, b: nat)
    requires
        a <= b,
    ensures
        num_digits(a) <= num_digits(b),
    decreases b,
{
    lemma_num_digits_step(a);
    lemma_num_digits_step(b);
    if a >= 10 {
        lemma_num_digits_monotone(a / 10, b / 10);
    }
}

proof fn lemma_two_digits_len(n: nat)
    requires
        n < 100,
    ensures
        two_digits(n).len() == 2,
{
    lemma_num_digits_step(n);
    if n >= 10 {
        lemma_num_digits_step(n / 10);
    }
    lemma_pad_left_len(decimal(n), 2, '0');
}

/// Blanking out leading zeros keeps the width of a time string.
pub proof fn lemma_prettify_keeps_width(s: Seq<char>)
    ensures
        prettify(s).len() == s.len(),
    decreases s.len(),
{
    if s.len() >= 3 && s[0] == '0' && s[1] == '0' && s[2] == ':' {
        lemma_prettify_keeps_width(s.skip(3));
    }
}

/// Every time string of a timer, for a span no longer than the timer (its
/// elapsed or its remaining time), has the timer's display width: the strings
/// line up from the first frame to the last.
pub proof fn lemma_fixed_text_width(secs: nat, total_secs: nat)
    requires
        secs <= total_secs,
    ensures
        fixed_text(secs, total_secs).len() == display_width_of(total_secs),
{
    let h = secs / 3600;
    let m = (secs % 3600) / 60;
    let s = secs % 60;
    lemma_two_digits_len(m);
    lemma_two_digits_len(s);
    if total_secs >= 3600 {
        lemma_num_digits_monotone(h, total_secs / 3600);
        lemma_pad_left_len(decimal(h), hour_digits_of(total_secs), '0');
        let raw = pad_left(decimal(h), hour_digits_of(total_secs), '0') + seq![':'] + two_digits(m)
            + seq![':'] + two_digits(s);
        lemma_prettify_keeps_width(raw);
    } else if total_secs >= 60 {
        lemma_prettify_keeps_width(two_digits(m) + seq![':'] + two_digits(s));
    } else if total_secs >= 10 {
        lemma_num_digits_step(s);
        if s >= 10 {
            lemma_num_digits_step(s / 10);
        }
        lemma_pad_left_len(decimal(s), 2, ' ');
    } else {
        lemma_num_digits_step(s);
    }
}

/// A character of a time string: a digit, `:`, a space or `s`.
pub open spec fn is_time_char(c: char) -> bool {
    ('0' <= c && c <= '9') || c == ':' || c == ' ' || c == 's'
}

/// Every character of `s` is a character of a time string.
pub open spec fn time_chars_only(s: Seq<char>) -> bool {
    forall|i: int| 0 <= i < s.len() ==> is_time_char(#[trigger] s[i])
}

proof fn lemma_time_chars_concat(a: Seq<char>, b: Seq<char>)
    requires
        time_chars_only(a),
        time_chars_only(b),
    ensures
        time_chars_only(a + b),
{
    assert forall|i: int| 0 <= i < (a + b).len() implies is_time_char(#[trigger] (a + b)[i]) by {
        if i < a.len() {
            assert((a + b)[i] == a[i]);
        } else {
            assert((a + b)[i] == b[i - a.len()]);
        }
    }
}

proof fn lemma_decimal_time_chars(n: nat)
    ensures
        time_chars_only(decimal(n)),
    decreases n,
{
    if n >= 10 {
        lemma_decimal_time_chars(n / 10);
        lemma_time_chars_concat(decimal(n / 10), seq![digit_char(n % 10)]);
    }
}

proof fn lemma_repeat_time_chars(s: Seq<char>, n: nat)
    requires
        time_chars_only(s),
    ensures
        time_chars_only(repeat_seq(s, n)),
    decreases n,
{
    if n > 0 {
        lemma_repeat_time_chars(s, (n - 1) as nat);
        lemma_time_chars_concat(repeat_seq(s, (n - 1) as nat), s);
    }
}

proof fn lemma_pad_left_time_chars(s: Seq<char>, width: nat, fill: char)
    requires
        time_chars_only(s),
        is_time_char(fill),
    ensures
        time_chars_only(pad_left(s, width, fill)),
{
    if s.len() < width {
        assert(time_chars_only(seq![fill]));
        lemma_repeat_time_chars(seq![fill], (width - s.len()) as nat);
        lemma_time_chars_concat(repeat_seq(seq![fill], (width - s.len()) as nat), s);
    }
}

proof fn lemma_prettify_time_chars(s: Seq<char>)
    requires
        time_chars_only(s),
    ensures
        time_chars_only(prettify(s)),
    decreases s.len(),
{
    assert(time_chars_only(seq![' ', ' ', ' ']));
    assert(time_chars_only(seq![' ']));
    if s.len() >= 3 && s[0] == '0' && s[1] == '0' && s[2] == ':' {
        lemma_prettify_time_chars(s.skip(3));
        lemma_time_chars_concat(seq![' ', ' ', ' '], prettify(s.skip(3)));
    } else if s.len() >= 2 && s[0] == '0' && is_ascii_digit(s[1]) {
        lemma_time_chars_concat(seq![' '], s.skip(1));
    }
}

/// A time string holds only digits, `:`, spaces and `s`: no escape character
/// and no line break.
pub proof fn lemma_fixed_text_chars(secs: nat, total_secs: nat)
    ensures
        time_chars_only(fixed_text(secs, total_secs)),
        free_of(fixed_text(secs, total_secs), '\x1b'),
        free_of(fixed_text(secs, total_secs), '\n'),
{
    let h = secs / 3600;
    let m = (secs % 3600) / 60;
    let s = secs % 60;
    assert(time_chars_only(seq![':']));
    assert(time_chars_only(seq!['s']));
    lemma_decimal_time_chars(h);
    lemma_decimal_time_chars(m);
    lemma_decimal_time_chars(s);
    lemma_pad_left_time_chars(decimal(h), hour_digits_of(total_secs), '0');
    lemma_pad_left_time_chars(decimal(m), 2, '0');
    lemma_pad_left_time_chars(decimal(s), 2, '0');
    lemma_pad_left_time_chars(decimal(s), 2, ' ');
    if total_secs >= 3600 {
        let a = pad_left(decimal(h), hour_digits_of(total_secs), '0');
        lemma_time_chars_concat(a, seq![':']);
        lemma_time_chars_concat(a + seq![':'], two_digits(m));
        lemma_time_chars_concat(a + seq![':'] + two_digits(m), seq![':']);
        lemma_time_chars_concat(a + seq![':'] + two_digits(m) + seq![':'], two_digits(s));
        lemma_prettify_time_chars(
            a + seq![':'] + two_digits(m) + seq![':'] + two_digits(s),
        );
    } else if total_secs >= 60 {
        lemma_time_chars_concat(two_digits(m), seq![':']);
        lemma_time_chars_concat(two_digits(m) + seq![':'], two_digits(s));
        lemma_prettify_time_chars(two_digits(m) + seq![':'] + two_digits(s));
    } else if total_secs >= 10 {
        lemma_time_chars_concat(pad_left(decimal(s), 2, ' '), seq!['s']);
    } else {
        lemma_time_chars_concat(decimal(s), seq!['s']);
    }
    let t = fixed_text(secs, total_secs);
    assert forall|i: int| 0 <= i < t.len() implies t[i] != '\x1b' && t[i] != '\n' by {
        assert(is_time_char(t[i]));
    }
}

/// The number of characters of the hour field for a timer of length `total`.
pub fn hour_digits(total: Duration) -> (w: usize)
    ensures
        w == hour_digits_of(whole_secs(total@)),
        2 <= w <= 20,
{
    let h = total.as_secs() / 3600;
    let mut n = h;
    let mut count: usize = 1;
    proof {
        lemma_num_digits_u64(h as nat);
        lemma_num_digits_step(h as nat);
    }
    while n >= 10
        invariant
            count + num_digits(n as nat) == num_digits(h as nat) + 1,
            num_digits(h as nat) <= 20,
        decreases n,
    {
        proof {
            lemma_num_digits_step(n as nat);
            lemma_num_digits_step((n / 10) as nat);
        }
        n = n / 10;
        count = count + 1;
    }
    proof {
        lemma_num_digits_step(n as nat);
    }
    if count < 2 {
        2
    } else {
        count
    }
}

/// Blanks out leading zero groups: every leading `00:` becomes three spaces,
/// then a single leading zero before a digit becomes a space.
pub fn prettify_duration(s: &str) -> (r: String)
    ensures
        r@ == prettify(s@),
{
    let len = s.unicode_len();
    let mut result = String::new();
    let mut i: usize = 0;
    proof {
        reveal_strlit("   ");
        reveal_strlit(" ");
        assert(s@.skip(0) == s@);
    }
    while len - i > 2 && s.get_char(i) == '0' && s.get_char(i + 1) == '0' && s.get_char(i + 2)
        == ':'
        invariant
            i <= len,
            len == s@.len(),
            result@ + prettify(s@.skip(i as int)) == prettify(s@),
        decreases len - i,
    {
        proof {
            reveal_strlit("   ");
        }
        let ghost rest = s@.skip(i as int);
        let ghost before = result@;
        assert(rest.skip(3) == s@.skip(i + 3));
        assert(prettify(rest) == seq![' ', ' ', ' '] + prettify(rest.skip(3)));
        result.append("   ");
        assert(result@ == before + seq![' ', ' ', ' ']);
        i = i + 3;
        assert(result@ + prettify(s@.skip(i as int)) == before + prettify(rest));
    }
    let ghost rest = s@.skip(i as int);
    if i < len && s.get_char(i) == '0' && i + 1 < len && is_digit(s.get_char(i + 1)) {
        result.append(" ");
        i = i + 1;
        assert(rest.skip(1) == s@.skip(i as int));
    }
    result.append(s.substring_char(i, len));
    assert(s@.subrange(i as int, len as int) == s@.skip(i as int));
    result
}

fn is_digit(c: char) -> (b: bool)
    ensures
        b == is_ascii_digit(c),
{
    '0' <= c && c <= '9'
}

/// The width of the time strings of a timer of length `total`.
pub fn duration_display_width(total: Duration) -> (w: usize)
    ensures
        w == display_width_of(whole_secs(total@)),
        2 <= w <= 26,
{
    let secs = total.as_secs();
    if secs >= 3600 {
        hour_digits(total) + 6
    } else if secs >= 60 {
        5
    } else if secs >= 10 {
        3
    } else {
        2
    }
}

fn two_digit_string(n: u64) -> (r: String)
    ensures
        r@ == two_digits(n as nat),
{
    let digits = decimal_string(n);
    proof {
        reveal_strlit("0");
    }
    pad_left_str(digits.as_str(), 2, "0")
}

/// The time string of `d` in a timer of length `total`, in whole seconds:
/// `H:MM:SS` from an hour up, `MM:SS` from a minute up, `NNs` from ten seconds
/// up and `Ns` below.
pub fn format_duration_fixed(d: Duration, total: Duration) -> (r: String)
    ensures
        r@ == fixed_text(whole_secs(d@), whole_secs(total@)),
{
    let total_secs = total.as_secs();
    let secs = d.as_secs();
    let h = secs / 3600;
    let m = (secs % 3600) / 60;
    let s = secs % 60;
    proof {
        reveal_strlit(":");
        reveal_strlit("0");
        reveal_strlit(" ");
        reveal_strlit("s");
    }
    if total_secs >= 3600 {
        let w = hour_digits(total);
        let hours = decimal_string(h);
        let mut raw = pad_left_str(hours.as_str(), w, "0");
        raw.append(":");
        raw.append(two_digit_string(m).as_str());
        raw.append(":");
        raw.append(two_digit_string(s).as_str());
        assert(raw@ == pad_left(decimal(h as nat), hour_digits_of(total_secs as nat), '0') + seq![':'] + two_digits(m as nat)
                + seq![':'] + two_digits(s as nat));
        let r = prettify_duration(raw.as_str());
        assert(r@ == fixed_text(secs as nat, total_secs as nat));
        r
    } else if total_secs >= 60 {
        let mut raw = two_digit_string(m);
        raw.append(":");
        raw.append(two_digit_string(s).as_str());
        assert(raw@ == two_digits(m as nat) + seq![':'] + two_digits(s as nat));
        let r = prettify_duration(raw.as_str());
        assert(r@ == fixed_text(secs as nat, total_secs as nat));
        r
    } else if total_secs >= 10 {
        let mut r = pad_left_str(decimal_string(s).as_str(), 2, " ");
        r.append("s");
        assert(r@ == fixed_text(secs as nat, total_secs as nat));
        r
    } else {
        let mut r = decimal_string(s);
        r.append("s");
        assert(r@ == fixed_text(secs as nat, total_secs as nat));
        r
    }
}

} // verus!
