//! Run durations: the clock part of an ISO-8601 timestamp, Rust's integer
//! syntax, and the rough "~Xm" / "~Xs" rendering of a time span.

use vstd::prelude::*;
use crate::text::{
    byte_prefix, byte_prefix_of, chars_of, decimal, nth_piece, piece, push_decimal, push_str,
    string_of, trim_end_char, trim_end_matching,
};

verus! {

/// Whether `c` is an ASCII decimal digit.
pub open spec fn is_digit(c: char) -> bool {
    '0' <= c && c <= '9'
}

/// The value of the ASCII digit `c`.
pub open spec fn digit_value(c: char) -> int {
    (c as int) - ('0' as int)
}

/// Whether every character of `s` is an ASCII digit.
pub open spec fn all_digits(s: Seq<char>) -> bool {
    forall|i: int| 0 <= i < s.len() ==> is_digit(s[i])
}

/// The number the digits of `s` spell.
pub open spec fn digits_value(s: Seq<char>) -> int
    decreases s.len(),
{
    if s.len() == 0 {
        0
    } else {
        digits_value(s.drop_last()) * 10 + digit_value(s.last())
    }
}

/// The integer `s` writes in Rust's syntax for signed integers: an optional
/// `+` or `-`, then one or more ASCII digits.
pub open spec fn integer_text(s: Seq<char>) -> Option<int> {
    if s.len() == 0 {
        None
    } else {
        let negative = s[0] == '-';
        let digits = if s[0] == '-' || s[0] == '+' { s.drop_first() } else { s };
        if digits.len() > 0 && all_digits(digits) {
            Some(if negative { -digits_value(digits) } else { digits_value(digits) })
        } else {
            None
        }
    }
}

/// What `s.parse::<i64>()` gives: the integer when it is written in Rust's
/// syntax and fits in an `i64`.
pub open spec fn i64_text(s: Seq<char>) -> Option<int> {
    match integer_text(s) {
        Some(v) => if i64::MIN <= v <= i64::MAX { Some(v) } else { None },
        None => None,
    }
}

/// The digit value of `c`, when it is an ASCII digit.
fn digit_of_char(c: char) -> (r: Option<u128>)
    ensures
        match r {
            Some(d) => is_digit(c) && d == digit_value(c),
            None => !is_digit(c),
        },
{
    if c == '0' { Some(0) } else if c == '1' { Some(1) } else if c == '2' { Some(2) }
    else if c == '3' { Some(3) } else if c == '4' { Some(4) } else if c == '5' { Some(5) }
    else if c == '6' { Some(6) } else if c == '7' { Some(7) } else if c == '8' { Some(8) }
    else if c == '9' { Some(9) } else { None }
}

proof fn lemma_capped_step(v: int, d: int, cap: int)
    by (nonlinear_arith)
    requires
        v >= 0,
        0 <= d <= 9,
        cap >= 0,
    ensures
        (if v < cap { v } else { cap }) * 10 + d >= cap <==> v * 10 + d >= cap,
        (if v < cap { v } else { cap }) * 10 + d < cap ==> v < cap,
{
}

proof fn lemma_digits_value_nonneg(s: Seq<char>)
    requires
        all_digits(s),
    ensures
        digits_value(s) >= 0,
    decreases s.len(),
{
    if s.len() > 0 {
        lemma_digits_value_nonneg(s.drop_last());
    }
}

/// `s.parse::<i64>()`, as [`i64_text`] says.
pub fn parse_i64(s: &Vec<char>) -> (r: Option<i64>)
    ensures
        match r {
            Some(v) => i64_text(s@) == Some(v as int),
            None => i64_text(s@) is None,
        },
{
    if s.len() == 0 {
        return None;
    }
    let negative = s[0] == '-';
    let start: usize = if s[0] == '-' || s[0] == '+' { 1 } else { 0 };
    let ghost digits = if s@[0] == '-' || s@[0] == '+' { s@.drop_first() } else { s@ };
    assert(digits =~= s@.skip(start as int));
    if start >= s.len() {
        return None;
    }
    // Values above 2^63 cannot fit either way; they are held at this cap.
    let cap: u128 = 9223372036854775809;
    let mut acc: u128 = 0;
    let mut i: usize = start;
    while i < s.len()
        invariant
            start <= i <= s.len(),
            cap == 9223372036854775809,
            digits =~= s@.skip(start as int),
            s.len() > 0,
            digits == (if s@[0] == '-' || s@[0] == '+' { s@.drop_first() } else { s@ }),
            all_digits(s@.subrange(start as int, i as int)),
            acc == (if digits_value(s@.subrange(start as int, i as int)) < cap {
                digits_value(s@.subrange(start as int, i as int))
            } else {
                cap as int
            }),
        decreases s.len() - i,
    {
        let ghost prefix = s@.subrange(start as int, i as int);
        let ghost next = s@.subrange(start as int, i + 1);
        assert(next.drop_last() =~= prefix);
        match digit_of_char(s[i]) {
            None => {
                assert(digits[i - start] == s@[i as int]);
                assert(!all_digits(digits));
                assert(integer_text(s@) is None);
                return None;
            },
            Some(d) => {
                proof {
                    lemma_digits_value_nonneg(prefix);
                    lemma_capped_step(digits_value(prefix), d as int, cap as int);
                }
                let stepped = acc * 10 + d;
                acc = if stepped < cap { stepped } else { cap };
                i += 1;
                assert(all_digits(next));
            },
        }
    }
    assert(s@.subrange(start as int, s.len() as int) =~= digits);
    proof { lemma_digits_value_nonneg(digits); }
    if negative {
        if acc <= 9223372036854775808 {
            if acc == 9223372036854775808 {
                Some(i64::MIN)
            } else {
                Some(-(acc as i64))
            }
        } else {
            None
        }
    } else {
        if acc <= 9223372036854775807 {
            Some(acc as i64)
        } else {
            None
        }
    }
}

} // verus!

verus! {

/// The hour, minute and second texts of a timestamp: the piece after the
/// first `T`, without trailing `Z`s, split at `:` into at least three parts.
pub open spec fn clock_parts(s: Seq<char>) -> Option<(Seq<char>, Seq<char>, Seq<char>)> {
    match piece(s, 'T', 1) {
        None => None,
        Some(after) => {
            let t = trim_end_char(after, 'Z');
            match (piece(t, ':', 0), piece(t, ':', 1), piece(t, ':', 2)) {
                (Some(h), Some(m), Some(x)) => Some((h, m, x)),
                _ => None,
            }
        },
    }
}

/// The year, month and day texts of a timestamp: the piece before the
/// first `T`, split at `-` into exactly three parts.
pub open spec fn date_parts(s: Seq<char>) -> Option<(Seq<char>, Seq<char>, Seq<char>)> {
    let date = piece(s, 'T', 0).unwrap();
    match (piece(date, '-', 0), piece(date, '-', 1), piece(date, '-', 2), piece(date, '-', 3)) {
        (Some(y), Some(m), Some(d), None) => Some((y, m, d)),
        _ => None,
    }
}

/// The number of days from 1970-01-01 to the given date of the proleptic
/// Gregorian calendar (negative before it).
pub open spec fn days_from_civil(y: int, m: int, d: int) -> int {
    let yy = if m <= 2 { y - 1 } else { y };
    let era = yy / 400;
    let yoe = yy - era * 400;
    let mp = if m > 2 { m - 3 } else { m + 9 };
    let doy = (153 * mp + 2) / 5 + d - 1;
    let doe = yoe * 365 + yoe / 4 - yoe / 100 + doy;
    era * 146097 + doe - 719468
}

/// The day number of a timestamp's date, when its year, month (1 to 12) and
/// day (1 to 31) are written as integers.
pub open spec fn timestamp_day(s: Seq<char>) -> Option<int> {
    match date_parts(s) {
        Some((y, m, d)) => match (i64_text(y), i64_text(m), i64_text(d)) {
            (Some(y), Some(m), Some(d)) => if 1 <= m <= 12 && 1 <= d <= 31 {
                Some(days_from_civil(y, m, d))
            } else {
                None
            },
            _ => None,
        },
        None => None,
    }
}

/// The seconds text that is handed to the seconds parser: present when the
/// date can be read, the clock parts exist and the hour and minute parse as
/// `i64`.
pub open spec fn seconds_text(s: Seq<char>) -> Option<Seq<char>> {
    match (timestamp_day(s), clock_parts(s)) {
        (Some(_day), Some((h, m, x))) => if i64_text(h) is Some && i64_text(m) is Some { Some(x) } else { None },
        _ => None,
    }
}

/// Seconds since 1970-01-01T00:00 of a timestamp, given what the seconds
/// parser returned for its seconds text; `None` when it cannot be read.
pub open spec fn clock_seconds(s: Seq<char>, secs: Option<i64>) -> Option<int> {
    match (timestamp_day(s), clock_parts(s)) {
        (Some(day), Some((h, m, _x))) => match (i64_text(h), i64_text(m), secs) {
            (Some(h), Some(m), Some(x)) => Some(day * 86400 + h * 3600 + m * 60 + x),
            _ => None,
        },
        _ => None,
    }
}

/// The rough span from `start` to `end`: whole minutes as `~Xm` from a
/// minute up, else seconds as `~Xs`; `-` when either time is unknown or the
/// end comes before the start.
pub open spec fn span_text(start: Option<int>, end: Option<int>) -> Seq<char> {
    match (start, end) {
        (Some(s), Some(c)) => if c >= s {
            let d = c - s;
            if d >= 60 {
                seq!['~'] + decimal((d / 60) as nat) + seq!['m']
            } else {
                seq!['~'] + decimal(d as nat) + seq!['s']
            }
        } else {
            seq!['-']
        },
        _ => seq!['-'],
    }
}

/// `secs` is an outcome of the seconds parser `f` on the seconds text of
/// `s`, where the parser is consulted at all.
pub open spec fn parser_gave<F: Fn(&str) -> Option<i64>>(f: F, s: Seq<char>, secs: Option<i64>) -> bool {
    match seconds_text(s) {
        Some(t) => exists|x: &str| x@ == t && call_ensures(f, (x,), secs),
        None => true,
    }
}

/// The characters that the duration of a run is rendered as, for the given
/// seconds-parser outcomes.
pub open spec fn duration_text(started: Seq<char>, completed: Seq<char>, a: Option<i64>, b: Option<i64>) -> Seq<char> {
    if started.len() == 0 || completed.len() == 0 {
        seq!['-']
    } else {
        span_text(clock_seconds(started, a), clock_seconds(completed, b))
    }
}

/// What `compute_duration` may give: the rendering for some outcomes of the
/// seconds parser on the two timestamps.
pub open spec fn is_duration_of<F: Fn(&str) -> Option<i64>>(f: F, started: Seq<char>, completed: Seq<char>, out: Seq<char>) -> bool {
    if started.len() == 0 || completed.len() == 0 {
        out == seq!['-']
    } else {
        exists|a: Option<i64>, b: Option<i64>|
            parser_gave(f, started, a) && parser_gave(f, completed, b)
                && out == #[trigger] duration_text(started, completed, a, b)
    }
}

/// The floor of `a / 400`.
fn floor_div_400(a: i128) -> (r: i128)
    requires
        -1_000_000_000_000_000_000_000 <= a <= 1_000_000_000_000_000_000_000,
    ensures
        r == a / 400,
{
    if a >= 0 {
        a / 400
    } else {
        let q = (-a + 399) / 400;
        assert(-q == a / 400) by (nonlinear_arith)
            requires
                a < 0,
                q == (-a + 399) / 400,
        ;
        -q
    }
}

/// The number of days from 1970-01-01 to a date, as [`days_from_civil`] says.
pub fn days_from_civil_of(y: i64, m: i64, d: i64) -> (r: i128)
    requires
        1 <= m <= 12,
        1 <= d <= 31,
    ensures
        r == days_from_civil(y as int, m as int, d as int),
{
    let yy: i128 = if m <= 2 { (y as i128) - 1 } else { y as i128 };
    let era = floor_div_400(yy);
    let yoe = yy - era * 400;
    assert(0 <= yoe < 400) by (nonlinear_arith)
        requires
            era == yy / 400,
            yoe == yy - era * 400,
    ;
    let mp: i128 = if m > 2 { (m as i128) - 3 } else { (m as i128) + 9 };
    let doy = (153 * mp + 2) / 5 + (d as i128) - 1;
    let doe = yoe * 365 + yoe / 4 - yoe / 100 + doy;
    era * 146097 + doe - 719468
}

/// The day number of a timestamp's date, as [`timestamp_day`] says.
fn timestamp_day_of(chars: &Vec<char>) -> (r: Option<i128>)
    ensures
        match r {
            Some(v) => timestamp_day(chars@) == Some(v as int),
            None => timestamp_day(chars@) is None,
        },
{
    let date = match nth_piece(chars, 'T', 0) {
        Some(p) => p,
        None => return None,
    };
    let y_text = nth_piece(&date, '-', 0);
    let m_text = nth_piece(&date, '-', 1);
    let d_text = nth_piece(&date, '-', 2);
    let extra = nth_piece(&date, '-', 3);
    match (y_text, m_text, d_text, extra) {
        (Some(y_text), Some(m_text), Some(d_text), None) => {
            match (parse_i64(&y_text), parse_i64(&m_text), parse_i64(&d_text)) {
                (Some(y), Some(m), Some(d)) => {
                    if 1 <= m && m <= 12 && 1 <= d && d <= 31 {
                        Some(days_from_civil_of(y, m, d))
                    } else {
                        None
                    }
                },
                _ => None,
            }
        },
        _ => None,
    }
}

/// Seconds since 1970-01-01T00:00 of a timestamp, reading the seconds field
/// with `seconds`.
fn clock_seconds_of<F: Fn(&str) -> Option<i64>>(s: &str, seconds: &F) -> (r: (Option<i128>, Ghost<Option<i64>>))
    requires
        forall|x: &str| call_requires(*seconds, (x,)),
    ensures
        parser_gave(*seconds, s@, r.1@),
        match r.0 {
            Some(v) => clock_seconds(s@, r.1@) == Some(v as int),
            None => clock_seconds(s@, r.1@) is None,
        },
{
    let chars = chars_of(s);
    let day = match timestamp_day_of(&chars) {
        Some(day) => day,
        None => return (None, Ghost(None)),
    };
    let after = match nth_piece(&chars, 'T', 1) {
        Some(p) => p,
        None => return (None, Ghost(None)),
    };
    let t = trim_end_matching(&after, 'Z');
    let h_text = nth_piece(&t, ':', 0);
    let m_text = nth_piece(&t, ':', 1);
    let x_text = nth_piece(&t, ':', 2);
    match (h_text, m_text, x_text) {
        (Some(h_text), Some(m_text), Some(x_text)) => {
            let h = match parse_i64(&h_text) {
                Some(h) => h,
                None => return (None, Ghost(None)),
            };
            let m = match parse_i64(&m_text) {
                Some(m) => m,
                None => return (None, Ghost(None)),
            };
            let x_string = string_of(&x_text);
            let x_str = x_string.as_str();
            let secs = seconds(x_str);
            assert(x_str@ == x_text@);
            let total = match secs {
                Some(x) => Some(day * 86400 + (h as i128) * 3600 + (m as i128) * 60 + (x as i128)),
                None => None,
            };
            (total, Ghost(secs))
        },
        _ => (None, Ghost(None)),
    }
}

/// The rough duration between two ISO-8601 timestamps (date and time of
/// day both count), `~Xm` or `~Xs`, or `-` when either is empty or cannot be
/// read, or the second comes before the first. The seconds field is read by
/// `seconds` (a floating-point read, truncated to whole seconds).
pub fn compute_duration<F: Fn(&str) -> Option<i64>>(started: &str, completed: &str, seconds: &F) -> (r: String)
    requires
        forall|x: &str| call_requires(*seconds, (x,)),
    ensures
        is_duration_of(*seconds, started@, completed@, r@),
{
    let mut out: Vec<char> = Vec::new();
    if started.is_empty() || completed.is_empty() {
        out.push('-');
        assert(out@ =~= seq!['-']);
        return string_of(&out);
    }
    let (s, ga) = clock_seconds_of(started, seconds);
    let (c, gb) = clock_seconds_of(completed, seconds);
    match (s, c) {
        (Some(s), Some(c)) => {
            if c >= s {
                let d = c - s;
                out.push('~');
                if d >= 60 {
                    push_decimal(&mut out, (d / 60) as u128);
                    out.push('m');
                } else {
                    push_decimal(&mut out, d as u128);
                    out.push('s');
                }
            } else {
                out.push('-');
            }
        },
        _ => {
            out.push('-');
        },
    }
    assert(out@ =~= duration_text(started@, completed@, ga@, gb@));
    string_of(&out)
}

} // verus!

verus! {

/// The pattern that finds the date and the minute of a timestamp.
pub const TIMESTAMP_PATTERN: &'static str = r"(\d{4}-\d{2}-\d{2})T(\d{2}:\d{2})";

/// The first two capture groups of the leftmost match of the regular
/// expression `pattern` in `text`, as the `regex` crate finds them; `None`
/// when the pattern does not compile, nothing matches, or a group is unset.
pub uninterp spec fn regex_groups(pattern: Seq<char>, text: Seq<char>) -> Option<(Seq<char>, Seq<char>)>;

/// Compiles `pattern` with `regex::Regex::new` and calls `captures` on
/// `text`, giving groups 1 and 2 of the match; the result is named by
/// [`regex_groups`].
#[verifier::external_body]
pub(crate) fn capture_two(pattern: &str, text: &str) -> (r: Option<(String, String)>)
    ensures
        match r {
            Some((a, b)) => regex_groups(pattern@, text@) == Some((a@, b@)),
            None => regex_groups(pattern@, text@) is None,
        },
{
    let re = regex::Regex::new(pattern).ok()?;
    let caps = re.captures(text)?;
    Some((caps.get(1)?.as_str().to_string(), caps.get(2)?.as_str().to_string()))
}

/// The start column of a run for the groups that the timestamp pattern
/// found: `date time`, else the first 16 bytes of `started` (`None` where
/// that cut would fall inside a character).
pub open spec fn start_column(started: Seq<char>, groups: Option<(Seq<char>, Seq<char>)>) -> Option<Seq<char>> {
    match groups {
        Some((date, time)) => Some(date + seq![' '] + time),
        None => byte_prefix(started, 16),
    }
}

/// The start column from the timestamp pattern's groups, as [`start_column`] says.
pub fn compact_start(started: &str, groups: Option<(String, String)>) -> (r: Option<Vec<char>>)
    ensures
        match r {
            Some(v) => start_column(started@, groups_view(groups)) == Some(v@),
            None => start_column(started@, groups_view(groups)) is None,
        },
{
    match groups {
        Some((date, time)) => {
            let mut out = chars_of(date.as_str());
            out.push(' ');
            push_str(&mut out, time.as_str());
            Some(out)
        },
        None => {
            let chars = chars_of(started);
            byte_prefix_of(&chars, 16)
        },
    }
}

/// The views of a pair of captured groups.
pub open spec fn groups_view(g: Option<(String, String)>) -> Option<(Seq<char>, Seq<char>)> {
    match g {
        Some((a, b)) => Some((a@, b@)),
        None => None,
    }
}

/// The start column of a run: the timestamp pattern's date and minute, or
/// the first 16 bytes of `started`.
pub fn started_column(started: &str) -> (r: Option<Vec<char>>)
    ensures
        match r {
            Some(v) => start_column(started@, regex_groups(TIMESTAMP_PATTERN@, started@)) == Some(v@),
            None => start_column(started@, regex_groups(TIMESTAMP_PATTERN@, started@)) is None,
        },
{
    let groups = capture_two(TIMESTAMP_PATTERN, started);
    compact_start(started, groups)
}

} // verus!
