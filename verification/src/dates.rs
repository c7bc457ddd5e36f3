//! Date-like strings. A fixed set of patterns is recognized: `YYYY-MM-DD`,
//! `DD/MM/YYYY`, `YYYY/MM/DD` and `DD-MM-YYYY`, each with an optional
//! ` HH:MM:SS` time suffix. A matching string can be converted to epoch
//! seconds through the usual civil-calendar day count.

use vstd::prelude::*;
use vstd::string::*;

use crate::text::is_decimal_digit;

verus! {

/// The numeric value of a decimal digit character.
pub open spec fn digit_val(c: char) -> int {
    c as u32 - 48
}

pub open spec fn two_digit_val(s: Seq<char>, i: int) -> int {
    digit_val(s[i]) * 10 + digit_val(s[i + 1])
}

pub open spec fn four_digit_val(s: Seq<char>, i: int) -> int {
    digit_val(s[i]) * 1000 + digit_val(s[i + 1]) * 100 + digit_val(s[i + 2]) * 10 + digit_val(
        s[i + 3],
    )
}

pub open spec fn digits_at(s: Seq<char>, i: int, n: int) -> bool {
    forall|j: int| i <= j < i + n ==> is_decimal_digit(#[trigger] s[j])
}

/// Year, month, day separated by `sep`: `YYYY?MM?DD` with a plausible month
/// and day.
pub open spec fn ymd_pattern(s: Seq<char>, sep: char) -> bool {
    &&& s.len() == 10
    &&& digits_at(s, 0, 4)
    &&& s[4] == sep
    &&& digits_at(s, 5, 2)
    &&& s[7] == sep
    &&& digits_at(s, 8, 2)
    &&& 1 <= two_digit_val(s, 5) <= 12
    &&& 1 <= two_digit_val(s, 8) <= 31
}

/// Day, month, year separated by `sep`: `DD?MM?YYYY` with a plausible month
/// and day.
pub open spec fn dmy_pattern(s: Seq<char>, sep: char) -> bool {
    &&& s.len() == 10
    &&& digits_at(s, 0, 2)
    &&& s[2] == sep
    &&& digits_at(s, 3, 2)
    &&& s[5] == sep
    &&& digits_at(s, 6, 4)
    &&& 1 <= two_digit_val(s, 3) <= 12
    &&& 1 <= two_digit_val(s, 0) <= 31
}

/// A ten-character date in one of the four accepted shapes.
pub open spec fn date_part(s: Seq<char>) -> bool {
    ||| ymd_pattern(s, '-')
    ||| ymd_pattern(s, '/')
    ||| dmy_pattern(s, '/')
    ||| dmy_pattern(s, '-')
}

/// A ` HH:MM:SS` suffix starting at position `i`.
pub open spec fn time_suffix(s: Seq<char>, i: int) -> bool {
    &&& s[i] == ' '
    &&& digits_at(s, i + 1, 2)
    &&& s[i + 3] == ':'
    &&& digits_at(s, i + 4, 2)
    &&& s[i + 6] == ':'
    &&& digits_at(s, i + 7, 2)
    &&& two_digit_val(s, i + 1) <= 23
    &&& two_digit_val(s, i + 4) <= 59
    &&& two_digit_val(s, i + 7) <= 59
}

/// Whether a string matches one of the accepted date patterns, with or
/// without the time suffix.
pub open spec fn spec_date_like(s: Seq<char>) -> bool {
    ||| (s.len() == 10 && date_part(s))
    ||| (s.len() == 19 && date_part(s.take(10)) && time_suffix(s, 10))
}

fn digit_at(s: &str, i: usize) -> (r: bool)
    requires
        i < s@.len(),
    ensures
        r == is_decimal_digit(s@[i as int]),
{
    let c = s.get_char(i);
    let v = c as u32;
    48 <= v && v <= 57
}

fn digits_at_exec(s: &str, i: usize, n: usize) -> (r: bool)
    requires
        i + n <= s@.len(),
        s@.len() <= 19,
    ensures
        r == digits_at(s@, i as int, n as int),
{
    let mut j: usize = 0;
    while j < n
        invariant
            j <= n,
            i + n <= s@.len(),
            s@.len() <= 19,
            forall|p: int| i <= p < i + j ==> is_decimal_digit(#[trigger] s@[p]),
        decreases n - j,
    {
        if !digit_at(s, i + j) {
            return false;
        }
        j = j + 1;
    }
    true
}

fn two_digits(s: &str, i: usize) -> (r: i64)
    requires
        i + 2 <= s@.len(),
        s@.len() <= 19,
        digits_at(s@, i as int, 2),
    ensures
        r == two_digit_val(s@, i as int),
        0 <= r <= 99,
{
    let a = s.get_char(i) as u32;
    let b = s.get_char(i + 1) as u32;
    assert(is_decimal_digit(s@[i as int]));
    assert(is_decimal_digit(s@[i as int + 1]));
    (((a - 48) * 10 + (b - 48)) as i64)
}

fn four_digits(s: &str, i: usize) -> (r: i64)
    requires
        i + 4 <= s@.len(),
        s@.len() <= 19,
        digits_at(s@, i as int, 4),
    ensures
        r == four_digit_val(s@, i as int),
        0 <= r <= 9999,
{
    let a = s.get_char(i) as u32;
    let b = s.get_char(i + 1) as u32;
    let c = s.get_char(i + 2) as u32;
    let d = s.get_char(i + 3) as u32;
    assert(is_decimal_digit(s@[i as int]));
    assert(is_decimal_digit(s@[i as int + 1]));
    assert(is_decimal_digit(s@[i as int + 2]));
    assert(is_decimal_digit(s@[i as int + 3]));
    (((a - 48) * 1000 + (b - 48) * 100 + (c - 48) * 10 + (d - 48)) as i64)
}

fn ymd_exec(s: &str, sep: char) -> (r: bool)
    requires
        10 <= s@.len() <= 19,
    ensures
        r == ymd_pattern(s@.take(10), sep),
{
    proof {
        assert(forall|j: int| 0 <= j < 10 ==> s@.take(10)[j] == #[trigger] s@[j]);
    }
    if !(s.get_char(4) == sep && s.get_char(7) == sep) {
        return false;
    }
    if !(digits_at_exec(s, 0, 4) && digits_at_exec(s, 5, 2) && digits_at_exec(s, 8, 2)) {
        return false;
    }
    assert(digits_at(s@.take(10), 0, 4)) by {
        assert(forall|j: int| 0 <= j < 4 ==> is_decimal_digit(#[trigger] s@.take(10)[j]));
    }
    assert(digits_at(s@.take(10), 5, 2)) by {
        assert(forall|j: int| 5 <= j < 7 ==> is_decimal_digit(#[trigger] s@.take(10)[j]));
    }
    assert(digits_at(s@.take(10), 8, 2)) by {
        assert(forall|j: int| 8 <= j < 10 ==> is_decimal_digit(#[trigger] s@.take(10)[j]));
    }
    let month = two_digits(s, 5);
    let day = two_digits(s, 8);
    1 <= month && month <= 12 && 1 <= day && day <= 31
}

fn dmy_exec(s: &str, sep: char) -> (r: bool)
    requires
        10 <= s@.len() <= 19,
    ensures
        r == dmy_pattern(s@.take(10), sep),
{
    proof {
        assert(forall|j: int| 0 <= j < 10 ==> s@.take(10)[j] == #[trigger] s@[j]);
    }
    if !(s.get_char(2) == sep && s.get_char(5) == sep) {
        return false;
    }
    if !(digits_at_exec(s, 0, 2) && digits_at_exec(s, 3, 2) && digits_at_exec(s, 6, 4)) {
        return false;
    }
    assert(digits_at(s@.take(10), 0, 2)) by {
        assert(forall|j: int| 0 <= j < 2 ==> is_decimal_digit(#[trigger] s@.take(10)[j]));
    }
    assert(digits_at(s@.take(10), 3, 2)) by {
        assert(forall|j: int| 3 <= j < 5 ==> is_decimal_digit(#[trigger] s@.take(10)[j]));
    }
    assert(digits_at(s@.take(10), 6, 4)) by {
        assert(forall|j: int| 6 <= j < 10 ==> is_decimal_digit(#[trigger] s@.take(10)[j]));
    }
    let month = two_digits(s, 3);
    let day = two_digits(s, 0);
    1 <= month && month <= 12 && 1 <= day && day <= 31
}

fn date_part_exec(s: &str) -> (r: bool)
    requires
        10 <= s@.len() <= 19,
    ensures
        r == date_part(s@.take(10)),
{
    if ymd_exec(s, '-') {
        return true;
    }
    if ymd_exec(s, '/') {
        return true;
    }
    if dmy_exec(s, '/') {
        return true;
    }
    dmy_exec(s, '-')
}

fn time_suffix_exec(s: &str) -> (r: bool)
    requires
        s@.len() == 19,
    ensures
        r == time_suffix(s@, 10),
{
    if !(s.get_char(10) == ' ' && s.get_char(13) == ':' && s.get_char(16) == ':') {
        return false;
    }
    if !(digits_at_exec(s, 11, 2) && digits_at_exec(s, 14, 2) && digits_at_exec(s, 17, 2)) {
        return false;
    }
    let hh = two_digits(s, 11);
    let mm = two_digits(s, 14);
    let ss = two_digits(s, 17);
    hh <= 23 && mm <= 59 && ss <= 59
}

/// Whether a string matches one of the accepted date patterns.
pub fn is_date_string(s: &str) -> (r: bool)
    ensures
        r == spec_date_like(s@),
{
    let len = s.unicode_len();
    if len == 10 {
        proof {
            assert(s@.take(10) =~= s@);
        }
        date_part_exec(s)
    } else if len == 19 {
        date_part_exec(s) && time_suffix_exec(s)
    } else {
        false
    }
}

/// Days between the civil date and the civil epoch (1970-01-01), through the
/// usual era decomposition of the Gregorian calendar.
pub open spec fn spec_days_from_civil(y: int, m: int, d: int) -> int {
    let yy = if m <= 2 {
        y - 1
    } else {
        y
    };
    let y2 = yy + 400;
    let era = y2 / 400;
    let yoe = y2 - era * 400;
    let mp = if m > 2 {
        m - 3
    } else {
        m + 9
    };
    let doy = (153 * mp + 2) / 5 + d - 1;
    let doe = yoe * 365 + yoe / 4 - yoe / 100 + doy;
    (era - 1) * 146097 + doe - 719468
}

/// The year, month and day fields of a matching date string: read from the
/// front when the separator stands at position 4, from the back otherwise.
pub open spec fn spec_date_fields(s: Seq<char>) -> (int, int, int) {
    if s[4] == '-' || s[4] == '/' {
        (four_digit_val(s, 0), two_digit_val(s, 5), two_digit_val(s, 8))
    } else {
        (four_digit_val(s, 6), two_digit_val(s, 3), two_digit_val(s, 0))
    }
}

/// The epoch seconds denoted by a matching date string; without a time
/// suffix the time of day is midnight.
pub open spec fn spec_date_epoch(s: Seq<char>) -> int {
    let (y, m, d) = spec_date_fields(s);
    let days = spec_days_from_civil(y, m, d);
    let secs = if s.len() == 19 {
        two_digit_val(s, 11) * 3600 + two_digit_val(s, 14) * 60 + two_digit_val(s, 17)
    } else {
        0
    };
    days * 86400 + secs
}

/// Parses a date-like string into epoch seconds; `None` exactly when the
/// string matches no accepted pattern.
#[verifier::rlimit(100)]
pub fn parse_date_epoch(s: &str) -> (r: Option<i64>)
    ensures
        r is Some <==> spec_date_like(s@),
        spec_date_like(s@) ==> r == Some(spec_date_epoch(s@) as i64),
{
    if !is_date_string(s) {
        return None;
    }
    let sep4 = s.get_char(4);
    let ghost t = s@.take(10);
    proof {
        assert(forall|j: int| 0 <= j < 10 ==> t[j] == #[trigger] s@[j]);
    }
    let (y, m, d) = if sep4 == '-' || sep4 == '/' {
        proof {
            assert(ymd_pattern(t, '-') || ymd_pattern(t, '/'));
            assert(digits_at(s@, 0, 4)) by {
                assert(forall|j: int| 0 <= j < 4 ==> is_decimal_digit(#[trigger] t[j]));
            }
            assert(digits_at(s@, 5, 2)) by {
                assert(forall|j: int| 5 <= j < 7 ==> is_decimal_digit(#[trigger] t[j]));
            }
            assert(digits_at(s@, 8, 2)) by {
                assert(forall|j: int| 8 <= j < 10 ==> is_decimal_digit(#[trigger] t[j]));
            }
        }
        (four_digits(s, 0), two_digits(s, 5), two_digits(s, 8))
    } else {
        proof {
            assert(dmy_pattern(t, '/') || dmy_pattern(t, '-'));
            assert(digits_at(s@, 6, 4)) by {
                assert(forall|j: int| 6 <= j < 10 ==> is_decimal_digit(#[trigger] t[j]));
            }
            assert(digits_at(s@, 3, 2)) by {
                assert(forall|j: int| 3 <= j < 5 ==> is_decimal_digit(#[trigger] t[j]));
            }
            assert(digits_at(s@, 0, 2)) by {
                assert(forall|j: int| 0 <= j < 2 ==> is_decimal_digit(#[trigger] t[j]));
            }
        }
        (four_digits(s, 6), two_digits(s, 3), two_digits(s, 0))
    };
    let yy: i64 = if m <= 2 {
        y - 1
    } else {
        y
    };
    let y2: i64 = yy + 400;
    let era: i64 = y2 / 400;
    let yoe: i64 = y2 - era * 400;
    let mp: i64 = if m > 2 {
        m - 3
    } else {
        m + 9
    };
    let doy: i64 = (153 * mp + 2) / 5 + d - 1;
    let doe: i64 = yoe * 365 + yoe / 4 - yoe / 100 + doy;
    let days: i64 = (era - 1) * 146097 + doe - 719468;
    let secs: i64 = if s.unicode_len() == 19 {
        let hh = two_digits(s, 11);
        let mm = two_digits(s, 14);
        let ss = two_digits(s, 17);
        hh * 3600 + mm * 60 + ss
    } else {
        0
    };
    Some(days * 86400 + secs)
}

} // verus!
