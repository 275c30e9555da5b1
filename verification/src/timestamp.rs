//! UTC completion timestamps in the fixed calendar-object format
//! `YYYYMMDDTHHMMSSZ`, with a verified parser and formatter.
use vstd::prelude::*;
use crate::error::{Error, ErrorKind};

verus! {

/// A UTC instant with second precision, as carried by a `COMPLETED`
/// property of a task.
#[derive(Clone, Copy, Debug, PartialEq, Eq, Structural)]
pub struct Timestamp {
    pub year: u16,
    pub month: u8,
    pub day: u8,
    pub hour: u8,
    pub minute: u8,
    pub second: u8,
}

/// Whether `y` is a leap year of the proleptic Gregorian calendar.
pub open spec fn is_leap_year(y: int) -> bool {
    (y % 4 == 0 && y % 100 != 0) || y % 400 == 0
}

/// The number of days of month `m` of year `y`.
pub open spec fn days_in_month(y: int, m: int) -> int {
    if m == 2 {
        if is_leap_year(y) {
            29
        } else {
            28
        }
    } else if m == 4 || m == 6 || m == 9 || m == 11 {
        30
    } else {
        31
    }
}

impl Timestamp {
    /// Well-formedness: a calendar date that exists, fields in range, and
    /// a year that the four-digit text format can carry.
    pub open spec fn wf(self) -> bool {
        &&& self.year <= 9999
        &&& 1 <= self.month <= 12
        &&& 1 <= self.day <= days_in_month(self.year as int, self.month as int)
        &&& self.hour <= 23
        &&& self.minute <= 59
        &&& self.second <= 59
    }
}

/// Whether `c` is a decimal digit.
pub open spec fn is_digit(c: char) -> bool {
    '0' <= c <= '9'
}

/// The numeric value of a decimal digit character.
pub open spec fn digit_val(c: char) -> int {
    (c as u32) - ('0' as u32)
}

/// The character of a decimal digit value.
pub open spec fn digit_char(d: int) -> char {
    if d == 0 {
        '0'
    } else if d == 1 {
        '1'
    } else if d == 2 {
        '2'
    } else if d == 3 {
        '3'
    } else if d == 4 {
        '4'
    } else if d == 5 {
        '5'
    } else if d == 6 {
        '6'
    } else if d == 7 {
        '7'
    } else if d == 8 {
        '8'
    } else {
        '9'
    }
}

pub proof fn lemma_digit_char_val(d: int)
    requires
        0 <= d <= 9,
    ensures
        is_digit(digit_char(d)),
        digit_val(digit_char(d)) == d,
{
}

/// Whether `s` has the shape `YYYYMMDDTHHMMSSZ`: sixteen characters,
/// digits in the numeric positions, `T` and `Z` as separators.
pub open spec fn ts_format_ok(s: Seq<char>) -> bool {
    &&& s.len() == 16
    &&& is_digit(s[0])
    &&& is_digit(s[1])
    &&& is_digit(s[2])
    &&& is_digit(s[3])
    &&& is_digit(s[4])
    &&& is_digit(s[5])
    &&& is_digit(s[6])
    &&& is_digit(s[7])
    &&& s[8] == 'T'
    &&& is_digit(s[9])
    &&& is_digit(s[10])
    &&& is_digit(s[11])
    &&& is_digit(s[12])
    &&& is_digit(s[13])
    &&& is_digit(s[14])
    &&& s[15] == 'Z'
}

/// The timestamp whose fields are read off a string of shape
/// `YYYYMMDDTHHMMSSZ`, before any range validation.
pub open spec fn ts_fields(s: Seq<char>) -> Timestamp {
    Timestamp {
        year: (digit_val(s[0]) * 1000 + digit_val(s[1]) * 100 + digit_val(s[2]) * 10 + digit_val(
            s[3],
        )) as u16,
        month: (digit_val(s[4]) * 10 + digit_val(s[5])) as u8,
        day: (digit_val(s[6]) * 10 + digit_val(s[7])) as u8,
        hour: (digit_val(s[9]) * 10 + digit_val(s[10])) as u8,
        minute: (digit_val(s[11]) * 10 + digit_val(s[12])) as u8,
        second: (digit_val(s[13]) * 10 + digit_val(s[14])) as u8,
    }
}

/// The timestamp denoted by `s`, or `None` where `s` is not a
/// well-formed `YYYYMMDDTHHMMSSZ` timestamp.
pub open spec fn spec_parse_timestamp(s: Seq<char>) -> Option<Timestamp> {
    if ts_format_ok(s) && ts_fields(s).wf() {
        Some(ts_fields(s))
    } else {
        None
    }
}

/// The sixteen-character rendering of `t` in the format
/// `YYYYMMDDTHHMMSSZ`.
pub open spec fn spec_format_timestamp(t: Timestamp) -> Seq<char> {
    let y = t.year as int;
    let mo = t.month as int;
    let d = t.day as int;
    let h = t.hour as int;
    let mi = t.minute as int;
    let se = t.second as int;
    seq![
        digit_char(y / 1000),
        digit_char(y / 100 % 10),
        digit_char(y / 10 % 10),
        digit_char(y % 10),
        digit_char(mo / 10),
        digit_char(mo % 10),
        digit_char(d / 10),
        digit_char(d % 10),
        'T',
        digit_char(h / 10),
        digit_char(h % 10),
        digit_char(mi / 10),
        digit_char(mi % 10),
        digit_char(se / 10),
        digit_char(se % 10),
        'Z',
    ]
}

/// Returns the numeric value of `c` where `c` is a decimal digit.
fn digit_of(c: char) -> (r: Option<u8>)
    ensures
        r is Some <==> is_digit(c),
        r matches Some(d) ==> d == digit_val(c),
{
    if '0' <= c && c <= '9' {
        Some(((c as u32) - ('0' as u32)) as u8)
    } else {
        None
    }
}

/// Returns the number of days of month `month` of year `year`.
fn days_in_month_exec(year: u16, month: u8) -> (r: u8)
    ensures
        r == days_in_month(year as int, month as int),
{
    if month == 2 {
        if (year % 4 == 0 && year % 100 != 0) || year % 400 == 0 {
            29
        } else {
            28
        }
    } else if month == 4 || month == 6 || month == 9 || month == 11 {
        30
    } else {
        31
    }
}

/// Builds the timestamp error for a malformed input.
fn timestamp_error(s: &str) -> (r: Error)
    ensures
        r.spec_kind() == ErrorKind::Timestamp,
{
    let mut m = String::new();
    m.append("malformed completion timestamp: ");
    m.append(s);
    Error::Timestamp(m)
}

/// Parses a completion timestamp of the fixed format `YYYYMMDDTHHMMSSZ`.
///
/// Succeeds exactly on the well-formed timestamps of that format and
/// yields the denoted UTC instant; every other input is rejected with a
/// timestamp error.
pub fn parse_utc_timestamp(s: &str) -> (r: Result<Timestamp, Error>)
    ensures
        spec_parse_timestamp(s@) matches Some(t) ==> r == Ok::<Timestamp, Error>(t),
        spec_parse_timestamp(s@) is None ==> (r matches Err(e) && e.spec_kind()
            == ErrorKind::Timestamp),
{
    if s.unicode_len() != 16 {
        return Err(timestamp_error(s));
    }
    let mut digits: Vec<u8> = Vec::new();
    let mut i: usize = 0;
    while i < 16
        invariant
            i <= 16,
            s@.len() == 16,
            digits@.len() == i,
            forall|j: int| 0 <= j < i && j != 8 && j != 15 ==> is_digit(#[trigger] s@[j]),
            forall|j: int|
                0 <= j < i && j != 8 && j != 15 ==> #[trigger] digits@[j] == digit_val(s@[j]),
            i > 8 ==> s@[8] == 'T',
            i > 15 ==> s@[15] == 'Z',
        decreases 16 - i,
    {
        let c = s.get_char(i);
        if i == 8 {
            if c != 'T' {
                return Err(timestamp_error(s));
            }
            digits.push(0);
        } else if i == 15 {
            if c != 'Z' {
                return Err(timestamp_error(s));
            }
            digits.push(0);
        } else {
            match digit_of(c) {
                Some(d) => {
                    digits.push(d);
                },
                None => {
                    return Err(timestamp_error(s));
                },
            }
        }
        i = i + 1;
    }
    assert(ts_format_ok(s@));
    let year: u16 = digits[0] as u16 * 1000 + digits[1] as u16 * 100 + digits[2] as u16 * 10
        + digits[3] as u16;
    let month: u8 = digits[4] * 10 + digits[5];
    let day: u8 = digits[6] * 10 + digits[7];
    let hour: u8 = digits[9] * 10 + digits[10];
    let minute: u8 = digits[11] * 10 + digits[12];
    let second: u8 = digits[13] * 10 + digits[14];
    let t = Timestamp { year, month, day, hour, minute, second };
    assert(t == ts_fields(s@));
    if month < 1 || month > 12 {
        return Err(timestamp_error(s));
    }
    if day < 1 || day > days_in_month_exec(year, month) {
        return Err(timestamp_error(s));
    }
    if hour > 23 || minute > 59 || second > 59 {
        return Err(timestamp_error(s));
    }
    assert(t.wf());
    Ok(t)
}

/// Returns the one-character string of a decimal digit value.
fn digit_str(d: u8) -> (r: &'static str)
    requires
        d <= 9,
    ensures
        r@ =~= seq![digit_char(d as int)],
{
    proof {
        reveal_strlit("0");
        reveal_strlit("1");
        reveal_strlit("2");
        reveal_strlit("3");
        reveal_strlit("4");
        reveal_strlit("5");
        reveal_strlit("6");
        reveal_strlit("7");
        reveal_strlit("8");
        reveal_strlit("9");
    }
    match d {
        0 => "0",
        1 => "1",
        2 => "2",
        3 => "3",
        4 => "4",
        5 => "5",
        6 => "6",
        7 => "7",
        8 => "8",
        _ => "9",
    }
}

/// Appends the two-digit decimal rendering of `n` to `out`.
fn append_two_digits(out: &mut String, n: u8)
    requires
        n <= 99,
    ensures
        final(out)@ == old(out)@ + seq![digit_char(n as int / 10), digit_char(n as int % 10)],
{
    out.append(digit_str(n / 10));
    out.append(digit_str(n % 10));
}

/// Renders `t` in the fixed format `YYYYMMDDTHHMMSSZ`.
pub fn format_utc_timestamp(t: &Timestamp) -> (r: String)
    requires
        t.wf(),
    ensures
        r@ == spec_format_timestamp(*t),
{
    proof {
        reveal_strlit("T");
        reveal_strlit("Z");
    }
    let mut out = String::new();
    out.append(digit_str((t.year / 1000) as u8));
    out.append(digit_str((t.year / 100 % 10) as u8));
    out.append(digit_str((t.year / 10 % 10) as u8));
    out.append(digit_str((t.year % 10) as u8));
    append_two_digits(&mut out, t.month);
    append_two_digits(&mut out, t.day);
    out.append("T");
    append_two_digits(&mut out, t.hour);
    append_two_digits(&mut out, t.minute);
    append_two_digits(&mut out, t.second);
    out.append("Z");
    assert(out@ =~= spec_format_timestamp(*t));
    out
}

/// Formatting a well-formed timestamp and parsing the result yields the
/// timestamp back: the fixed format is lossless.
pub proof fn lemma_timestamp_round_trip(t: Timestamp)
    requires
        t.wf(),
    ensures
        spec_parse_timestamp(spec_format_timestamp(t)) == Some(t),
{
    let s = spec_format_timestamp(t);
    let y = t.year as int;
    let mo = t.month as int;
    let d = t.day as int;
    let h = t.hour as int;
    let mi = t.minute as int;
    let se = t.second as int;
    lemma_digit_char_val(y / 1000);
    lemma_digit_char_val(y / 100 % 10);
    lemma_digit_char_val(y / 10 % 10);
    lemma_digit_char_val(y % 10);
    lemma_digit_char_val(mo / 10);
    lemma_digit_char_val(mo % 10);
    lemma_digit_char_val(d / 10);
    lemma_digit_char_val(d % 10);
    lemma_digit_char_val(h / 10);
    lemma_digit_char_val(h % 10);
    lemma_digit_char_val(mi / 10);
    lemma_digit_char_val(mi % 10);
    lemma_digit_char_val(se / 10);
    lemma_digit_char_val(se % 10);
    assert(ts_format_ok(s));
    assert(y / 1000 * 1000 + y / 100 % 10 * 100 + y / 10 % 10 * 10 + y % 10 == y) by (nonlinear_arith)
        requires
            0 <= y <= 9999,
    ;
    assert(mo / 10 * 10 + mo % 10 == mo) by (nonlinear_arith)
        requires
            0 <= mo <= 99,
    ;
    assert(d / 10 * 10 + d % 10 == d) by (nonlinear_arith)
        requires
            0 <= d <= 99,
    ;
    assert(h / 10 * 10 + h % 10 == h) by (nonlinear_arith)
        requires
            0 <= h <= 99,
    ;
    assert(mi / 10 * 10 + mi % 10 == mi) by (nonlinear_arith)
        requires
            0 <= mi <= 99,
    ;
    assert(se / 10 * 10 + se % 10 == se) by (nonlinear_arith)
        requires
            0 <= se <= 99,
    ;
    assert(ts_fields(s) == t);
}

} // verus!
