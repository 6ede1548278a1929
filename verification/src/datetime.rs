//! Civil date-times at second resolution, UTC.
//!
//! A [`DateTimeParts`] holds a proleptic-Gregorian calendar date and a time of
//! day. The module proves the catalog's textual format (`YYYY-MM-DDTHH:MM:SS`)
//! and the feed's date form against these parts, and ties parts to epoch
//! seconds through the standard civil-day count.

use chrono::Datelike;
use chrono::Timelike;
use vstd::prelude::*;
use vstd::string::StrSliceExecFns;
use vstd::string::StringExecFns;

verus! {

/// Earliest epoch second the library formats: 0000-01-01T00:00:00 UTC.
pub const MIN_UTC_EPOCH: i64 = -62167219200;

/// Latest epoch second the library formats: 9999-12-31T23:59:59 UTC.
pub const MAX_UTC_EPOCH: i64 = 253402300799;

#[derive(Clone, Copy, Debug, PartialEq, Eq, Structural)]
pub struct DateTimeParts {
    pub year: u32,
    pub month: u32,
    pub day: u32,
    pub hour: u32,
    pub minute: u32,
    pub second: u32,
}

pub open spec fn is_leap_year(y: int) -> bool {
    (y % 4 == 0 && y % 100 != 0) || y % 400 == 0
}

pub open spec fn days_in_month(y: int, m: int) -> int {
    if m == 2 {
        if is_leap_year(y) {
            29
        } else {
            28
        }
    } else if m == 4 || m == 6 || m == 9 || m == 11 {
        30
    } else {
        31
    }
}

impl DateTimeParts {
    /// A calendar-valid date and time of day in the formattable year range.
    pub open spec fn wf(self) -> bool {
        self.year <= 9999 && 1 <= self.month <= 12 && 1 <= self.day
            && self.day <= days_in_month(self.year as int, self.month as int) && self.hour < 24
            && self.minute < 60 && self.second < 60
    }

    /// The Unix epoch sentinel, 1970-01-01T00:00:00.
    pub open spec fn epoch_spec() -> DateTimeParts {
        DateTimeParts { year: 1970, month: 1, day: 1, hour: 0, minute: 0, second: 0 }
    }

    pub fn epoch() -> (r: DateTimeParts)
        ensures
            r == DateTimeParts::epoch_spec(),
    {
        DateTimeParts { year: 1970, month: 1, day: 1, hour: 0, minute: 0, second: 0 }
    }
}

/// Days since 1970-01-01 of the proleptic-Gregorian date `y-m-d`, for years
/// 0 through 9999 (the standard civil-from-days correspondence, computed over
/// 400-year eras; the year is shifted by 400 so every division is of a
/// non-negative number).
pub open spec fn days_from_civil(y: int, m: int, d: int) -> int {
    let z = (if m <= 2 { y - 1 } else { y }) + 400;
    let era = z / 400;
    let yoe = z - era * 400;
    let mp = if m > 2 { m - 3 } else { m + 9 };
    let doy = (153 * mp + 2) / 5 + d - 1;
    let doe = yoe * 365 + yoe / 4 - yoe / 100 + doy;
    (era - 1) * 146097 + doe - 719468
}

/// Seconds since the Unix epoch of the civil instant `p`, read as UTC.
pub open spec fn epoch_of_parts(p: DateTimeParts) -> int {
    days_from_civil(p.year as int, p.month as int, p.day as int) * 86400 + p.hour as int * 3600
        + p.minute as int * 60 + p.second as int
}

/// Days since the epoch of `y-m-d`, executable form.
pub fn civil_days(y: u32, m: u32, d: u32) -> (r: i64)
    requires
        y <= 9999,
        1 <= m <= 12,
        1 <= d <= 31,
    ensures
        r == days_from_civil(y as int, m as int, d as int),
{
    let z: u64 = if m <= 2 {
        y as u64 + 399
    } else {
        y as u64 + 400
    };
    let era: u64 = z / 400;
    let yoe: u64 = z - era * 400;
    let mp: u64 = if m > 2 {
        m as u64 - 3
    } else {
        m as u64 + 9
    };
    let doy: u64 = (153 * mp + 2) / 5 + d as u64 - 1;
    let doe: u64 = yoe * 365 + yoe / 4 - yoe / 100 + doy;
    era as i64 * 146097 - 146097 + doe as i64 - 719468
}

/// Epoch seconds of the civil instant `p`, executable form.
pub fn epoch_of(p: &DateTimeParts) -> (r: i64)
    requires
        p.wf(),
    ensures
        r == epoch_of_parts(*p),
        MIN_UTC_EPOCH <= r <= MAX_UTC_EPOCH,
{
    let days = civil_days(p.year, p.month, p.day);
    days * 86400 + p.hour as i64 * 3600 + p.minute as i64 * 60 + p.second as i64
}

pub open spec fn is_digit_char(c: char) -> bool {
    0x30 <= c as u32 <= 0x39
}

pub open spec fn digit_val(c: char) -> int {
    c as u32 as int - 0x30
}

/// The decimal digit character for `d` in 0..10.
pub open spec fn digit_char(d: int) -> char {
    if d == 0 {
        '0'
    } else if d == 1 {
        '1'
    } else if d == 2 {
        '2'
    } else if d == 3 {
        '3'
    } else if d == 4 {
        '4'
    } else if d == 5 {
        '5'
    } else if d == 6 {
        '6'
    } else if d == 7 {
        '7'
    } else if d == 8 {
        '8'
    } else {
        '9'
    }
}

fn digit_char_exec(d: u32) -> (c: char)
    requires
        d < 10,
    ensures
        c == digit_char(d as int),
{
    if d == 0 {
        '0'
    } else if d == 1 {
        '1'
    } else if d == 2 {
        '2'
    } else if d == 3 {
        '3'
    } else if d == 4 {
        '4'
    } else if d == 5 {
        '5'
    } else if d == 6 {
        '6'
    } else if d == 7 {
        '7'
    } else if d == 8 {
        '8'
    } else {
        '9'
    }
}

/// `v` written as two decimal digits, zero padded.
pub open spec fn pad2(v: int) -> Seq<char> {
    seq![digit_char(v / 10), digit_char(v % 10)]
}

/// `v` written as four decimal digits, zero padded.
pub open spec fn pad4(v: int) -> Seq<char> {
    seq![
        digit_char(v / 1000),
        digit_char((v / 100) % 10),
        digit_char((v / 10) % 10),
        digit_char(v % 10),
    ]
}

fn push_pad2(out: &mut String, v: u32)
    requires
        v < 100,
    ensures
        final(out)@ == old(out)@ + pad2(v as int),
{
    out.push(digit_char_exec(v / 10));
    out.push(digit_char_exec(v % 10));
    proof {
        assert(old(out)@.push(digit_char((v / 10) as int)).push(digit_char((v % 10) as int))
            =~= old(out)@ + pad2(v as int));
    }
}

fn push_pad4(out: &mut String, v: u32)
    requires
        v < 10000,
    ensures
        final(out)@ == old(out)@ + pad4(v as int),
{
    out.push(digit_char_exec(v / 1000));
    out.push(digit_char_exec((v / 100) % 10));
    out.push(digit_char_exec((v / 10) % 10));
    out.push(digit_char_exec(v % 10));
    proof {
        assert(old(out)@.push(digit_char((v / 1000) as int)).push(
            digit_char(((v / 100) % 10) as int),
        ).push(digit_char(((v / 10) % 10) as int)).push(digit_char((v % 10) as int)) =~= old(
            out,
        )@ + pad4(v as int));
    }
}

/// The catalog's textual datetime: `YYYY-MM-DDTHH:MM:SS`.
pub open spec fn format_iso(p: DateTimeParts) -> Seq<char> {
    pad4(p.year as int) + seq!['-'] + pad2(p.month as int) + seq!['-'] + pad2(p.day as int)
        + seq!['T'] + pad2(p.hour as int) + seq![':'] + pad2(p.minute as int) + seq![':'] + pad2(
        p.second as int,
    )
}

/// Write `p` in the catalog's `YYYY-MM-DDTHH:MM:SS` form.
pub fn format_iso_exec(p: &DateTimeParts) -> (r: String)
    requires
        p.wf(),
    ensures
        r@ == format_iso(*p),
{
    let mut out = String::new();
    push_pad4(&mut out, p.year);
    out.push('-');
    push_pad2(&mut out, p.month);
    out.push('-');
    push_pad2(&mut out, p.day);
    out.push('T');
    push_pad2(&mut out, p.hour);
    out.push(':');
    push_pad2(&mut out, p.minute);
    out.push(':');
    push_pad2(&mut out, p.second);
    proof {
        assert(out@ =~= format_iso(*p));
    }
    out
}

/// Parse a fixed-width datetime `YYYY-MM-DD{sep}HH:MM:SS`: nineteen
/// characters, decimal digits in the numeric positions, the given separator
/// between date and time, and calendar-valid field ranges.
pub open spec fn parse_datetime_spec(s: Seq<char>, sep: char) -> Option<DateTimeParts> {
    if s.len() == 19 && is_digit_char(s[0]) && is_digit_char(s[1]) && is_digit_char(s[2])
        && is_digit_char(s[3]) && s[4] == '-' && is_digit_char(s[5]) && is_digit_char(s[6])
        && s[7] == '-' && is_digit_char(s[8]) && is_digit_char(s[9]) && s[10] == sep
        && is_digit_char(s[11]) && is_digit_char(s[12]) && s[13] == ':' && is_digit_char(s[14])
        && is_digit_char(s[15]) && s[16] == ':' && is_digit_char(s[17]) && is_digit_char(s[18]) {
        let p = DateTimeParts {
            year: (digit_val(s[0]) * 1000 + digit_val(s[1]) * 100 + digit_val(s[2]) * 10
                + digit_val(s[3])) as u32,
            month: (digit_val(s[5]) * 10 + digit_val(s[6])) as u32,
            day: (digit_val(s[8]) * 10 + digit_val(s[9])) as u32,
            hour: (digit_val(s[11]) * 10 + digit_val(s[12])) as u32,
            minute: (digit_val(s[14]) * 10 + digit_val(s[15])) as u32,
            second: (digit_val(s[17]) * 10 + digit_val(s[18])) as u32,
        };
        if p.wf() {
            Some(p)
        } else {
            None
        }
    } else {
        None
    }
}

proof fn lemma_digit_char_val(d: int)
    requires
        0 <= d < 10,
    ensures
        is_digit_char(digit_char(d)),
        digit_val(digit_char(d)) == d,
{
}

/// A well-formed datetime written in the catalog's form parses back to
/// itself: the catalog's writer and its readers agree.
pub proof fn lemma_format_iso_round_trip(p: DateTimeParts)
    requires
        p.wf(),
    ensures
        parse_datetime_spec(format_iso(p), 'T') == Some(p),
{
    let s = format_iso(p);
    let y = p.year as int;
    let mo = p.month as int;
    let d = p.day as int;
    let h = p.hour as int;
    let mi = p.minute as int;
    let sec = p.second as int;
    assert(s.len() == 19);
    assert(s[0] == digit_char(y / 1000));
    assert(s[1] == digit_char((y / 100) % 10));
    assert(s[2] == digit_char((y / 10) % 10));
    assert(s[3] == digit_char(y % 10));
    assert(s[4] == '-');
    assert(s[5] == digit_char(mo / 10));
    assert(s[6] == digit_char(mo % 10));
    assert(s[7] == '-');
    assert(s[8] == digit_char(d / 10));
    assert(s[9] == digit_char(d % 10));
    assert(s[10] == 'T');
    assert(s[11] == digit_char(h / 10));
    assert(s[12] == digit_char(h % 10));
    assert(s[13] == ':');
    assert(s[14] == digit_char(mi / 10));
    assert(s[15] == digit_char(mi % 10));
    assert(s[16] == ':');
    assert(s[17] == digit_char(sec / 10));
    assert(s[18] == digit_char(sec % 10));
    lemma_digit_char_val(y / 1000);
    lemma_digit_char_val((y / 100) % 10);
    lemma_digit_char_val((y / 10) % 10);
    lemma_digit_char_val(y % 10);
    lemma_digit_char_val(mo / 10);
    lemma_digit_char_val(mo % 10);
    lemma_digit_char_val(d / 10);
    lemma_digit_char_val(d % 10);
    lemma_digit_char_val(h / 10);
    lemma_digit_char_val(h % 10);
    lemma_digit_char_val(mi / 10);
    lemma_digit_char_val(mi % 10);
    lemma_digit_char_val(sec / 10);
    lemma_digit_char_val(sec % 10);
    assert((y / 1000) * 1000 + ((y / 100) % 10) * 100 + ((y / 10) % 10) * 10 + y % 10 == y);
    assert((mo / 10) * 10 + mo % 10 == mo);
    assert((d / 10) * 10 + d % 10 == d);
    assert((h / 10) * 10 + h % 10 == h);
    assert((mi / 10) * 10 + mi % 10 == mi);
    assert((sec / 10) * 10 + sec % 10 == sec);
}

fn is_digit(c: char) -> (r: bool)
    ensures
        r == is_digit_char(c),
{
    let u = c as u32;
    0x30 <= u && u <= 0x39
}

fn digit(c: char) -> (r: u32)
    requires
        is_digit_char(c),
    ensures
        r == digit_val(c),
        r < 10,
{
    c as u32 - 0x30
}

fn days_in_month_exec(y: u32, m: u32) -> (r: u32)
    requires
        1 <= m <= 12,
    ensures
        r == days_in_month(y as int, m as int),
{
    if m == 2 {
        if (y % 4 == 0 && y % 100 != 0) || y % 400 == 0 {
            29
        } else {
            28
        }
    } else if m == 4 || m == 6 || m == 9 || m == 11 {
        30
    } else {
        31
    }
}

/// Parse `YYYY-MM-DD{sep}HH:MM:SS` with calendar validation.
pub fn parse_datetime(s: &str, sep: char) -> (r: Option<DateTimeParts>)
    ensures
        r == parse_datetime_spec(s@, sep),
        r matches Some(p) ==> p.wf(),
{
    if s.unicode_len() != 19 {
        return None;
    }
    let c0 = s.get_char(0);
    let c1 = s.get_char(1);
    let c2 = s.get_char(2);
    let c3 = s.get_char(3);
    let c5 = s.get_char(5);
    let c6 = s.get_char(6);
    let c8 = s.get_char(8);
    let c9 = s.get_char(9);
    let c11 = s.get_char(11);
    let c12 = s.get_char(12);
    let c14 = s.get_char(14);
    let c15 = s.get_char(15);
    let c17 = s.get_char(17);
    let c18 = s.get_char(18);
    if !(is_digit(c0) && is_digit(c1) && is_digit(c2) && is_digit(c3) && s.get_char(4) == '-'
        && is_digit(c5) && is_digit(c6) && s.get_char(7) == '-' && is_digit(c8) && is_digit(c9)
        && s.get_char(10) == sep && is_digit(c11) && is_digit(c12) && s.get_char(13) == ':'
        && is_digit(c14) && is_digit(c15) && s.get_char(16) == ':' && is_digit(c17) && is_digit(
        c18,
    )) {
        return None;
    }
    let p = DateTimeParts {
        year: digit(c0) * 1000 + digit(c1) * 100 + digit(c2) * 10 + digit(c3),
        month: digit(c5) * 10 + digit(c6),
        day: digit(c8) * 10 + digit(c9),
        hour: digit(c11) * 10 + digit(c12),
        minute: digit(c14) * 10 + digit(c15),
        second: digit(c17) * 10 + digit(c18),
    };
    if p.month < 1 || p.month > 12 || p.day < 1 || p.day > days_in_month_exec(p.year, p.month)
        || p.hour >= 24 || p.minute >= 60 || p.second >= 60 {
        return None;
    }
    Some(p)
}

/// Weekday abbreviation of the date: days since the epoch, shifted so the
/// dividend is non-negative, taken modulo the week.
pub open spec fn weekday_abbrev(days: int) -> Seq<char> {
    let w: int = (days + 719528) % 7;
    if w == 0 {
        seq!['S', 'a', 't']
    } else if w == 1 {
        seq!['S', 'u', 'n']
    } else if w == 2 {
        seq!['M', 'o', 'n']
    } else if w == 3 {
        seq!['T', 'u', 'e']
    } else if w == 4 {
        seq!['W', 'e', 'd']
    } else if w == 5 {
        seq!['T', 'h', 'u']
    } else {
        seq!['F', 'r', 'i']
    }
}

pub open spec fn month_abbrev(m: int) -> Seq<char> {
    if m == 1 {
        seq!['J', 'a', 'n']
    } else if m == 2 {
        seq!['F', 'e', 'b']
    } else if m == 3 {
        seq!['M', 'a', 'r']
    } else if m == 4 {
        seq!['A', 'p', 'r']
    } else if m == 5 {
        seq!['M', 'a', 'y']
    } else if m == 6 {
        seq!['J', 'u', 'n']
    } else if m == 7 {
        seq!['J', 'u', 'l']
    } else if m == 8 {
        seq!['A', 'u', 'g']
    } else if m == 9 {
        seq!['S', 'e', 'p']
    } else if m == 10 {
        seq!['O', 'c', 't']
    } else if m == 11 {
        seq!['N', 'o', 'v']
    } else {
        seq!['D', 'e', 'c']
    }
}

/// The feed's date form with a fixed UTC offset:
/// `Www, DD Mmm YYYY HH:MM:SS +0000`.
pub open spec fn format_rfc2822(p: DateTimeParts) -> Seq<char> {
    weekday_abbrev(days_from_civil(p.year as int, p.month as int, p.day as int)) + seq![',', ' ']
        + pad2(p.day as int) + seq![' '] + month_abbrev(p.month as int) + seq![' '] + pad4(
        p.year as int,
    ) + seq![' '] + pad2(p.hour as int) + seq![':'] + pad2(p.minute as int) + seq![':'] + pad2(
        p.second as int,
    ) + seq![' ', '+', '0', '0', '0', '0']
}

fn push_weekday(out: &mut String, days: i64)
    requires
        -719528 <= days <= 2932896,
    ensures
        final(out)@ == old(out)@ + weekday_abbrev(days as int),
{
    let w: i64 = (days + 719528) % 7;
    let name: &str = if w == 0 {
        "Sat"
    } else if w == 1 {
        "Sun"
    } else if w == 2 {
        "Mon"
    } else if w == 3 {
        "Tue"
    } else if w == 4 {
        "Wed"
    } else if w == 5 {
        "Thu"
    } else {
        "Fri"
    };
    out.append(name);
    proof {
        reveal_strlit("Sat");
        reveal_strlit("Sun");
        reveal_strlit("Mon");
        reveal_strlit("Tue");
        reveal_strlit("Wed");
        reveal_strlit("Thu");
        reveal_strlit("Fri");
        assert(final(out)@ =~= old(out)@ + weekday_abbrev(days as int));
    }
}

fn push_month(out: &mut String, m: u32)
    requires
        1 <= m <= 12,
    ensures
        final(out)@ == old(out)@ + month_abbrev(m as int),
{
    let name: &str = if m == 1 {
        "Jan"
    } else if m == 2 {
        "Feb"
    } else if m == 3 {
        "Mar"
    } else if m == 4 {
        "Apr"
    } else if m == 5 {
        "May"
    } else if m == 6 {
        "Jun"
    } else if m == 7 {
        "Jul"
    } else if m == 8 {
        "Aug"
    } else if m == 9 {
        "Sep"
    } else if m == 10 {
        "Oct"
    } else if m == 11 {
        "Nov"
    } else {
        "Dec"
    };
    out.append(name);
    proof {
        reveal_strlit("Jan");
        reveal_strlit("Feb");
        reveal_strlit("Mar");
        reveal_strlit("Apr");
        reveal_strlit("May");
        reveal_strlit("Jun");
        reveal_strlit("Jul");
        reveal_strlit("Aug");
        reveal_strlit("Sep");
        reveal_strlit("Oct");
        reveal_strlit("Nov");
        reveal_strlit("Dec");
        assert(final(out)@ =~= old(out)@ + month_abbrev(m as int));
    }
}

/// Write `p` in the feed's `Www, DD Mmm YYYY HH:MM:SS +0000` form.
pub fn format_rfc2822_exec(p: &DateTimeParts) -> (r: String)
    requires
        p.wf(),
    ensures
        r@ == format_rfc2822(*p),
{
    let days = civil_days(p.year, p.month, p.day);
    let mut out = String::new();
    push_weekday(&mut out, days);
    out.append(", ");
    push_pad2(&mut out, p.day);
    out.push(' ');
    push_month(&mut out, p.month);
    out.push(' ');
    push_pad4(&mut out, p.year);
    out.push(' ');
    push_pad2(&mut out, p.hour);
    out.push(':');
    push_pad2(&mut out, p.minute);
    out.push(':');
    push_pad2(&mut out, p.second);
    out.append(" +0000");
    proof {
        reveal_strlit(", ");
        reveal_strlit(" +0000");
        assert(out@ =~= format_rfc2822(*p));
    }
    out
}

/// What the feed shows for a catalog datetime string: the fixed-offset feed
/// date form when the string parses as `YYYY-MM-DDTHH:MM:SS`, the string
/// unchanged otherwise.
pub open spec fn rfc2822_of_catalog(s: Seq<char>) -> Seq<char> {
    match parse_datetime_spec(s, 'T') {
        Some(p) => format_rfc2822(p),
        None => s,
    }
}

/// Reformat a catalog datetime for the feed.
pub fn datetime_to_rfc2822(datetime: &str) -> (r: String)
    ensures
        r@ == rfc2822_of_catalog(datetime@),
{
    match parse_datetime(datetime, 'T') {
        Some(p) => format_rfc2822_exec(&p),
        None => datetime.to_owned(),
    }
}

/// Relies on `chrono::DateTime::<Utc>::from_timestamp` and the `Datelike` /
/// `Timelike` accessors: the result is the UTC civil form of `secs` in the
/// proleptic Gregorian calendar, i.e. the calendar-valid parts whose
/// [`epoch_of_parts`] count is exactly `secs` (chrono documents
/// `from_timestamp` as the inverse of `timestamp`, which counts non-leap
/// seconds since 1970-01-01T00:00:00 UTC).
#[verifier::external_body]
pub fn utc_parts_of_epoch(secs: i64) -> (p: DateTimeParts)
    requires
        MIN_UTC_EPOCH <= secs <= MAX_UTC_EPOCH,
    ensures
        p.wf(),
        epoch_of_parts(p) == secs as int,
{
    let dt = chrono::DateTime::<chrono::Utc>::from_timestamp(secs, 0).unwrap();
    DateTimeParts {
        year: dt.year() as u32,
        month: dt.month(),
        day: dt.day(),
        hour: dt.hour(),
        minute: dt.minute(),
        second: dt.second(),
    }
}


/// The time-of-day second count of `p`.
spec fn tod_of(p: DateTimeParts) -> int {
    p.hour as int * 3600 + p.minute as int * 60 + p.second as int
}

/// The calendar year shifted so the year starts in March, as the civil-day
/// formula counts it.
spec fn shifted_year(p: DateTimeParts) -> int {
    if p.month <= 2 {
        p.year - 1
    } else {
        p.year as int
    }
}

spec fn z_of(p: DateTimeParts) -> int {
    shifted_year(p) + 400
}

spec fn era_of(p: DateTimeParts) -> int {
    z_of(p) / 400
}

/// Year of the 400-year era, 0 through 399.
spec fn yoe_of(p: DateTimeParts) -> int {
    z_of(p) - era_of(p) * 400
}

/// Month counted from March as 0 through 11.
spec fn mp_of(p: DateTimeParts) -> int {
    if p.month > 2 {
        p.month - 3
    } else {
        p.month + 9
    }
}

/// Day of the March-first year, 0 through 365.
spec fn doy_of(p: DateTimeParts) -> int {
    (153 * mp_of(p) + 2) / 5 + p.day - 1
}

/// Days from the era's start to the start of era-year `k`.
spec fn era_days(k: int) -> int {
    k * 365 + k / 4 - k / 100
}

spec fn doe_of(p: DateTimeParts) -> int {
    era_days(yoe_of(p)) + doy_of(p)
}

/// First day-of-year of each month, per the civil-day formula.
spec fn month_doy_start(m: int) -> int {
    if m == 3 {
        0
    } else if m == 4 {
        31
    } else if m == 5 {
        61
    } else if m == 6 {
        92
    } else if m == 7 {
        122
    } else if m == 8 {
        153
    } else if m == 9 {
        184
    } else if m == 10 {
        214
    } else if m == 11 {
        245
    } else if m == 12 {
        275
    } else if m == 1 {
        306
    } else {
        337
    }
}

/// Two Euclidean decompositions over the same positive divisor agree.
proof fn lemma_div_unique_pair(q1: int, r1: int, q2: int, r2: int, m: int)
    requires
        m > 0,
        0 <= r1 < m,
        0 <= r2 < m,
        q1 * m + r1 == q2 * m + r2,
    ensures
        q1 == q2,
        r1 == r2,
{
    vstd::arithmetic::div_mod::lemma_fundamental_div_mod_converse(q1 * m + r1, m, q1, r1);
    vstd::arithmetic::div_mod::lemma_fundamental_div_mod_converse(q2 * m + r2, m, q2, r2);
}

/// An era-year adds 365 days, or 366 exactly at the formula's leap years.
proof fn lemma_era_days_step(k: int)
    requires
        0 <= k < 400,
    ensures
        era_days(k + 1) >= era_days(k) + 365,
        era_days(k + 1) <= era_days(k) + 366,
        (k + 1) % 4 == 0 && (k + 1) % 100 != 0 ==> era_days(k + 1) == era_days(k) + 366,
{
    vstd::arithmetic::div_mod::lemma_fundamental_div_mod(k + 1, 4);
    vstd::arithmetic::div_mod::lemma_mod_bound(k + 1, 4);
    let q4 = (k + 1) / 4;
    let r4 = (k + 1) % 4;
    if r4 == 0 {
        vstd::arithmetic::div_mod::lemma_fundamental_div_mod_converse(k, 4, q4 - 1, 3);
    } else {
        vstd::arithmetic::div_mod::lemma_fundamental_div_mod_converse(k, 4, q4, r4 - 1);
    }
    vstd::arithmetic::div_mod::lemma_fundamental_div_mod(k + 1, 100);
    vstd::arithmetic::div_mod::lemma_mod_bound(k + 1, 100);
    let q100 = (k + 1) / 100;
    let r100 = (k + 1) % 100;
    if r100 == 0 {
        vstd::arithmetic::div_mod::lemma_fundamental_div_mod_converse(k, 100, q100 - 1, 99);
        // A multiple of 100 is a multiple of 4.
        assert(k + 1 == 4 * (25 * q100) + 0) by {
            assert(k + 1 == 100 * q100);
        }
        vstd::arithmetic::div_mod::lemma_fundamental_div_mod_converse(k + 1, 4, 25 * q100, 0);
    } else {
        vstd::arithmetic::div_mod::lemma_fundamental_div_mod_converse(k, 100, q100, r100 - 1);
    }
}

/// Cumulative growth of [`era_days`].
proof fn lemma_era_days_mono(k1: int, k2: int)
    requires
        0 <= k1 <= k2 <= 400,
    ensures
        era_days(k2) >= era_days(k1) + 365 * (k2 - k1),
    decreases k2 - k1,
{
    if k1 < k2 {
        lemma_era_days_step(k2 - 1);
        lemma_era_days_mono(k1, k2 - 1);
    }
}

/// What a well-formed date pins down about the formula's intermediate
/// quantities.
proof fn lemma_civil_facts(p: DateTimeParts)
    requires
        p.wf(),
    ensures
        days_from_civil(p.year as int, p.month as int, p.day as int) == (era_of(p) - 1) * 146097
            + doe_of(p) - 719468,
        0 <= yoe_of(p) < 400,
        z_of(p) == era_of(p) * 400 + yoe_of(p),
        doy_of(p) == month_doy_start(p.month as int) + p.day - 1,
        0 <= doy_of(p) <= 365,
        doy_of(p) == 365 ==> p.month == 2 && p.day == 29,
        0 <= doe_of(p) < 146097,
        0 <= tod_of(p) < 86400,
{
    let z = z_of(p);
    vstd::arithmetic::div_mod::lemma_fundamental_div_mod(z, 400);
    vstd::arithmetic::div_mod::lemma_mod_bound(z, 400);
    assert(yoe_of(p) == z % 400);
    let yoe = yoe_of(p);
    // Bounds of the era-day count.
    vstd::arithmetic::div_mod::lemma_fundamental_div_mod(yoe, 4);
    vstd::arithmetic::div_mod::lemma_mod_bound(yoe, 4);
    vstd::arithmetic::div_mod::lemma_fundamental_div_mod(yoe, 100);
    vstd::arithmetic::div_mod::lemma_mod_bound(yoe, 100);
    assert(4 * (yoe / 4) <= yoe);
    assert(100 * (yoe / 100) <= yoe);
    assert(yoe / 4 <= 99);
    assert(0 <= yoe / 100 <= 3);
    if yoe >= 300 {
        assert(100 * (yoe / 100) >= yoe - 99);
        assert(yoe / 100 >= 3);
        assert(era_days(yoe) <= 399 * 365 + 99 - 3);
    } else {
        assert(4 * (yoe / 4) <= 299);
        assert(yoe / 4 <= 74);
        assert(era_days(yoe) <= 299 * 365 + 74);
    }
    assert(era_days(yoe) >= 0);
    // Month table: each month's day-of-year range.
    let m = p.month as int;
    let d = p.day as int;
    if m == 1 {
        assert(doy_of(p) == 306 + d - 1);
    } else if m == 2 {
        assert(doy_of(p) == 337 + d - 1);
        assert(d <= 29);
    } else if m == 3 {
        assert(doy_of(p) == 0 + d - 1);
    } else if m == 4 {
        assert(doy_of(p) == 31 + d - 1);
    } else if m == 5 {
        assert(doy_of(p) == 61 + d - 1);
    } else if m == 6 {
        assert(doy_of(p) == 92 + d - 1);
    } else if m == 7 {
        assert(doy_of(p) == 122 + d - 1);
    } else if m == 8 {
        assert(doy_of(p) == 153 + d - 1);
    } else if m == 9 {
        assert(doy_of(p) == 184 + d - 1);
    } else if m == 10 {
        assert(doy_of(p) == 214 + d - 1);
    } else if m == 11 {
        assert(doy_of(p) == 245 + d - 1);
    } else {
        assert(doy_of(p) == 275 + d - 1);
    }
}

/// With equal eras and equal day-of-era counts, the era-years agree: the
/// gap between era-years is at least a year's worth of days, and the one
/// overlap candidate — a leap day meeting a year start — would contradict
/// the calendar validity of the leap day.
proof fn lemma_yoe_unique(p1: DateTimeParts, p2: DateTimeParts)
    requires
        p1.wf(),
        p2.wf(),
        era_of(p1) == era_of(p2),
        doe_of(p1) == doe_of(p2),
        yoe_of(p1) <= yoe_of(p2),
    ensures
        yoe_of(p1) == yoe_of(p2),
{
    lemma_civil_facts(p1);
    lemma_civil_facts(p2);
    if yoe_of(p1) == yoe_of(p2) {
        // Nothing to argue.
    } else {
        lemma_yoe_strictly_less_impossible(p1, p2);
    }
}

/// The impossible case of [`lemma_yoe_unique`]: a strictly earlier era-year
/// with the same day-of-era count.
proof fn lemma_yoe_strictly_less_impossible(p1: DateTimeParts, p2: DateTimeParts)
    requires
        p1.wf(),
        p2.wf(),
        era_of(p1) == era_of(p2),
        doe_of(p1) == doe_of(p2),
        yoe_of(p1) < yoe_of(p2),
    ensures
        yoe_of(p1) == yoe_of(p2),
{
    lemma_civil_facts(p1);
    lemma_civil_facts(p2);
    let k1 = yoe_of(p1);
    let k2 = yoe_of(p2);
    lemma_era_days_step(k1);
    lemma_era_days_mono(k1 + 1, k2);
    // era_days(k2) >= era_days(k1) + 365 and the day-of-year offsets are at
    // most 365 apart, so the only fit is a leap-day meeting the next year.
    assert(k2 == k1 + 1);
    assert(doy_of(p1) == 365);
    assert(era_days(k1 + 1) == era_days(k1) + 365);
    assert(p1.month == 2 && p1.day == 29);
    assert(is_leap_year(p1.year as int)) by {
        assert(days_in_month(p1.year as int, 2) >= 29);
    }
    // The leap year written in era coordinates.
    let era = era_of(p1);
    let k = k1 + 1;
    assert(p1.year as int == 400 * (era - 1) + k) by {
        assert(z_of(p1) == era * 400 + k1);
        assert(shifted_year(p1) == p1.year - 1);
    }
    if k == 400 {
        // The next era-year would leave the era, yet k2 stays below 400.
        assert(k2 < 400);
    } else {
        let y = p1.year as int;
        assert(y == 4 * (100 * (era - 1)) + k);
        vstd::arithmetic::div_mod::lemma_mod_multiples_vanish(100 * (era - 1), k, 4);
        assert(y % 4 == k % 4);
        assert(y == 100 * (4 * (era - 1)) + k);
        vstd::arithmetic::div_mod::lemma_mod_multiples_vanish(4 * (era - 1), k, 100);
        assert(y % 100 == k % 100);
        assert(y == 400 * (era - 1) + k);
        vstd::arithmetic::div_mod::lemma_mod_multiples_vanish(era - 1, k, 400);
        assert(y % 400 == k % 400);
        assert(k % 400 == k) by {
            vstd::arithmetic::div_mod::lemma_fundamental_div_mod_converse(k, 400, 0, k);
        }
        assert(k % 4 == 0 && k % 100 != 0) by {
            vstd::arithmetic::div_mod::lemma_mod_bound(k, 4);
            vstd::arithmetic::div_mod::lemma_mod_bound(k, 100);
        }
        // But then the step from k1 to k is a 366-day step.
        assert(era_days(k) == era_days(k1) + 366);
    }
}

/// The calendar form of an epoch second count: the well-formed parts with
/// that count, unique by [`lemma_epoch_of_parts_injective`].
pub open spec fn civil_of_epoch(secs: int) -> DateTimeParts {
    choose|q: DateTimeParts| q.wf() && epoch_of_parts(q) == secs
}

/// Any well-formed parts are the calendar form of their own epoch count.
pub proof fn lemma_civil_of_epoch_unique(p: DateTimeParts)
    requires
        p.wf(),
    ensures
        civil_of_epoch(epoch_of_parts(p)) == p,
{
    let e = epoch_of_parts(p);
    assert(exists|q: DateTimeParts| q.wf() && epoch_of_parts(q) == e) by {
        assert(p.wf() && epoch_of_parts(p) == e);
    }
    lemma_epoch_of_parts_injective(p, civil_of_epoch(e));
}

/// The civil correspondence is one to one: distinct well-formed datetimes
/// have distinct epoch second counts.
pub proof fn lemma_epoch_of_parts_injective(p1: DateTimeParts, p2: DateTimeParts)
    requires
        p1.wf(),
        p2.wf(),
        epoch_of_parts(p1) == epoch_of_parts(p2),
    ensures
        p1 == p2,
{
    lemma_civil_facts(p1);
    lemma_civil_facts(p2);
    let days1 = days_from_civil(p1.year as int, p1.month as int, p1.day as int);
    let days2 = days_from_civil(p2.year as int, p2.month as int, p2.day as int);
    // Same epoch second: same day count and same time of day.
    lemma_div_unique_pair(days1, tod_of(p1), days2, tod_of(p2), 86400);
    lemma_div_unique_pair(
        p1.hour as int,
        p1.minute as int * 60 + p1.second as int,
        p2.hour as int,
        p2.minute as int * 60 + p2.second as int,
        3600,
    );
    lemma_div_unique_pair(p1.minute as int, p1.second as int, p2.minute as int, p2.second as int, 60);
    // Same day count: same era and same day of era.
    assert(days1 + 719468 + 146097 == era_of(p1) * 146097 + doe_of(p1));
    assert(days2 + 719468 + 146097 == era_of(p2) * 146097 + doe_of(p2));
    lemma_div_unique_pair(era_of(p1), doe_of(p1), era_of(p2), doe_of(p2), 146097);
    // Same day of era: same era-year and same day of year.
    if yoe_of(p1) <= yoe_of(p2) {
        lemma_yoe_unique(p1, p2);
    } else {
        lemma_yoe_unique(p2, p1);
    }
    assert(yoe_of(p1) == yoe_of(p2));
    assert(doy_of(p1) == doy_of(p2));
    // Same day of year: same month (the month ranges are disjoint) and day.
    assert(p1.month == p2.month);
    assert(p1.day == p2.day);
    // Same era, era-year and month: same calendar year.
    assert(z_of(p1) == z_of(p2));
    assert(p1.year == p2.year);
}

} // verus!
