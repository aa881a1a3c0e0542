//! Calendar dates, the statistics ranges built from them, and the date
//! texts shown in the views.

use vstd::prelude::*;
use vstd::utf8::*;
use vstd::string::StringSliceAdditionalSpecFns;
use chrono::{Datelike, Days, Local, NaiveDate, TimeDelta};
use crate::text::{digit_char, text_lt, lemma_digit_char_order, lemma_text_lt_concat, lemma_dec_ascii, lemma_zero_pad_ascii, dec, zero_pad, signed_zero_pad, push_char, push_str, push_zero_padded, push_signed_zero_padded};

verus! {

/// A calendar date of the proleptic Gregorian calendar.
#[derive(Clone, Copy, Debug, PartialEq, Eq, Structural)]
pub struct Ymd {
    pub year: i32,
    pub month: u32,
    pub day: u32,
}

/// The first year a date may have.
pub open spec fn min_year() -> int {
    -262143
}

/// The last year a date may have.
pub open spec fn max_year() -> int {
    262142
}

pub open spec fn is_leap(y: int) -> bool {
    (y % 4 == 0 && y % 100 != 0) || y % 400 == 0
}

pub open spec fn days_in_month(y: int, m: int) -> int {
    if m == 2 {
        if is_leap(y) {
            29
        } else {
            28
        }
    } else if m == 4 || m == 6 || m == 9 || m == 11 {
        30
    } else {
        31
    }
}

/// A date that exists and lies in the supported range.
pub open spec fn valid_ymd(d: Ymd) -> bool {
    &&& min_year() <= d.year <= max_year()
    &&& 1 <= d.month <= 12
    &&& 1 <= d.day <= days_in_month(d.year as int, d.month as int)
}

/// The earliest supported date.
pub open spec fn min_date() -> Ymd {
    Ymd { year: -262143i32, month: 1, day: 1 }
}

/// The latest supported date.
pub open spec fn max_date() -> Ymd {
    Ymd { year: 262142i32, month: 12, day: 31 }
}

/// Days from 1970-01-01 to the date (negative before it).
pub open spec fn day_number(d: Ymd) -> int {
    let y: int = if d.month <= 2 { d.year - 1 } else { d.year as int };
    let era: int = y / 400;
    let yoe: int = y - era * 400;
    let mp: int = if d.month > 2 { d.month - 3 } else { d.month + 9 };
    let doy: int = (153 * mp + 2) / 5 + d.day - 1;
    let doe: int = yoe * 365 + yoe / 4 - yoe / 100 + doy;
    era * 146097 + doe - 719468
}

/// Day of the week counted from Monday (0) to Sunday (6).
pub open spec fn weekday(d: Ymd) -> int {
    (day_number(d) + 3) % 7
}

/// Chronological order of two dates (their fields compared in turn).
pub open spec fn ymd_lt(a: Ymd, b: Ymd) -> bool {
    a.year < b.year || (a.year == b.year && (a.month < b.month || (a.month == b.month && a.day
        < b.day)))
}

pub open spec fn ymd_le(a: Ymd, b: Ymd) -> bool {
    ymd_lt(a, b) || a == b
}

/// The month after `(y, m)`.
pub open spec fn next_month(y: int, m: int) -> (int, int) {
    if m == 12 {
        (y + 1, 1)
    } else {
        (y, m + 1)
    }
}

pub open spec fn first_day(y: int, m: int) -> Ymd {
    Ymd { year: y as i32, month: m as u32, day: 1 }
}

pub open spec fn last_day(y: int, m: int) -> Ymd {
    Ymd { year: y as i32, month: m as u32, day: days_in_month(y, m) as u32 }
}

/// Moving to the next month advances the day number by the month's length.
pub proof fn lemma_next_month(y: int, m: int)
    requires
        min_year() <= y <= max_year(),
        1 <= m <= 12,
        m == 12 ==> y < max_year(),
    ensures
        day_number(first_day(y, m)) + days_in_month(y, m) == day_number(
            first_day(next_month(y, m).0, next_month(y, m).1),
        ),
{
    let yp: int = y - 1;
    let era: int = yp / 400;
    let yoe: int = yp - era * 400;
    if m == 2 {
        let era2: int = y / 400;
        let yoe2: int = y - era2 * 400;
        assert(0 <= yoe < 400);
        if yoe < 399 {
            assert(era2 == era);
            assert(yoe2 == yoe + 1);
            assert(y % 4 == yoe2 % 4);
            assert(y % 100 == yoe2 % 100);
            assert(y % 400 == yoe2 % 400);
        } else {
            assert(era2 == era + 1);
            assert(yoe2 == 0);
            assert(y % 400 == 0);
        }
    }
}


/// Within a month the day number grows with the day.
pub proof fn lemma_within_month(d: Ymd)
    ensures
        day_number(d) == day_number(first_day(d.year as int, d.month as int)) + d.day - 1,
{
}

/// Later dates have larger day numbers.
pub proof fn lemma_day_number_increasing(a: Ymd, b: Ymd)
    requires
        valid_ymd(a),
        valid_ymd(b),
        ymd_lt(a, b),
    ensures
        day_number(a) < day_number(b),
    decreases (b.year * 12 + b.month) - (a.year * 12 + a.month),
{
    lemma_within_month(a);
    lemma_within_month(b);
    if a.year == b.year && a.month == b.month {
    } else {
        let y = a.year as int;
        let m = a.month as int;
        lemma_next_month(y, m);
        let (ny, nm) = next_month(y, m);
        let f = first_day(ny, nm);
        if ny == b.year && nm == b.month {
        } else {
            assert(valid_ymd(f));
            lemma_day_number_increasing(f, b);
        }
    }
}

/// The day-number order is the calendar order.
pub proof fn lemma_day_number_order(a: Ymd, b: Ymd)
    requires
        valid_ymd(a),
        valid_ymd(b),
    ensures
        ymd_lt(a, b) <==> day_number(a) < day_number(b),
        a == b <==> day_number(a) == day_number(b),
{
    if ymd_lt(a, b) {
        lemma_day_number_increasing(a, b);
    } else if ymd_lt(b, a) {
        lemma_day_number_increasing(b, a);
    }
}

/// Every supported date lies between the first and the last one.
pub proof fn lemma_day_number_bounds(d: Ymd)
    requires
        valid_ymd(d),
    ensures
        day_number(min_date()) <= day_number(d) <= day_number(max_date()),
{
    lemma_day_number_order(min_date(), d);
    lemma_day_number_order(d, max_date());
}


// ── Clock ──────────────────────────────────────────────────────────────────

/// The local calendar date (`chrono::Local::now().date_naive()`); any date
/// chrono yields lies in the supported range.
#[verifier::external_body]
pub(crate) fn today() -> (r: Ymd)
    ensures
        valid_ymd(r),
{
    let d = Local::now().date_naive();
    Ymd { year: d.year(), month: d.month(), day: d.day() }
}

/// `s` is the `%Y-%m-%dT%H:%M:%S` text of some time on a supported day
/// (the second may read 60 during a leap second).
pub open spec fn is_datetime_text(s: Seq<char>) -> bool {
    exists|d: Ymd, h: nat, m: nat, sec: nat|
        valid_ymd(d) && h < 24 && m < 60 && sec <= 60 && s == #[trigger] datetime_text(d, h, m, sec)
}

/// The local time as `%Y-%m-%dT%H:%M:%S`
/// (`chrono::Local::now().format(..).to_string()`). Which time is read
/// depends on the clock; what is stated is the form chrono's formatter
/// writes: the date of a supported day, the hour, minute and second (60
/// only within a leap second), all ASCII.
#[verifier::external_body]
pub(crate) fn now_iso() -> (r: String)
    ensures
        is_ascii_chars(r@),
        is_datetime_text(r@),
{
    Local::now().format("%Y-%m-%dT%H:%M:%S").to_string()
}

/// The local date `n` days before now
/// (`(chrono::Local::now() - TimeDelta::days(n)).date_naive()`). chrono
/// panics on the subtraction only when the clock reads a time within `n`
/// days of the earliest date it represents; that case is left unsaid.
#[verifier::external_body]
fn local_date_days_ago(n: i64) -> (r: Ymd)
    requires
        0 <= n <= 36500,
    ensures
        valid_ymd(r),
{
    let d = (Local::now() - TimeDelta::days(n)).date_naive();
    Ymd { year: d.year(), month: d.month(), day: d.day() }
}

/// The current year and month.
pub fn current_ym() -> (r: (i32, u32))
    ensures
        min_year() <= r.0 <= max_year(),
        1 <= r.1 <= 12,
{
    let t = today();
    (t.year, t.month)
}

// ── Date arithmetic (chrono) ───────────────────────────────────────────────

/// The first day of a month (`NaiveDate::from_ymd_opt(y, m, 1).unwrap()`,
/// which exists for every month of the supported years).
#[verifier::external_body]
pub(crate) fn first_of_month(y: i32, m: u32) -> (r: Ymd)
    requires
        min_year() <= y <= max_year(),
        1 <= m <= 12,
    ensures
        r == first_day(y as int, m as int),
{
    let d = NaiveDate::from_ymd_opt(y, m, 1).unwrap();
    Ymd { year: d.year(), month: d.month(), day: d.day() }
}

/// The date `n` days earlier (`NaiveDate - Days::new(n)`), which chrono
/// yields whenever it is still in range.
#[verifier::external_body]
fn date_sub_days(d: Ymd, n: u64) -> (r: Ymd)
    requires
        valid_ymd(d),
        day_number(d) - n >= day_number(min_date()),
    ensures
        valid_ymd(r),
        day_number(r) == day_number(d) - n,
{
    let nd = NaiveDate::from_ymd_opt(d.year, d.month, d.day).unwrap() - Days::new(n);
    Ymd { year: nd.year(), month: nd.month(), day: nd.day() }
}

/// The date `n` days later (`NaiveDate + Days::new(n)`), which chrono yields
/// whenever it is still in range.
#[verifier::external_body]
pub(crate) fn date_add_days(d: Ymd, n: u64) -> (r: Ymd)
    requires
        valid_ymd(d),
        day_number(d) + n <= day_number(max_date()),
    ensures
        valid_ymd(r),
        day_number(r) == day_number(d) + n,
{
    let nd = NaiveDate::from_ymd_opt(d.year, d.month, d.day).unwrap() + Days::new(n);
    Ymd { year: nd.year(), month: nd.month(), day: nd.day() }
}

/// The date moved by `n` days in either direction
/// (`NaiveDate + TimeDelta::days(n)`), which chrono yields whenever it is
/// still in range.
#[verifier::external_body]
fn date_shift_days(d: Ymd, n: i64) -> (r: Ymd)
    requires
        valid_ymd(d),
        day_number(min_date()) <= day_number(d) + n <= day_number(max_date()),
    ensures
        valid_ymd(r),
        day_number(r) == day_number(d) + n,
{
    let nd = NaiveDate::from_ymd_opt(d.year, d.month, d.day).unwrap() + TimeDelta::days(n);
    Ymd { year: nd.year(), month: nd.month(), day: nd.day() }
}

/// The day of the week counted from Monday
/// (`NaiveDate::weekday().num_days_from_monday()`).
#[verifier::external_body]
fn weekday_from_monday(d: Ymd) -> (r: u32)
    requires
        valid_ymd(d),
    ensures
        r == weekday(d),
{
    NaiveDate::from_ymd_opt(d.year, d.month, d.day).unwrap().weekday().num_days_from_monday()
}

/// What `NaiveDate::parse_from_str(s, "%Y-%m-%d")` yields for a text, as
/// year, month and day.
pub uninterp spec fn parsed_date(s: Seq<char>) -> Option<(i32, u32, u32)>;

/// The date read from a text, as a `Ymd`.
pub open spec fn parsed_ymd(s: Seq<char>) -> Option<Ymd> {
    match parsed_date(s) {
        Some(t) => Some(Ymd { year: t.0, month: t.1, day: t.2 }),
        None => None,
    }
}

/// Reads a `%Y-%m-%d` date (`NaiveDate::parse_from_str`); a date chrono
/// yields always exists and lies in the supported range.
#[verifier::external_body]
pub(crate) fn parse_date(s: &str) -> (r: Option<Ymd>)
    ensures
        r is Some <==> parsed_date(s@) is Some,
        r matches Some(d) ==> parsed_date(s@) == Some((d.year, d.month, d.day)) && valid_ymd(d),
{
    match NaiveDate::parse_from_str(s, "%Y-%m-%d") {
        Ok(d) => Some(Ymd { year: d.year(), month: d.month(), day: d.day() }),
        Err(_) => None,
    }
}

// ── Months and ranges ─────────────────────────────────────────────────────

/// The year and month `delta` months after `(y, m)` (month `m` counted from 1).
pub open spec fn months_after(y: int, m: int, delta: int) -> (int, int) {
    let total = y * 12 + (m - 1) + delta;
    (total / 12, total % 12 + 1)
}

/// Moves `delta` months from year `y`, month `m`.
pub fn add_months(y: i32, m: u32, delta: i32) -> (r: (i32, u32))
    ensures
        r.0 == months_after(y as int, m as int, delta as int).0 as i32,
        r.1 == months_after(y as int, m as int, delta as int).1,
{
    let total: i64 = (y as i64) * 12 + (m as i64 - 1) + delta as i64;
    let shift: i64 = 12 * 0x10_0000_0000;
    let t: u64 = (total + shift) as u64;
    let q: i64 = (t / 12) as i64 - 0x10_0000_0000;
    let rem: u64 = t % 12;
    proof {
        let tt = total as int;
        assert(t as int == tt + shift);
        assert((tt + shift) / 12 == tt / 12 + 0x10_0000_0000) by (nonlinear_arith)
            requires shift == 12 * 0x10_0000_0000;
        assert((tt + shift) % 12 == tt % 12) by (nonlinear_arith)
            requires shift == 12 * 0x10_0000_0000;
    }
    (q as i32, (rem + 1) as u32)
}

/// `(first, last)` day of a month.
pub fn month_bounds(y: i32, m: u32) -> (r: (Ymd, Ymd))
    requires
        min_year() <= y <= max_year(),
        1 <= m <= 12,
        m == 12 ==> y < max_year(),
    ensures
        r.0 == first_day(y as int, m as int),
        r.1 == last_day(y as int, m as int),
{
    let (ny, nm) = add_months(y, m, 1);
    assert(ny as int == next_month(y as int, m as int).0 && nm as int == next_month(
        y as int,
        m as int,
    ).1);
    let first = first_of_month(y, m);
    let next = first_of_month(ny, nm);
    proof {
        lemma_next_month(y as int, m as int);
        lemma_day_number_bounds(first);
    }
    let last = date_sub_days(next, 1);
    proof {
        let want = last_day(y as int, m as int);
        lemma_within_month(want);
        lemma_day_number_order(last, want);
    }
    (first, last)
}

/// How the statistics view groups its range.
#[derive(Clone, Copy, Debug, PartialEq, Eq, Structural)]
pub enum StatsPeriod {
    Week,
    Month,
}

/// The week range `(monday + 7 * offset, that day + 6)` can be built from `today`.
pub open spec fn week_range_fits(week_offset: int, today: Ymd) -> bool {
    let monday = day_number(today) - weekday(today);
    &&& day_number(min_date()) <= monday
    &&& day_number(min_date()) <= monday + 7 * week_offset
    &&& monday + 7 * week_offset + 6 <= day_number(max_date())
}

/// The month range of `(y, m)` can be built.
pub open spec fn month_range_fits(y: int, m: int) -> bool {
    &&& min_year() <= y <= max_year()
    &&& 1 <= m <= 12
    &&& m == 12 ==> y < max_year()
}

/// `[s, e]` is the statistics range of the selection: the month, or the week
/// `week_offset` weeks from the one holding `today`, Monday to Sunday.
pub open spec fn is_stats_range(
    period: StatsPeriod,
    month: (i32, u32),
    week_offset: int,
    today: Ymd,
    s: Ymd,
    e: Ymd,
) -> bool {
    match period {
        StatsPeriod::Month => s == first_day(month.0 as int, month.1 as int) && e == last_day(
            month.0 as int,
            month.1 as int,
        ),
        StatsPeriod::Week => {
            &&& valid_ymd(s)
            &&& valid_ymd(e)
            &&& day_number(s) == day_number(today) - weekday(today) + 7 * week_offset
            &&& day_number(e) == day_number(s) + 6
        },
    }
}

/// The statistics range of the selection can be built.
pub open spec fn stats_range_fits(period: StatsPeriod, month: (i32, u32), week_offset: int, today: Ymd) -> bool {
    match period {
        StatsPeriod::Month => month_range_fits(month.0 as int, month.1 as int),
        StatsPeriod::Week => week_range_fits(week_offset, today),
    }
}

/// The statistics range: the selected month, or the week `week_offset` weeks
/// from the current one (Monday to Sunday).
pub fn range_bounds(period: StatsPeriod, month: (i32, u32), week_offset: i32, today: Ymd) -> (r: (
    Ymd,
    Ymd,
))
    requires
        valid_ymd(today),
        stats_range_fits(period, month, week_offset as int, today),
    ensures
        is_stats_range(period, month, week_offset as int, today, r.0, r.1),
{
    match period {
        StatsPeriod::Month => month_bounds(month.0, month.1),
        StatsPeriod::Week => {
            let wd = weekday_from_monday(today) as u64;
            let monday = date_sub_days(today, wd);
            let start = date_shift_days(monday, week_offset as i64 * 7);
            let end = date_shift_days(start, 6);
            (start, end)
        },
    }
}

/// The day number of a date, computed.
pub fn day_num(d: Ymd) -> (r: i64)
    requires
        valid_ymd(d),
    ensures
        r == day_number(d),
{
    let y: i64 = if d.month <= 2 { d.year as i64 - 1 } else { d.year as i64 };
    let shifted: u64 = (y + 400000) as u64;
    let era: i64 = (shifted / 400) as i64 - 1000;
    proof {
        let yy = y as int;
        assert((yy + 400000) / 400 == yy / 400 + 1000) by (nonlinear_arith);
        assert(0 <= yy - (yy / 400) * 400 < 400) by (nonlinear_arith);
    }
    let yoe: u64 = (y - era * 400) as u64;
    let mp: u64 = if d.month > 2 { d.month as u64 - 3 } else { d.month as u64 + 9 };
    let doy: u64 = (153 * mp + 2) / 5 + d.day as u64 - 1;
    let doe: u64 = yoe * 365 + yoe / 4 - yoe / 100 + doy;
    era * 146097 + doe as i64 - 719468
}

/// Whether the statistics range of the selection can be built.
pub fn stats_range_ok(period: StatsPeriod, month: (i32, u32), week_offset: i32, today: Ymd) -> (r: bool)
    requires
        valid_ymd(today),
    ensures
        r == stats_range_fits(period, month, week_offset as int, today),
{
    match period {
        StatsPeriod::Month => {
            let (y, m) = month;
            -262143 <= y && y <= 262142 && 1 <= m && m <= 12 && (m != 12 || y < 262142)
        },
        StatsPeriod::Week => {
            let lo = day_num(Ymd { year: -262143, month: 1, day: 1 });
            let hi = day_num(Ymd { year: 262142, month: 12, day: 31 });
            let monday = day_num(today) - weekday_from_monday(today) as i64;
            let start = monday + 7 * (week_offset as i64);
            lo <= monday && lo <= start && start + 6 <= hi
        },
    }
}

// ── Slicing timestamp texts ────────────────────────────────────────────────

/// The characters encoded by bytes `lo..hi` of the UTF-8 form of `s`.
pub open spec fn byte_slice(s: Seq<char>, lo: int, hi: int) -> Seq<char> {
    decode_utf8(encode_utf8(s).subrange(lo, hi))
}

/// `&s[lo..hi]`, a byte range that starts and ends on character boundaries.
#[verifier::external_body]
pub(crate) fn str_slice(s: &str, lo: usize, hi: usize) -> (r: &str)
    requires
        lo <= hi <= s.spec_bytes().len(),
        is_char_boundary(s.spec_bytes(), lo as int),
        is_char_boundary(s.spec_bytes(), hi as int),
    ensures
        r.spec_bytes() == s.spec_bytes().subrange(lo as int, hi as int),
{
    &s[lo..hi]
}

/// A byte slice of `s` as an owned string.
fn slice_string(s: &str, lo: usize, hi: usize) -> (r: String)
    requires
        lo <= hi <= s.spec_bytes().len(),
        is_char_boundary(s.spec_bytes(), lo as int),
        is_char_boundary(s.spec_bytes(), hi as int),
    ensures
        r@ == byte_slice(s@, lo as int, hi as int),
{
    let t = str_slice(s, lo, hi);
    proof {
        encode_utf8_decode_utf8(t@);
    }
    t.to_owned()
}

/// The date part of an ISO datetime: its first ten bytes, or the whole text
/// when it is shorter.
pub open spec fn date_part_text(s: Seq<char>) -> Seq<char> {
    if encode_utf8(s).len() >= 10 {
        byte_slice(s, 0, 10)
    } else {
        s
    }
}

/// The first ten bytes of `s` end on a character boundary when there are ten.
pub open spec fn date_part_ok(s: Seq<char>) -> bool {
    encode_utf8(s).len() >= 10 ==> is_char_boundary(encode_utf8(s), 10)
}

/// The `YYYY-MM-DD` part of an ISO datetime (or the whole text if shorter).
pub fn date_part(iso: &str) -> (r: String)
    requires
        date_part_ok(iso@),
    ensures
        r@ == date_part_text(iso@),
{
    if iso.as_bytes().len() >= 10 {
        proof {
            broadcast use encode_utf8_valid_utf8, is_char_boundary_start_end_of_seq;
        }
        assert(iso.spec_bytes().len() >= 10);
        assert(encode_utf8(iso@).len() >= 10);
        let r = slice_string(iso, 0, 10);
        assert(r@ == byte_slice(iso@, 0, 10));
        r
    } else {
        iso.to_owned()
    }
}

/// Whether an ISO datetime (or date) falls on a day of `[s, e]`.
pub open spec fn iso_in_range_spec(iso: Seq<char>, s: Ymd, e: Ymd) -> bool {
    match parsed_ymd(date_part_text(iso)) {
        Some(d) => ymd_le(s, d) && ymd_le(d, e),
        None => false,
    }
}

fn ymd_le_exec(a: Ymd, b: Ymd) -> (r: bool)
    ensures
        r == ymd_le(a, b),
{
    a.year < b.year || (a.year == b.year && (a.month < b.month || (a.month == b.month && a.day
        <= b.day)))
}

/// Whether an ISO datetime (or date) falls on `[s, e]`.
pub fn iso_in_range(iso: &str, s: Ymd, e: Ymd) -> (r: bool)
    requires
        date_part_ok(iso@),
    ensures
        r == iso_in_range_spec(iso@, s, e),
{
    let part = date_part(iso);
    match parse_date(part.as_str()) {
        Some(d) => ymd_le_exec(s, d) && ymd_le_exec(d, e),
        None => false,
    }
}

/// Bytes 5..10 of a `YYYY-MM-DD` day (its `MM-DD`), or the whole text if shorter.
pub open spec fn month_day_text(day: Seq<char>) -> Seq<char> {
    if encode_utf8(day).len() >= 10 {
        byte_slice(day, 5, 10)
    } else {
        day
    }
}

/// Bytes 5 and 10 of the text are character boundaries when it has ten.
pub open spec fn month_day_ok(day: Seq<char>) -> bool {
    encode_utf8(day).len() >= 10 ==> is_char_boundary(encode_utf8(day), 5) && is_char_boundary(
        encode_utf8(day),
        10,
    )
}

/// The `MM-DD` part of a `YYYY-MM-DD` day.
pub fn month_day(day: &str) -> (r: String)
    requires
        month_day_ok(day@),
    ensures
        r@ == month_day_text(day@),
{
    if day.as_bytes().len() >= 10 {
        proof {
            broadcast use encode_utf8_valid_utf8;
        }
        slice_string(day, 5, 10)
    } else {
        day.to_owned()
    }
}

/// The Chinese weekday names, Monday first.
pub open spec fn weekday_name(i: int) -> Seq<char> {
    if i == 0 {
        "周一"@
    } else if i == 1 {
        "周二"@
    } else if i == 2 {
        "周三"@
    } else if i == 3 {
        "周四"@
    } else if i == 4 {
        "周五"@
    } else if i == 5 {
        "周六"@
    } else {
        "周日"@
    }
}

/// The weekday name of a `YYYY-MM-DD` day, or an empty text when it does not parse.
pub open spec fn weekday_cn_text(day: Seq<char>) -> Seq<char> {
    match parsed_ymd(day) {
        Some(d) => weekday_name(weekday(d)),
        None => ""@,
    }
}

/// The Chinese weekday of a `YYYY-MM-DD` day ("" if it does not parse).
pub fn weekday_cn(day: &str) -> (r: &'static str)
    ensures
        r@ == weekday_cn_text(day@),
{
    match parse_date(day) {
        Some(d) => {
            let w = weekday_from_monday(d);
            if w == 0 {
                "周一"
            } else if w == 1 {
                "周二"
            } else if w == 2 {
                "周三"
            } else if w == 3 {
                "周四"
            } else if w == 4 {
                "周五"
            } else if w == 5 {
                "周六"
            } else {
                "周日"
            }
        },
        None => "",
    }
}

/// Bytes 11..16 (`HH:MM`) of a datetime of at least 19 bytes, else empty.
pub open spec fn format_time_text(iso: Option<Seq<char>>) -> Seq<char> {
    match iso {
        Some(s) => if encode_utf8(s).len() >= 19 {
            byte_slice(s, 11, 16)
        } else {
            Seq::empty()
        },
        None => Seq::empty(),
    }
}

/// Bytes 11 and 16 are character boundaries of a datetime of at least 19 bytes.
pub open spec fn format_time_ok(iso: Option<Seq<char>>) -> bool {
    match iso {
        Some(s) => encode_utf8(s).len() >= 19 ==> is_char_boundary(encode_utf8(s), 11)
            && is_char_boundary(encode_utf8(s), 16),
        None => true,
    }
}

pub open spec fn opt_view(o: Option<String>) -> Option<Seq<char>> {
    match o {
        Some(s) => Some(s@),
        None => None,
    }
}

/// The `HH:MM` of a completion time, or an empty text.
pub fn format_time(iso: &Option<String>) -> (r: String)
    requires
        format_time_ok(opt_view(*iso)),
    ensures
        r@ == format_time_text(opt_view(*iso)),
{
    match iso {
        Some(s) => {
            if s.as_str().as_bytes().len() >= 19 {
                proof {
                    broadcast use encode_utf8_valid_utf8;
                }
                slice_string(s.as_str(), 11, 16)
            } else {
                String::new()
            }
        },
        None => String::new(),
    }
}

/// In an ASCII text every byte index is a character boundary.
pub proof fn lemma_ascii_boundary(s: Seq<char>, i: int)
    requires
        is_ascii_chars(s),
        0 <= i <= s.len(),
    ensures
        encode_utf8(s).len() == s.len(),
        is_char_boundary(encode_utf8(s), i),
{
    broadcast use encode_utf8_valid_utf8, is_ascii_chars_encode_utf8, is_char_boundary_start_end_of_seq;

    if i < s.len() {
        is_char_boundary_iff_not_is_continuation_byte(encode_utf8(s), i);
        assert(encode_utf8(s)[i] == s[i] as u8);
    }
}

/// An ASCII text can be cut at its tenth byte.
pub proof fn lemma_ascii_date_part_ok(s: Seq<char>)
    requires
        is_ascii_chars(s),
    ensures
        date_part_ok(s),
{
    lemma_ascii_boundary(s, 0);
    if s.len() >= 10 {
        lemma_ascii_boundary(s, 10);
    }
}

// ── Date texts ─────────────────────────────────────────────────────────────

/// A number below 100 in two digits.
pub open spec fn two_digits(n: nat) -> Seq<char> {
    zero_pad(dec(n), 2)
}

/// The year as chrono's `%Y` prints it: four digits with zeros in front for
/// years 0 to 9999, else a sign and at least four digits.
pub open spec fn year_text(y: int) -> Seq<char> {
    if 0 <= y <= 9999 {
        zero_pad(dec(y as nat), 4)
    } else if y < 0 {
        seq!['-'] + zero_pad(dec((-y) as nat), 4)
    } else {
        seq!['+'] + zero_pad(dec(y as nat), 4)
    }
}

/// `%Y-%m-%d`.
pub open spec fn ymd_text(d: Ymd) -> Seq<char> {
    year_text(d.year as int) + seq!['-'] + two_digits(d.month as nat) + seq!['-'] + two_digits(
        d.day as nat,
    )
}

/// `%Y-%m-%dT%H:%M:%S`.
pub open spec fn datetime_text(d: Ymd, h: nat, m: nat, s: nat) -> Seq<char> {
    ymd_text(d) + seq!['T'] + two_digits(h) + seq![':'] + two_digits(m) + seq![':'] + two_digits(s)
}

/// `%m-%d`.
pub open spec fn md_dash_text(d: Ymd) -> Seq<char> {
    two_digits(d.month as nat) + seq!['-'] + two_digits(d.day as nat)
}

/// `%m月%d日`.
pub open spec fn md_cn_text(d: Ymd) -> Seq<char> {
    two_digits(d.month as nat) + "月"@ + two_digits(d.day as nat) + "日"@
}

/// Two ASCII texts joined are ASCII.
pub proof fn lemma_concat_ascii(a: Seq<char>, b: Seq<char>)
    requires
        is_ascii_chars(a),
        is_ascii_chars(b),
    ensures
        is_ascii_chars(a + b),
{
    assert forall|i: int| 0 <= i < (a + b).len() implies '\0' <= #[trigger] (a + b)[i] <= '\u{7f}' by {
        if i < a.len() {
            assert((a + b)[i] == a[i]);
        } else {
            assert((a + b)[i] == b[i - a.len()]);
        }
    }
}

/// A date-and-time text is ASCII.
pub proof fn lemma_datetime_ascii(d: Ymd, h: nat, m: nat, s: nat)
    ensures
        is_ascii_chars(datetime_text(d, h, m, s)),
{
    let y = d.year as int;
    if 0 <= y <= 9999 {
        lemma_dec_ascii(y as nat);
        lemma_zero_pad_ascii(dec(y as nat), 4);
    } else if y < 0 {
        lemma_dec_ascii((-y) as nat);
        lemma_zero_pad_ascii(dec((-y) as nat), 4);
        lemma_concat_ascii(seq!['-'], zero_pad(dec((-y) as nat), 4));
    } else {
        lemma_dec_ascii(y as nat);
        lemma_zero_pad_ascii(dec(y as nat), 4);
        lemma_concat_ascii(seq!['+'], zero_pad(dec(y as nat), 4));
    }
    lemma_dec_ascii(d.month as nat);
    lemma_zero_pad_ascii(dec(d.month as nat), 2);
    lemma_dec_ascii(d.day as nat);
    lemma_zero_pad_ascii(dec(d.day as nat), 2);
    lemma_dec_ascii(h);
    lemma_zero_pad_ascii(dec(h), 2);
    lemma_dec_ascii(m);
    lemma_zero_pad_ascii(dec(m), 2);
    lemma_dec_ascii(s);
    lemma_zero_pad_ascii(dec(s), 2);
    let p1 = year_text(y) + seq!['-'];
    lemma_concat_ascii(year_text(y), seq!['-']);
    let p2 = p1 + two_digits(d.month as nat);
    lemma_concat_ascii(p1, two_digits(d.month as nat));
    let p3 = p2 + seq!['-'];
    lemma_concat_ascii(p2, seq!['-']);
    let p4 = p3 + two_digits(d.day as nat);
    lemma_concat_ascii(p3, two_digits(d.day as nat));
    let p5 = p4 + seq!['T'];
    lemma_concat_ascii(p4, seq!['T']);
    let p6 = p5 + two_digits(h);
    lemma_concat_ascii(p5, two_digits(h));
    let p7 = p6 + seq![':'];
    lemma_concat_ascii(p6, seq![':']);
    let p8 = p7 + two_digits(m);
    lemma_concat_ascii(p7, two_digits(m));
    let p9 = p8 + seq![':'];
    lemma_concat_ascii(p8, seq![':']);
    lemma_concat_ascii(p9, two_digits(s));
}

fn push_year(s: &mut String, y: i32)
    ensures
        final(s)@ == old(s)@ + year_text(y as int),
{
    let ghost s0 = s@;
    if 0 <= y && y <= 9999 {
        push_zero_padded(s, y as u64, 4);
    } else if y < 0 {
        push_char(s, '-');
        let a: u64 = ((-(y as i64)) as u64);
        push_zero_padded(s, a, 4);
        assert(s@ =~= s0 + year_text(y as int));
    } else {
        push_char(s, '+');
        push_zero_padded(s, y as u64, 4);
        assert(s@ =~= s0 + year_text(y as int));
    }
}

fn push_two(s: &mut String, n: u32)
    ensures
        final(s)@ == old(s)@ + two_digits(n as nat),
{
    push_zero_padded(s, n as u64, 2);
}

/// The date as `%Y-%m-%d`.
pub fn date_text(d: Ymd) -> (r: String)
    ensures
        r@ == ymd_text(d),
{
    let mut s = String::new();
    push_year(&mut s, d.year);
    push_char(&mut s, '-');
    push_two(&mut s, d.month);
    push_char(&mut s, '-');
    push_two(&mut s, d.day);
    assert(s@ =~= ymd_text(d));
    s
}

/// The date and time as `%Y-%m-%dT%H:%M:%S`.
pub fn datetime_string(d: Ymd, h: u32, m: u32, sec: u32) -> (r: String)
    ensures
        r@ == datetime_text(d, h as nat, m as nat, sec as nat),
{
    let mut s = date_text(d);
    push_char(&mut s, 'T');
    push_two(&mut s, h);
    push_char(&mut s, ':');
    push_two(&mut s, m);
    push_char(&mut s, ':');
    push_two(&mut s, sec);
    assert(s@ =~= datetime_text(d, h as nat, m as nat, sec as nat));
    s
}

/// The date as `%m-%d`.
pub fn md_dash(d: Ymd) -> (r: String)
    ensures
        r@ == md_dash_text(d),
{
    let mut s = String::new();
    push_two(&mut s, d.month);
    push_char(&mut s, '-');
    push_two(&mut s, d.day);
    assert(s@ =~= md_dash_text(d));
    s
}

fn push_md_cn(s: &mut String, d: Ymd)
    ensures
        final(s)@ == old(s)@ + md_cn_text(d),
{
    let ghost s0 = s@;
    push_two(s, d.month);
    push_str(s, "月");
    push_two(s, d.day);
    push_str(s, "日");
    assert(s@ =~= s0 + md_cn_text(d));
}

/// `YYYY年MM月` (`format!("{:04}年{:02}月", y, m)`).
pub open spec fn month_caption_text(y: int, m: nat) -> Seq<char> {
    signed_zero_pad(y, 4) + "年"@ + zero_pad(dec(m), 2) + "月"@
}

/// The caption of a month.
pub fn month_caption(y: i32, m: u32) -> (r: String)
    ensures
        r@ == month_caption_text(y as int, m as nat),
{
    let mut out = String::new();
    push_signed_zero_padded(&mut out, y as i64, 4);
    push_str(&mut out, "年");
    push_zero_padded(&mut out, m as u64, 2);
    push_str(&mut out, "月");
    assert(out@ =~= month_caption_text(y as int, m as nat));
    out
}

/// The caption of a statistics range: `YYYY年MM月` for a range inside one
/// month, else `MM月DD日 至 MM月DD日`.
pub open spec fn range_label_text(s: Ymd, e: Ymd) -> Seq<char> {
    if s.year == e.year && s.month == e.month {
        month_caption_text(s.year as int, s.month as nat)
    } else {
        md_cn_text(s) + " 至 "@ + md_cn_text(e)
    }
}

/// The caption of a statistics range.
pub fn range_label(s: Ymd, e: Ymd) -> (r: String)
    ensures
        r@ == range_label_text(s, e),
{
    if s.year == e.year && s.month == e.month {
        month_caption(s.year, s.month)
    } else {
        let mut out = String::new();
        push_md_cn(&mut out, s);
        push_str(&mut out, " 至 ");
        push_md_cn(&mut out, e);
        assert(out@ =~= range_label_text(s, e));
        out
    }
}

/// A timestamp `days_ago` days back at `h:m:00` local time.
pub fn ts(days_ago: i64, h: u32, m: u32) -> (r: String)
    requires
        0 <= days_ago <= 36500,
    ensures
        is_ascii_chars(r@),
        h < 24 && m < 60 ==> exists|d: Ymd| valid_ymd(d) && r@ == datetime_text(d, h as nat, m as nat, 0),
{
    let base = local_date_days_ago(days_ago);
    if h < 24 && m < 60 {
        proof {
            lemma_datetime_ascii(base, h as nat, m as nat, 0);
        }
        datetime_string(base, h, m, 0)
    } else {
        now_iso()
    }
}

/// The two digits of a number below 100.
pub proof fn lemma_two_digits(n: nat)
    requires
        n < 100,
    ensures
        two_digits(n) =~= seq![digit_char(n / 10), digit_char(n % 10)],
{
    if n < 10 {
        assert(digit_char(0) == '0');
        assert(dec(n) =~= seq![digit_char(n)]);
    } else {
        assert(dec(n / 10) =~= seq![digit_char(n / 10)]);
        assert(dec(n) =~= seq![digit_char(n / 10), digit_char(n % 10)]);
    }
}

/// The four digits of a year from 0 to 9999.
pub proof fn lemma_year_digits(y: int)
    requires
        0 <= y <= 9999,
    ensures
        year_text(y) =~= seq![
            digit_char((y / 1000) as nat),
            digit_char((y / 100 % 10) as nat),
            digit_char((y / 10 % 10) as nat),
            digit_char((y % 10) as nat),
        ],
{
    let n = y as nat;
    assert(digit_char(0) == '0');
    reveal_with_fuel(dec, 4);
    if n < 10 {
        assert(dec(n) =~= seq![digit_char(n)]);
    } else if n < 100 {
        assert(dec(n) =~= seq![digit_char(n / 10), digit_char(n % 10)]);
    } else if n < 1000 {
        assert(n / 10 / 10 == n / 100);
        assert(dec(n) =~= seq![digit_char(n / 100), digit_char(n / 10 % 10), digit_char(n % 10)]);
    } else {
        assert(n / 10 / 10 == n / 100);
        assert(n / 10 / 10 / 10 == n / 1000);
        assert(n / 100 / 10 == n / 1000);
        assert(dec(n) =~= seq![
            digit_char(n / 1000),
            digit_char(n / 100 % 10),
            digit_char(n / 10 % 10),
            digit_char(n % 10),
        ]);
    }
}

/// One-character texts compare by their code points.
proof fn lemma_one_char_lt(c: char, d: char)
    ensures
        text_lt(seq![c], seq![d]) <==> (c as u32) < (d as u32),
{
    reveal_with_fuel(text_lt, 2);
    assert(seq![c].drop_first() =~= Seq::<char>::empty());
    assert(seq![d].drop_first() =~= Seq::<char>::empty());
}

/// Two-digit texts compare as their numbers.
pub proof fn lemma_two_digits_order(x: nat, y: nat)
    requires
        x < 100,
        y < 100,
    ensures
        text_lt(two_digits(x), two_digits(y)) <==> x < y,
        two_digits(x) == two_digits(y) <==> x == y,
        two_digits(x).len() == 2,
        two_digits(y).len() == 2,
{
    lemma_two_digits(x);
    lemma_two_digits(y);
    let (a, b) = (digit_char(x / 10), digit_char(x % 10));
    let (c, d) = (digit_char(y / 10), digit_char(y % 10));
    assert(two_digits(x) =~= seq![a] + seq![b]);
    assert(two_digits(y) =~= seq![c] + seq![d]);
    lemma_text_lt_concat(seq![a], seq![b], seq![c], seq![d]);
    lemma_one_char_lt(a, c);
    lemma_one_char_lt(b, d);
    lemma_digit_char_order(x / 10, y / 10);
    lemma_digit_char_order(x % 10, y % 10);
    if two_digits(x) == two_digits(y) {
        assert(two_digits(x)[0] == two_digits(y)[0]);
        assert(two_digits(x)[1] == two_digits(y)[1]);
    }
    if a != c {
        assert(seq![a] != seq![c]) by {
            assert(seq![a][0] != seq![c][0]);
        }
    }
}

/// Four-character texts compare character by character.
proof fn lemma_four_chars_lt(a: char, b: char, c: char, d: char, e: char, f: char, g: char, h: char)
    ensures
        text_lt(seq![a, b, c, d], seq![e, f, g, h]) <==> ((a as u32) < (e as u32) || (a == e && ((b as u32)
            < (f as u32) || (b == f && ((c as u32) < (g as u32) || (c == g && (d as u32) < (h as u32))))))),
{
    let x = seq![a, b, c, d];
    let y = seq![e, f, g, h];
    assert(x =~= seq![a] + (seq![b] + (seq![c] + seq![d])));
    assert(y =~= seq![e] + (seq![f] + (seq![g] + seq![h])));
    lemma_text_lt_concat(seq![a], seq![b] + (seq![c] + seq![d]), seq![e], seq![f] + (seq![g] + seq![h]));
    lemma_text_lt_concat(seq![b], seq![c] + seq![d], seq![f], seq![g] + seq![h]);
    lemma_text_lt_concat(seq![c], seq![d], seq![g], seq![h]);
    lemma_one_char_lt(a, e);
    lemma_one_char_lt(b, f);
    lemma_one_char_lt(c, g);
    lemma_one_char_lt(d, h);
    if a != e {
        assert(seq![a][0] != seq![e][0]);
    }
    if b != f {
        assert(seq![b][0] != seq![f][0]);
    }
    if c != g {
        assert(seq![c][0] != seq![g][0]);
    }
}

/// A number below 10000 is its four decimal digits.
proof fn lemma_four_digits_value(x: int)
    requires
        0 <= x <= 9999,
    ensures
        x == 1000 * (x / 1000) + 100 * (x / 100 % 10) + 10 * (x / 10 % 10) + x % 10,
        0 <= x / 1000 < 10,
        0 <= x / 100 % 10 < 10,
        0 <= x / 10 % 10 < 10,
        0 <= x % 10 < 10,
{
    let q1 = x / 10;
    let q2 = q1 / 10;
    let q3 = q2 / 10;
    assert(x == 10 * q1 + x % 10 && 0 <= x % 10 < 10) by (nonlinear_arith)
        requires q1 == x / 10, 0 <= x;
    assert(q1 == 10 * q2 + q1 % 10 && 0 <= q1 % 10 < 10) by (nonlinear_arith)
        requires q2 == q1 / 10, 0 <= q1;
    assert(q2 == 10 * q3 + q2 % 10 && 0 <= q2 % 10 < 10) by (nonlinear_arith)
        requires q3 == q2 / 10, 0 <= q2;
    assert(q2 == x / 100) by (nonlinear_arith)
        requires q1 == x / 10, q2 == q1 / 10, 0 <= x;
    assert(q3 == x / 1000) by (nonlinear_arith)
        requires q1 == x / 10, q2 == q1 / 10, q3 == q2 / 10, 0 <= x;
    assert(q3 < 10);
}

/// The years 0 to 9999 compare as their four-digit texts.
pub proof fn lemma_year_text_order(x: int, y: int)
    requires
        0 <= x <= 9999,
        0 <= y <= 9999,
    ensures
        text_lt(year_text(x), year_text(y)) <==> x < y,
        year_text(x) == year_text(y) <==> x == y,
        year_text(x).len() == 4,
        year_text(y).len() == 4,
{
    lemma_year_digits(x);
    lemma_year_digits(y);
    lemma_four_digits_value(x);
    lemma_four_digits_value(y);
    let (x0, x1, x2, x3) = ((x / 1000) as nat, (x / 100 % 10) as nat, (x / 10 % 10) as nat, (x % 10) as nat);
    let (y0, y1, y2, y3) = ((y / 1000) as nat, (y / 100 % 10) as nat, (y / 10 % 10) as nat, (y % 10) as nat);
    lemma_four_chars_lt(
        digit_char(x0), digit_char(x1), digit_char(x2), digit_char(x3),
        digit_char(y0), digit_char(y1), digit_char(y2), digit_char(y3),
    );
    lemma_digit_char_order(x0, y0);
    lemma_digit_char_order(x1, y1);
    lemma_digit_char_order(x2, y2);
    lemma_digit_char_order(x3, y3);
    if year_text(x) == year_text(y) {
        assert(year_text(x)[0] == year_text(y)[0] && year_text(x)[1] == year_text(y)[1]);
        assert(year_text(x)[2] == year_text(y)[2] && year_text(x)[3] == year_text(y)[3]);
    }
    assert(x < y <==> (x0 < y0 || (x0 == y0 && (x1 < y1 || (x1 == y1 && (x2 < y2 || (x2 == y2 && x3 < y3)))))));
}

/// A date-and-time text as its fields and separators, from the year on.
proof fn lemma_datetime_fields(d: Ymd, h: nat, m: nat, s: nat)
    ensures
        datetime_text(d, h, m, s) =~= year_text(d.year as int) + (seq!['-'] + (two_digits(d.month as nat) + (seq!['-']
            + (two_digits(d.day as nat) + (seq!['T'] + (two_digits(h) + (seq![':'] + (two_digits(m) + (seq![':']
            + two_digits(s)))))))))),
{
}

/// Texts made of fields of equal lengths, with the same separators between
/// them, compare by their first differing field.
proof fn lemma_fields_lt(f: Seq<Seq<char>>, g: Seq<Seq<char>>, sep: Seq<Seq<char>>)
    requires
        f.len() == g.len(),
        f.len() >= 1,
        sep.len() == f.len() - 1,
        forall|i: int| 0 <= i < f.len() ==> (#[trigger] f[i]).len() == g[i].len(),
    ensures
        text_lt(join_fields(f, sep), join_fields(g, sep)) <==> exists|k: int| 0 <= k < f.len() && text_lt(f[k], g[k])
            && forall|j: int| 0 <= j < k ==> f[j] == g[j],
    decreases f.len(),
{
    if f.len() == 1 {
        assert forall|k: int| 0 <= k < f.len() && text_lt(f[k], g[k]) && (forall|j: int| 0 <= j < k ==> f[j] == g[j]) implies k == 0 by {}
    } else {
        let rf = join_fields(f.drop_first(), sep.drop_first());
        let rg = join_fields(g.drop_first(), sep.drop_first());
        lemma_text_lt_concat(f[0], sep[0] + rf, g[0], sep[0] + rg);
        lemma_text_lt_concat(sep[0], rf, sep[0], rg);
        assert forall|i: int| 0 <= i < f.drop_first().len() implies (#[trigger] f.drop_first()[i]).len() == g.drop_first()[i].len() by {
            assert(f.drop_first()[i] == f[i + 1]);
        }
        lemma_fields_lt(f.drop_first(), g.drop_first(), sep.drop_first());
        if text_lt(join_fields(f, sep), join_fields(g, sep)) {
            if f[0] != g[0] {
                assert(text_lt(f[0], g[0]));
            } else {
                let k = choose|k: int| 0 <= k < f.drop_first().len() && text_lt(f.drop_first()[k], g.drop_first()[k])
                    && forall|j: int| 0 <= j < k ==> f.drop_first()[j] == g.drop_first()[j];
                assert(text_lt(f[k + 1], g[k + 1]));
                assert forall|j: int| 0 <= j < k + 1 implies f[j] == g[j] by {
                    if j > 0 {
                        assert(f.drop_first()[j - 1] == g.drop_first()[j - 1]);
                    }
                }
            }
        } else {
            assert forall|k: int| 0 <= k < f.len() && text_lt(f[k], g[k]) implies !(forall|j: int| 0 <= j < k ==> f[j] == g[j]) by {
                if k == 0 {
                    if f[0] == g[0] {
                        crate::text::lemma_text_lt_irrefl(f[0]);
                    }
                } else if forall|j: int| 0 <= j < k ==> f[j] == g[j] {
                    assert(f[0] == g[0]);
                    assert(text_lt(f.drop_first()[k - 1], g.drop_first()[k - 1]));
                    assert forall|j: int| 0 <= j < k - 1 implies f.drop_first()[j] == g.drop_first()[j] by {
                        assert(f[j + 1] == g[j + 1]);
                    }
                }
            }
        }
    }
}

/// The fields joined, with `sep[i]` after field `i`.
pub open spec fn join_fields(f: Seq<Seq<char>>, sep: Seq<Seq<char>>) -> Seq<char>
    decreases f.len(),
{
    if f.len() <= 1 {
        if f.len() == 1 { f[0] } else { Seq::empty() }
    } else {
        f[0] + (sep[0] + join_fields(f.drop_first(), sep.drop_first()))
    }
}

/// Date-and-time texts of years 0 to 9999 compare field by field: year,
/// month, day, hour, minute, second.
pub proof fn lemma_datetime_text_order(d1: Ymd, h1: nat, m1: nat, s1: nat, d2: Ymd, h2: nat, m2: nat, s2: nat)
    requires
        0 <= d1.year <= 9999,
        0 <= d2.year <= 9999,
        d1.month < 100 && d1.day < 100 && h1 < 100 && m1 < 100 && s1 < 100,
        d2.month < 100 && d2.day < 100 && h2 < 100 && m2 < 100 && s2 < 100,
    ensures
        text_lt(datetime_text(d1, h1, m1, s1), datetime_text(d2, h2, m2, s2)) <==> (ymd_lt(d1, d2) || (d1 == d2
            && (h1 < h2 || (h1 == h2 && (m1 < m2 || (m1 == m2 && s1 < s2)))))),
{
    let sep = seq![seq!['-'], seq!['-'], seq!['T'], seq![':'], seq![':']];
    let f = seq![
        year_text(d1.year as int),
        two_digits(d1.month as nat),
        two_digits(d1.day as nat),
        two_digits(h1),
        two_digits(m1),
        two_digits(s1),
    ];
    let g = seq![
        year_text(d2.year as int),
        two_digits(d2.month as nat),
        two_digits(d2.day as nat),
        two_digits(h2),
        two_digits(m2),
        two_digits(s2),
    ];
    let nf = seq![d1.year as int, d1.month as int, d1.day as int, h1 as int, m1 as int, s1 as int];
    let ng = seq![d2.year as int, d2.month as int, d2.day as int, h2 as int, m2 as int, s2 as int];
    lemma_year_text_order(d1.year as int, d2.year as int);
    lemma_two_digits_order(d1.month as nat, d2.month as nat);
    lemma_two_digits_order(d1.day as nat, d2.day as nat);
    lemma_two_digits_order(h1, h2);
    lemma_two_digits_order(m1, m2);
    lemma_two_digits_order(s1, s2);
    assert(f[0] == year_text(d1.year as int) && g[0] == year_text(d2.year as int));
    assert(f[1] == two_digits(d1.month as nat) && g[1] == two_digits(d2.month as nat));
    assert(f[2] == two_digits(d1.day as nat) && g[2] == two_digits(d2.day as nat));
    assert(f[3] == two_digits(h1) && g[3] == two_digits(h2));
    assert(f[4] == two_digits(m1) && g[4] == two_digits(m2));
    assert(f[5] == two_digits(s1) && g[5] == two_digits(s2));
    assert forall|i: int| 0 <= i < 6 implies (text_lt(#[trigger] f[i], g[i]) <==> nf[i] < ng[i]) && (f[i] == g[i]
        <==> nf[i] == ng[i]) && f[i].len() == g[i].len() by {
        if i == 0 {
            assert(nf[0] == d1.year as int && ng[0] == d2.year as int);
        } else if i == 1 {
            assert(nf[1] == d1.month as int && ng[1] == d2.month as int);
        } else if i == 2 {
            assert(nf[2] == d1.day as int && ng[2] == d2.day as int);
        } else if i == 3 {
            assert(nf[3] == h1 as int && ng[3] == h2 as int);
        } else if i == 4 {
            assert(nf[4] == m1 as int && ng[4] == m2 as int);
        } else {
            assert(nf[5] == s1 as int && ng[5] == s2 as int);
        }
    }
    lemma_datetime_fields(d1, h1, m1, s1);
    lemma_datetime_fields(d2, h2, m2, s2);
    reveal_with_fuel(join_fields, 6);
    assert(join_fields(f, sep) =~= datetime_text(d1, h1, m1, s1));
    assert(join_fields(g, sep) =~= datetime_text(d2, h2, m2, s2));
    lemma_fields_lt(f, g, sep);
    let lex = ymd_lt(d1, d2) || (d1 == d2 && (h1 < h2 || (h1 == h2 && (m1 < m2 || (m1 == m2 && s1 < s2)))));
    if lex {
        let k: int = if d1.year != d2.year { 0 } else if d1.month != d2.month { 1 } else if d1.day != d2.day { 2 }
            else if h1 != h2 { 3 } else if m1 != m2 { 4 } else { 5 };
        assert(text_lt(f[k], g[k]));
        assert forall|j: int| 0 <= j < k implies f[j] == g[j] by {}
    }
    if text_lt(join_fields(f, sep), join_fields(g, sep)) {
        let k = choose|k: int| 0 <= k < f.len() && text_lt(f[k], g[k]) && forall|j: int| 0 <= j < k ==> f[j] == g[j];
        assert(nf[k] < ng[k]);
        assert forall|j: int| 0 <= j < k implies nf[j] == ng[j] by {
            assert(f[j] == g[j]);
        }
        if k >= 1 { assert(nf[0] == ng[0]); }
        if k >= 2 { assert(nf[1] == ng[1]); }
        if k >= 3 { assert(nf[2] == ng[2]); }
        if k >= 4 { assert(nf[3] == ng[3]); }
        if k >= 5 { assert(nf[4] == ng[4]); }
    }
}

} // verus!
