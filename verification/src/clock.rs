//! Moments on the local clock, spans between them, and the days of the calendar.

use crate::text;
use chrono::{Datelike, TimeZone};
use vstd::prelude::*;

verus! {

/// The nanoseconds of a second.
pub const NANOS: i128 = 1_000_000_000;

/// The seconds of a day.
pub const DAY: i64 = 86_400;

/// The first second of the calendar, counted from the beginning of 1970.
pub const MIN_SECS: i64 = -8_334_601_228_800;

/// The last second of the calendar.
pub const MAX_SECS: i64 = 8_210_266_876_799;

/// The first year of the calendar.
pub const MIN_YEAR: i32 = -262_143;

/// The last year of the calendar.
pub const MAX_YEAR: i32 = 262_142;

/// The longest span, in nanoseconds: the largest 64-bit number of milliseconds.
pub const MAX_SPAN: i128 = 9_223_372_036_854_775_807_000_000;

/// More nanoseconds than lie between any two moments.
pub const FAR: i128 = 1_000_000_000_000_000_000_000_000_000_000;

/// A moment: seconds and nanoseconds since the beginning of 1970 in universal time, and the seconds
/// by which the local clock is ahead of it.
#[derive(Clone, Copy, PartialEq, Eq, Structural, Debug)]
pub struct Moment {
    pub secs: i64,
    pub nanos: u32,
    pub offset: i32,
}

/// The nanosecond at which a moment stands.
pub open spec fn instant(m: Moment) -> int {
    m.secs * NANOS + m.nanos
}

/// The second that the local clock shows.
pub open spec fn local_secs(m: Moment) -> int {
    m.secs + m.offset
}

/// Whether the local clock shows a second of the calendar.
pub open spec fn dated(m: Moment) -> bool {
    MIN_SECS <= local_secs(m) <= MAX_SECS
}

/// Whether a local clock can be ahead by these seconds: by less than a day.
pub open spec fn offset_fits(offset: i32) -> bool {
    -DAY < offset < DAY
}

/// Whether a moment is one that a clock can show.
pub open spec fn valid(m: Moment) -> bool {
    &&& MIN_SECS <= m.secs <= MAX_SECS
    &&& m.nanos < NANOS
    &&& -DAY < m.offset < DAY
}

/// Whether a number of nanoseconds is a span.
pub open spec fn span_fits(nanos: int) -> bool {
    -MAX_SPAN <= nanos <= MAX_SPAN
}

/// Whether a nanosecond lies on the calendar.
pub open spec fn on_calendar(nanos: int) -> bool {
    MIN_SECS * NANOS <= nanos < (MAX_SECS + 1) * NANOS
}

/// Division that drops the fraction, on either side of nought.
pub open spec fn whole(n: int, by: int) -> int {
    if n < 0 {
        -((-n) / by)
    } else {
        n / by
    }
}

/// What `whole` leaves; it has the sign of `n`.
pub open spec fn left_over(n: int, by: int) -> int {
    n - whole(n, by) * by
}

/// The whole seconds of a span.
pub open spec fn seconds(nanos: int) -> int {
    whole(nanos, NANOS as int)
}

/// The whole minutes of a span.
pub open spec fn minutes(nanos: int) -> int {
    whole(seconds(nanos), 60)
}

/// The whole hours of a span.
pub open spec fn hours(nanos: int) -> int {
    whole(seconds(nanos), 3600)
}

/// A span is its hours, minutes and seconds, and less than a second.
pub proof fn law_span_is_its_parts(nanos: int)
    requires
        nanos >= 0,
    ensures
        seconds(nanos) == hours(nanos) * 3600 + left_over(minutes(nanos), 60) * 60 + left_over(
            seconds(nanos),
            60,
        ),
        0 <= left_over(minutes(nanos), 60) < 60,
        0 <= left_over(seconds(nanos), 60) < 60,
        0 <= nanos - seconds(nanos) * NANOS < NANOS,
{
}

/// A year with a 29th of February.
pub open spec fn is_leap(year: int) -> bool {
    year % 4 == 0 && (year % 100 != 0 || year % 400 == 0)
}

/// The days of a month.
pub open spec fn days_in_month(year: int, month: int) -> int {
    if month == 2 {
        if is_leap(year) {
            29
        } else {
            28
        }
    } else if month == 4 || month == 6 || month == 9 || month == 11 {
        30
    } else {
        31
    }
}

/// What a date says.
pub struct DateView {
    pub year: int,
    pub month: int,
    pub day: int,
}

/// Whether a year has such a day.
pub open spec fn is_day(year: int, month: int, day: int) -> bool {
    1 <= month <= 12 && 1 <= day <= days_in_month(year, month)
}

/// Whether the calendar has such a day.
pub open spec fn is_date(year: int, month: int, day: int) -> bool {
    MIN_YEAR <= year <= MAX_YEAR && is_day(year, month, day)
}

/// The days of a month.
pub fn month_length(year: i32, month: u32) -> (r: u32)
    ensures
        r == days_in_month(year as int, month as int),
{
    if month == 2 {
        if leap_year(year) {
            29
        } else {
            28
        }
    } else if month == 4 || month == 6 || month == 9 || month == 11 {
        30
    } else {
        31
    }
}

/// Whether a year has a 29th of February.
#[verifier::spinoff_prover]
fn leap_year(year: i32) -> (r: bool)
    ensures
        r == is_leap(year as int),
{
    let fourth: bool = year % 4 == 0;
    assert(fourth == (year as int % 4 == 0));
    let hundredth: bool = year % 100 == 0;
    assert(hundredth == (year as int % 100 == 0));
    let four_hundredth: bool = year % 400 == 0;
    assert(four_hundredth == (year as int % 400 == 0));
    fourth && (!hundredth || four_hundredth)
}

/// The days from the beginning of 1970 to the beginning of a year.
pub open spec fn days_before_year(year: int) -> int {
    let past = year - 1;
    365 * past + past / 4 - past / 100 + past / 400 - 719_162
}

/// The days of a year before a month.
pub open spec fn days_before_month(year: int, month: int) -> int
    decreases month,
{
    if month <= 1 {
        0
    } else {
        days_before_month(year, month - 1) + days_in_month(year, month - 1)
    }
}

/// The days from the 1st of January 1970 to a date.
pub open spec fn day_number(d: DateView) -> int {
    days_before_year(d.year) + days_before_month(d.year, d.month) + d.day - 1
}

/// Whether one date comes before another.
pub open spec fn before(a: DateView, b: DateView) -> bool {
    ||| a.year < b.year
    ||| a.year == b.year && a.month < b.month
    ||| a.year == b.year && a.month == b.month && a.day < b.day
}

proof fn lemma_year(year: int)
    ensures
        days_before_year(year + 1) == days_before_year(year) + if is_leap(year) {
            366int
        } else {
            365int
        },
{
    lemma_quotients(year);
    assert(year % 100 == 0 ==> year % 4 == 0) by {
        assert(year == 4 * (25 * (year / 100)) + year % 100);
    }
    assert(year % 400 == 0 ==> year % 100 == 0) by {
        assert(year == 100 * (4 * (year / 400)) + year % 400);
    }
}

proof fn lemma_quotients(n: int)
    ensures
        n / 4 == (n - 1) / 4 + if n % 4 == 0 { 1int } else { 0int },
        n / 100 == (n - 1) / 100 + if n % 100 == 0 { 1int } else { 0int },
        n / 400 == (n - 1) / 400 + if n % 400 == 0 { 1int } else { 0int },
{
}

proof fn lemma_years(a: int, b: int)
    requires
        a < b,
    ensures
        days_before_year(a) + 365 <= days_before_year(b),
        days_before_year(a + 1) <= days_before_year(b),
    decreases b - a,
{
    lemma_year(a);
    if a + 1 < b {
        lemma_years(a + 1, b);
    }
}

proof fn lemma_months(year: int, a: int, b: int)
    requires
        1 <= a < b <= 13,
    ensures
        days_before_month(year, a) + days_in_month(year, a) <= days_before_month(year, b),
    decreases b - a,
{
    if a + 1 < b {
        lemma_months(year, a, b - 1);
    }
}

proof fn lemma_whole_year(year: int)
    ensures
        days_before_month(year, 13) == if is_leap(year) {
            366int
        } else {
            365int
        },
{
    reveal_with_fuel(days_before_month, 14);
}

/// Dates are in the order of their day numbers, so that no two days have one number, on the calendar
/// and beyond it.
pub proof fn law_day_numbers_order_dates(a: DateView, b: DateView)
    requires
        is_day(a.year, a.month, a.day),
        is_day(b.year, b.month, b.day),
    ensures
        before(a, b) <==> day_number(a) < day_number(b),
        a == b <==> day_number(a) == day_number(b),
{
    if before(a, b) {
        lemma_before(a, b);
    }
    if before(b, a) {
        lemma_before(b, a);
    }
}

proof fn lemma_before(a: DateView, b: DateView)
    requires
        is_day(a.year, a.month, a.day),
        is_day(b.year, b.month, b.day),
        before(a, b),
    ensures
        day_number(a) < day_number(b),
{
    if a.year < b.year {
        lemma_years(a.year, b.year);
        lemma_year(a.year);
        lemma_whole_year(a.year);
        lemma_months(a.year, a.month, 13);
        if b.month > 1 {
            lemma_months(b.year, 1, b.month);
        }
    } else if a.month < b.month {
        lemma_months(a.year, a.month, b.month);
    }
}

/// A day of the calendar.
#[derive(Clone, Copy, PartialEq, Eq, Structural, Debug)]
pub struct Date {
    year: i32,
    month: u32,
    day: u32,
}

impl View for Date {
    type V = DateView;

    closed spec fn view(&self) -> DateView {
        DateView { year: self.year as int, month: self.month as int, day: self.day as int }
    }
}

/// The view of a date that may not be there.
pub open spec fn date_view(d: Option<Date>) -> Option<DateView> {
    match d {
        Some(d) => Some(d@),
        None => None,
    }
}

/// `NaiveDate::from_ymd_opt`: the date of a year, a month and a day, if there is such a day.
#[verifier::external_body]
fn civil_date(year: i32, month: u32, day: u32) -> (r: Option<Date>)
    ensures
        date_view(r) == if is_date(year as int, month as int, day as int) {
            Some(DateView { year: year as int, month: month as int, day: day as int })
        } else {
            None
        },
{
    let date = chrono::NaiveDate::from_ymd_opt(year, month, day)?;
    Some(Date { year: date.year(), month: date.month(), day: date.day() })
}

/// `DateTime::from_timestamp` and `date_naive`: the date of a second counted from the beginning of
/// 1970, if it lies on the calendar. It is the day whose number is the whole days of the count.
#[verifier::external_body]
fn date_at(secs: i64) -> (r: Option<Date>)
    ensures
        r is Some <==> MIN_SECS <= secs <= MAX_SECS,
        r matches Some(d) ==> is_date(d@.year, d@.month, d@.day) && day_number(d@) == secs as int
            / DAY as int,
{
    let date = chrono::DateTime::from_timestamp(secs, 0)?.date_naive();
    Some(Date { year: date.year(), month: date.month(), day: date.day() })
}

/// `Local::now`: the moment that the machine's clock shows. Which one is the machine's affair.
#[verifier::external_body]
fn local_now() -> (r: Moment)
    ensures
        valid(r),
{
    let now = chrono::Local::now();
    Moment {
        secs: now.timestamp(),
        nanos: now.timestamp_subsec_nanos(),
        offset: now.offset().local_minus_utc(),
    }
}

/// `DateTime::<Local>::checked_add_signed`: the moment that lies a span after another, if it is on
/// the calendar. By how much the local clock is ahead at that moment is the machine's affair.
#[verifier::external_body]
fn local_later(secs: i64, nanos: u32, by_secs: i64, by_nanos: u32) -> (r: Option<Moment>)
    requires
        MIN_SECS <= secs <= MAX_SECS,
        nanos < NANOS,
        by_nanos < NANOS,
        span_fits(by_secs * NANOS + by_nanos),
    ensures
        r is Some <==> on_calendar((secs + by_secs) * NANOS + nanos + by_nanos),
        r matches Some(m) ==> valid(m) && instant(m) == (secs + by_secs) * NANOS + nanos + by_nanos,
{
    let start = chrono::Local.timestamp_opt(secs, nanos).single()?;
    let end = start.checked_add_signed(chrono::TimeDelta::new(by_secs, by_nanos)?)?;
    Some(
        Moment {
            secs: end.timestamp(),
            nanos: end.timestamp_subsec_nanos(),
            offset: end.offset().local_minus_utc(),
        },
    )
}

/// A day and a time of day.
pub const PATTERN_STAMP: &'static str = "%m-%d-%Y %H:%M";

/// A year and a month.
pub const PATTERN_MONTH: &'static str = "%Y, %m";

/// A day with the name of its month.
pub const PATTERN_DAY: &'static str = "%B %d, %Y";

/// The short name of a month.
pub const PATTERN_MONTH_NAME: &'static str = "%b";

/// A number in two digits.
pub open spec fn two(n: int) -> Seq<char> {
    seq![text::digit(n / 10), text::digit(n % 10)]
}

/// A number in at least four digits.
pub open spec fn four(n: int) -> Seq<char> {
    if n < 10_000 {
        two(n / 100) + two(n % 100)
    } else {
        text::digits(n as nat)
    }
}

/// A year, with a sign in front where it has not four digits.
pub open spec fn year_text(year: int) -> Seq<char> {
    if year < 0 {
        seq!['-'] + four(-year)
    } else if year < 10_000 {
        four(year)
    } else {
        seq!['+'] + four(year)
    }
}

/// The name of a month.
pub open spec fn month_name(month: int) -> Seq<char> {
    if month == 1 {
        "January"@
    } else if month == 2 {
        "February"@
    } else if month == 3 {
        "March"@
    } else if month == 4 {
        "April"@
    } else if month == 5 {
        "May"@
    } else if month == 6 {
        "June"@
    } else if month == 7 {
        "July"@
    } else if month == 8 {
        "August"@
    } else if month == 9 {
        "September"@
    } else if month == 10 {
        "October"@
    } else if month == 11 {
        "November"@
    } else {
        "December"@
    }
}

/// The short name of a month: the first three letters.
pub open spec fn month_short_name(month: int) -> Seq<char> {
    month_name(month).take(3)
}

/// A date with the name of its month.
pub open spec fn day_text(d: DateView) -> Seq<char> {
    month_name(d.month) + " "@ + two(d.day) + ", "@ + year_text(d.year)
}

/// The year and the month of a date.
pub open spec fn month_text(d: DateView) -> Seq<char> {
    year_text(d.year) + ", "@ + two(d.month)
}

/// The date with a day number.
pub open spec fn numbered(number: int) -> DateView {
    choose|d: DateView| is_day(d.year, d.month, d.day) && #[trigger] day_number(d) == number
}

/// Each number is that of a day.
pub proof fn law_numbers_are_days(number: int)
    ensures
        is_day(numbered(number).year, numbered(number).month, numbered(number).day),
        day_number(numbered(number)) == number,
{
    let d = lemma_day_with(number);
    assert(is_day(d.year, d.month, d.day) && day_number(d) == number);
}

proof fn lemma_day_with(number: int) -> (d: DateView)
    ensures
        is_day(d.year, d.month, d.day),
        day_number(d) == number,
    decreases if number < 0 { -number } else { number },
{
    if number == 0 {
        reveal_with_fuel(days_before_month, 2);
        DateView { year: 1970, month: 1, day: 1 }
    } else if number > 0 {
        let e = lemma_day_with(number - 1);
        if e.day < days_in_month(e.year, e.month) {
            DateView { day: e.day + 1, ..e }
        } else if e.month < 12 {
            DateView { year: e.year, month: e.month + 1, day: 1 }
        } else {
            lemma_year(e.year);
            lemma_whole_year(e.year);
            DateView { year: e.year + 1, month: 1, day: 1 }
        }
    } else {
        let e = lemma_day_with(number + 1);
        if e.day > 1 {
            DateView { day: e.day - 1, ..e }
        } else if e.month > 1 {
            let month: int = e.month - 1;
            DateView { year: e.year, month, day: days_in_month(e.year, month) }
        } else {
            lemma_year(e.year - 1);
            lemma_whole_year(e.year - 1);
            DateView { year: e.year - 1, month: 12, day: 31 }
        }
    }
}

/// The date and the time of day of a second on the local clock.
pub open spec fn stamp_text(secs: int) -> Seq<char> {
    let d = numbered(secs / DAY as int);
    let time = secs % DAY as int;
    two(d.month) + "-"@ + two(d.day) + "-"@ + year_text(d.year) + " "@ + two(time / 3600) + ":"@
        + two(time % 3600 / 60)
}

/// The date and the time of day of a moment on its local clock.
pub open spec fn stamp(m: Moment) -> Seq<char> {
    stamp_text(local_secs(m))
}

/// `DateTime::format`: the text of a second in the pattern of a day and a time, on a clock that is
/// ahead by `offset`. That clock may show the day before the first or after the last of the calendar,
/// which is written in the same way.
#[verifier::external_body]
fn format_secs(secs: i64, offset: i32, pattern: &str) -> (r: String)
    requires
        MIN_SECS <= secs <= MAX_SECS,
        -DAY < offset < DAY,
        pattern@ == PATTERN_STAMP@,
    ensures
        r@ == stamp_text(secs + offset),
{
    let zone = chrono::FixedOffset::east_opt(offset).unwrap();
    zone.timestamp_opt(secs, 0).unwrap().format(pattern).to_string()
}

/// `NaiveDate::format`: the text of a day in one of the patterns of a day or a month.
#[verifier::external_body]
fn format_date(year: i32, month: u32, day: u32, pattern: &str) -> (r: String)
    requires
        is_date(year as int, month as int, day as int),
        pattern@ == PATTERN_MONTH@ || pattern@ == PATTERN_DAY@ || pattern@ == PATTERN_MONTH_NAME@,
    ensures
        pattern@ == PATTERN_MONTH@ ==> r@ == month_text(
            DateView { year: year as int, month: month as int, day: day as int },
        ),
        pattern@ == PATTERN_DAY@ ==> r@ == day_text(
            DateView { year: year as int, month: month as int, day: day as int },
        ),
        pattern@ == PATTERN_MONTH_NAME@ ==> r@ == month_short_name(month as int),
{
    chrono::NaiveDate::from_ymd_opt(year, month, day).unwrap().format(pattern).to_string()
}

impl Date {
    #[verifier::type_invariant]
    spec fn inv(&self) -> bool {
        is_date(self.year as int, self.month as int, self.day as int)
    }

    /// The date of a year, a month and a day, if there is such a day.
    pub fn new(year: i32, month: u32, day: u32) -> (r: Option<Date>)
        ensures
            date_view(r) == if is_date(year as int, month as int, day as int) {
                Some(DateView { year: year as int, month: month as int, day: day as int })
            } else {
                None
            },
    {
        civil_date(year, month, day)
    }

    /// The year.
    pub fn year(&self) -> (r: i32)
        ensures
            r == self@.year,
            is_date(self@.year, self@.month, self@.day),
    {
        proof {
            use_type_invariant(self);
        }
        self.year
    }

    /// The month, from 1 to 12.
    pub fn month(&self) -> (r: u32)
        ensures
            r == self@.month,
            is_date(self@.year, self@.month, self@.day),
    {
        proof {
            use_type_invariant(self);
        }
        self.month
    }

    /// The day of the month, from 1.
    pub fn day(&self) -> (r: u32)
        ensures
            r == self@.day,
            is_date(self@.year, self@.month, self@.day),
    {
        proof {
            use_type_invariant(self);
        }
        self.day
    }

    /// Whether `other` is this day or a later one.
    pub fn until(&self, other: &Date) -> (r: bool)
        ensures
            r == !before(other@, self@),
            is_date(self@.year, self@.month, self@.day),
            is_date(other@.year, other@.month, other@.day),
    {
        proof {
            use_type_invariant(self);
            use_type_invariant(other);
        }
        self.year < other.year || (self.year == other.year && (self.month < other.month || (
        self.month == other.month && self.day <= other.day)))
    }

    /// Whether two dates are the same day.
    pub fn same_day(&self, other: &Date) -> (r: bool)
        ensures
            r == (self@ == other@),
    {
        self.year == other.year && self.month == other.month && self.day == other.day
    }
}

/// The nanosecond at which a moment stands.
pub fn instant_of(m: &Moment) -> (r: i128)
    ensures
        r == instant(*m),
{
    m.secs as i128 * NANOS + m.nanos as i128
}

/// The nanoseconds from `start` to `end`.
pub fn span_between(start: &Moment, end: &Moment) -> (r: i128)
    ensures
        r == instant(*end) - instant(*start),
{
    instant_of(end) - instant_of(start)
}

/// Division that drops the fraction.
fn divide(n: i128, by: i128) -> (r: i128)
    requires
        by > 0,
        n > i128::MIN,
    ensures
        r == whole(n as int, by as int),
{
    if n < 0 {
        let q: u128 = (-n) as u128 / by as u128;
        -(q as i128)
    } else {
        (n as u128 / by as u128) as i128
    }
}

/// The whole seconds of a span.
pub fn num_seconds(nanos: i128) -> (r: i128)
    requires
        nanos > i128::MIN,
    ensures
        r == seconds(nanos as int),
{
    divide(nanos, NANOS)
}

/// The whole minutes of a span.
pub fn num_minutes(nanos: i128) -> (r: i128)
    requires
        nanos > i128::MIN,
    ensures
        r == minutes(nanos as int),
{
    divide(num_seconds(nanos), 60)
}

/// The whole hours of a span.
pub fn num_hours(nanos: i128) -> (r: i128)
    requires
        nanos > i128::MIN,
    ensures
        r == hours(nanos as int),
{
    divide(num_seconds(nanos), 3600)
}

/// What division leaves; it has the sign of `n`.
pub fn remainder(n: i128, by: i128) -> (r: i128)
    requires
        0 < by <= 3600,
        -FAR < n < FAR,
    ensures
        r == left_over(n as int, by as int),
        -by < r < by,
{
    let q: i128 = divide(n, by);
    proof {
        lemma_left_over(n as int, by as int);
    }
    n - q * by
}

proof fn lemma_left_over(n: int, by: int)
    by (nonlinear_arith)
    requires
        by > 0,
    ensures
        -by < left_over(n, by) < by,
        -(if n < 0 { -n } else { n }) <= whole(n, by) * by <= (if n < 0 { -n } else { n }),
{
}

/// The moment that the machine's clock shows.
pub fn now() -> (r: Moment)
    ensures
        valid(r),
{
    local_now()
}

/// The date that the local clock shows at a moment, if it lies on the calendar.
pub fn date_of(m: &Moment) -> (r: Option<Date>)
    ensures
        r is Some <==> dated(*m),
        r matches Some(d) ==> is_date(d@.year, d@.month, d@.day) && day_number(d@) == local_secs(
            *m,
        ) / DAY as int,
{
    let secs: i128 = m.secs as i128 + m.offset as i128;
    if secs < MIN_SECS as i128 || secs > MAX_SECS as i128 {
        None
    } else {
        date_at(secs as i64)
    }
}

/// The moment at a nanosecond, where the local clock is ahead by `offset`.
pub open spec fn moment_at(nanos: int, offset: i32) -> Moment {
    Moment {
        secs: (nanos / NANOS as int) as i64,
        nanos: (nanos % NANOS as int) as u32,
        offset,
    }
}

/// Whether the moment a span after `start` can be found: start, span and sum lie in their ranges.
pub open spec fn reaches(start: Moment, by: int) -> bool {
    &&& MIN_SECS <= start.secs <= MAX_SECS
    &&& start.nanos < NANOS
    &&& span_fits(by)
    &&& on_calendar(instant(start) + by)
}

/// Whether the moment a span after `start` can be found.
pub fn can_reach(start: &Moment, by: i128) -> (r: bool)
    ensures
        r == reaches(*start, by as int),
{
    if start.secs < MIN_SECS || start.secs > MAX_SECS || start.nanos as i128 >= NANOS || by
        < -MAX_SPAN || by > MAX_SPAN {
        return false;
    }
    let end: i128 = instant_of(start) + by;
    MIN_SECS as i128 * NANOS <= end && end < (MAX_SECS as i128 + 1) * NANOS
}

/// The moment a span after `start`.
pub fn later(start: &Moment, by: i128) -> (r: Moment)
    requires
        reaches(*start, by as int),
    ensures
        valid(r),
        r == moment_at(instant(*start) + by, r.offset),
{
    // Round the seconds down, so that nanoseconds are left.
    let rest: i128 = by - divide(by, NANOS) * NANOS;
    let secs: i128 = if rest < 0 {
        divide(by, NANOS) - 1
    } else {
        divide(by, NANOS)
    };
    let nanos: i128 = by - secs * NANOS;
    assert(secs * NANOS + nanos == by);
    assert(0 <= nanos < NANOS);
    match local_later(start.secs, start.nanos, secs as i64, nanos as u32) {
        Some(m) => m,
        None => *start,
    }
}

/// Whether a moment lies on the calendar and its local clock is ahead by less than a day.
pub open spec fn zoned(m: Moment) -> bool {
    MIN_SECS <= m.secs <= MAX_SECS && -DAY < m.offset < DAY
}

/// Whether a moment lies on the calendar and its local clock is ahead by less than a day.
pub fn is_zoned(m: &Moment) -> (r: bool)
    ensures
        r == zoned(*m),
{
    MIN_SECS <= m.secs && m.secs <= MAX_SECS && -DAY < m.offset as i64 && (m.offset as i64) < DAY
}

/// Writes a moment on the local clock in the pattern of a day and a time.
pub fn format_stamp(m: &Moment) -> (r: String)
    requires
        zoned(*m),
    ensures
        r@ == stamp(*m),
{
    format_secs(m.secs, m.offset, PATTERN_STAMP)
}

/// Writes a date with the name of its month.
pub fn format_day(date: &Date) -> (r: String)
    ensures
        r@ == day_text(date@),
{
    proof {
        use_type_invariant(date);
    }
    format_date(date.year, date.month, date.day, PATTERN_DAY)
}

/// Writes the year and the month of a date.
pub fn format_month(date: &Date) -> (r: String)
    ensures
        r@ == month_text(date@),
{
    proof {
        use_type_invariant(date);
    }
    format_date(date.year, date.month, date.day, PATTERN_MONTH)
}

/// Writes the short name of the month of a date.
pub fn format_month_name(date: &Date) -> (r: String)
    ensures
        r@ == month_short_name(date@.month),
{
    proof {
        use_type_invariant(date);
    }
    format_date(date.year, date.month, date.day, PATTERN_MONTH_NAME)
}

/// The seconds, minutes and hours of a span are what it holds of them in full, and those of a span
/// backwards are the same backwards.
pub proof fn law_units_of_spans(nanos: int)
    ensures
        nanos >= 0 ==> seconds(nanos) == nanos / 1_000_000_000,
        nanos >= 0 ==> minutes(nanos) == nanos / 60_000_000_000,
        nanos >= 0 ==> hours(nanos) == nanos / 3_600_000_000_000,
        seconds(-nanos) == -seconds(nanos),
        minutes(-nanos) == -minutes(nanos),
        hours(-nanos) == -hours(nanos),
        nanos >= 0 ==> left_over(minutes(nanos), 60) == nanos / 60_000_000_000 % 60,
        nanos >= 0 ==> left_over(seconds(nanos), 60) == nanos / 1_000_000_000 % 60,
        left_over(-nanos, 60) == -left_over(nanos, 60),
{
}

/// A moment stands at its seconds and its nanoseconds, and the local clock shows its seconds and what
/// it is ahead by.
pub proof fn law_moments_on_two_clocks(m: Moment)
    ensures
        instant(m) == m.secs * 1_000_000_000 + m.nanos,
        local_secs(m) == m.secs + m.offset,
{
}

/// The moment at a nanosecond of the calendar stands at that nanosecond.
pub proof fn law_moments_stand_where_they_are_put(nanos: int, offset: i32)
    requires
        -8_334_601_228_800_000_000_000 <= nanos < 8_210_266_876_800_000_000_000,
    ensures
        instant(moment_at(nanos, offset)) == nanos,
        moment_at(nanos, offset).nanos < 1_000_000_000,
        moment_at(nanos, offset).offset == offset,
        on_calendar(nanos),
{
}

/// The months have 31 days, but April, June, September and November 30, and February 28, or 29 in every
/// fourth year but three out of four hundredth ones.
pub proof fn law_days_of_months(year: int)
    ensures
        days_in_month(year, 1) == 31 && days_in_month(year, 3) == 31 && days_in_month(year, 5) == 31,
        days_in_month(year, 7) == 31 && days_in_month(year, 8) == 31,
        days_in_month(year, 10) == 31 && days_in_month(year, 12) == 31,
        days_in_month(year, 4) == 30 && days_in_month(year, 6) == 30,
        days_in_month(year, 9) == 30 && days_in_month(year, 11) == 30,
        days_in_month(year, 2) == 28 || days_in_month(year, 2) == 29,
        days_in_month(year, 2) == 29 <==> year % 4 == 0 && (year % 100 == 0 ==> year % 400 == 0),
{
}

/// Days are numbered one by one, from the first of January 1970 on: the day after a day has the next
/// number, over the end of the month and of the year.
pub proof fn law_days_are_numbered_in_turn(d: DateView)
    requires
        is_day(d.year, d.month, d.day),
    ensures
        day_number(DateView { year: 1970, month: 1, day: 1 }) == 0,
        d.day < days_in_month(d.year, d.month) ==> day_number(
            DateView { year: d.year, month: d.month, day: d.day + 1 },
        ) == day_number(d) + 1,
        d.day == days_in_month(d.year, d.month) && d.month < 12 ==> day_number(
            DateView { year: d.year, month: d.month + 1, day: 1 },
        ) == day_number(d) + 1,
        d.month == 12 && d.day == 31 ==> day_number(
            DateView { year: d.year + 1, month: 1, day: 1 },
        ) == day_number(d) + 1,
{
    reveal_with_fuel(days_before_month, 2);
    lemma_year(d.year);
    lemma_whole_year(d.year);
}

/// A day is one of a year exactly if its month is one of twelve and has so many days, and one of the
/// calendar if the year is too.
pub proof fn law_days_that_there_are(year: int, month: int, day: int)
    ensures
        is_day(year, month, day) <==> 1 <= month <= 12 && 1 <= day <= days_in_month(year, month),
        is_date(year, month, day) <==> -262_143 <= year <= 262_142 && is_day(year, month, day),
{
}

/// Whether a moment after another can be found says that both lie on the calendar and the span between
/// is one.
pub proof fn law_reach_of_moments(start: Moment, by: int)
    ensures
        reaches(start, by) <==> {
            &&& -8_334_601_228_800 <= start.secs <= 8_210_266_876_799
            &&& start.nanos < 1_000_000_000
            &&& -9_223_372_036_854_775_807_000_000 <= by <= 9_223_372_036_854_775_807_000_000
            &&& -8_334_601_228_800_000_000_000 <= start.secs * 1_000_000_000 + start.nanos + by
                < 8_210_266_876_800_000_000_000
        },
        span_fits(by) <==> -9_223_372_036_854_775_807_000_000 <= by
            <= 9_223_372_036_854_775_807_000_000,
        zoned(start) <==> -8_334_601_228_800 <= start.secs <= 8_210_266_876_799 && -86_400
            < start.offset < 86_400,
        dated(start) <==> -8_334_601_228_800 <= start.secs + start.offset <= 8_210_266_876_799,
{
}

/// The names of the months.
pub proof fn law_months_have_names()
    ensures
        month_name(1) == "January"@ && month_name(2) == "February"@ && month_name(3) == "March"@,
        month_name(4) == "April"@ && month_name(5) == "May"@ && month_name(6) == "June"@,
        month_name(7) == "July"@ && month_name(8) == "August"@ && month_name(9) == "September"@,
        month_name(10) == "October"@ && month_name(11) == "November"@,
        month_name(12) == "December"@,
{
}

/// Two digits stand for their number, and so do the four of a year; a later year has a plus sign in
/// front, and one before the year nought a minus sign.
pub proof fn law_digits_of_dates(n: int)
    ensures
        0 <= n < 100 ==> two(n).len() == 2 && text::all_digits(two(n)) && text::value(two(n)) == n,
        0 <= n < 10_000 ==> year_text(n).len() == 4 && text::all_digits(year_text(n)) && text::value(
            year_text(n),
        ) == n,
        n >= 10_000 ==> year_text(n) == seq!['+'] + text::number(n),
        0 < n < 10_000 ==> year_text(-n) == seq!['-'] + year_text(n),
        n >= 10_000 ==> year_text(-n) == text::number(-n),
{
    if 0 <= n < 10_000 {
        lemma_two(n / 100);
        lemma_two(n % 100);
        let a = two(n / 100);
        let b = two(n % 100);
        assert(a + b =~= seq![a[0], a[1], b[0], b[1]]);
        lemma_row(a + b);
        lemma_row(a);
        lemma_row(b);
        if n < 100 {
            lemma_two(n);
            lemma_row(two(n));
        }
    }
}

/// What a row of two or four digits is worth.
proof fn lemma_row(s: Seq<char>)
    requires
        s.len() == 2 || s.len() == 4,
        text::all_digits(s),
    ensures
        s.len() == 2 ==> text::value(s) == 10 * (s[0] as int - 48) + (s[1] as int - 48),
        s.len() == 4 ==> text::value(s) == 1000 * (s[0] as int - 48) + 100 * (s[1] as int - 48) + 10 * (
        s[2] as int - 48) + (s[3] as int - 48),
{
    reveal_with_fuel(text::value, 5);
    assert forall|i: int| 0 <= i < s.len() implies 48 <= (#[trigger] s[i]) as int <= 57 by {
        assert(text::is_digit(s[i]));
    }
    if s.len() == 2 {
        assert(s[0] as int >= 48 && s[1] as int >= 48);
    } else {
        assert(s[0] as int >= 48 && s[1] as int >= 48 && s[2] as int >= 48 && s[3] as int >= 48);
    }
}

proof fn lemma_two(n: int)
    requires
        0 <= n < 100,
    ensures
        two(n).len() == 2,
        text::all_digits(two(n)),
        two(n)[0] as int == 48 + n / 10,
        two(n)[1] as int == 48 + n % 10,
{
    assert(two(n)[0] as int == 48 + n / 10);
    assert(two(n)[1] as int == 48 + n % 10);
}

/// A second on the local clock is written as the month, the day and the year of its date, and the hours
/// and minutes since midnight.
pub proof fn law_stamps_say_day_and_time(secs: int, d: DateView)
    requires
        is_day(d.year, d.month, d.day),
        day_number(d) == secs / 86_400,
    ensures
        stamp_text(secs) == two(d.month) + "-"@ + two(d.day) + "-"@ + year_text(d.year) + " "@ + two(
            secs % 86_400 / 3600,
        ) + ":"@ + two(secs % 3600 / 60),
{
    assert(numbered(secs / 86_400) == d) by {
        law_numbers_are_days(secs / 86_400);
        law_day_numbers_order_dates(d, numbered(secs / 86_400));
    }
    assert(secs % 86_400 % 3600 == secs % 3600) by {
        vstd::arithmetic::div_mod::lemma_mod_mod(secs, 3600, 24);
    }
}

/// Dates are written with the name of the month, and months by year and number.
pub proof fn law_dates_are_written_out(d: DateView, m: Moment)
    ensures
        day_text(d) == month_name(d.month) + " "@ + two(d.day) + ", "@ + year_text(d.year),
        month_text(d) == year_text(d.year) + ", "@ + two(d.month),
        month_short_name(d.month) == month_name(d.month).take(3),
        stamp(m) == stamp_text(m.secs + m.offset),
        PATTERN_STAMP@ == "%m-%d-%Y %H:%M"@,
        PATTERN_DAY@ == "%B %d, %Y"@,
        PATTERN_MONTH@ == "%Y, %m"@,
        PATTERN_MONTH_NAME@ == "%b"@,
{
}

} // verus!
