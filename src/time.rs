use chrono::{Datelike, Timelike};
use vstd::arithmetic::div_mod::lemma_mod_multiples_vanish;
use vstd::prelude::*;

verus! {

/// Largest distance, in days, of a calendar day from the start of the common era that
/// the clock and the date reader can report.
pub const DAY_LIMIT: i32 = 100_000_000;

/// A wall-clock moment in the institution's time zone: the calendar day, counted from
/// January 1 of year 1 (day 1, a Monday), and the time of day.
#[derive(Clone, Copy, Debug, PartialEq, Eq, Structural)]
pub struct Moment {
    pub day: i32,
    pub hour: u32,
    pub minute: u32,
    pub second: u32,
}

/// A span of time from `start` to `end`.
#[derive(Clone, Copy, Debug, PartialEq, Eq, Structural)]
pub struct Period {
    pub start: Moment,
    pub end: Moment,
}

impl Moment {
    /// The time of day is a real one.
    pub open spec fn wf(self) -> bool {
        self.hour < 24 && self.minute < 60 && self.second < 60
    }

    /// The day lies in the range that the clock and the date reader can report.
    pub open spec fn in_calendar(self) -> bool {
        -DAY_LIMIT <= self.day <= DAY_LIMIT
    }

    pub open spec fn seconds_of_day(self) -> int {
        self.hour * 3600 + self.minute * 60 + self.second
    }

    /// `self` comes no later than `other`.
    pub open spec fn no_later_than(self, other: Moment) -> bool {
        self.day < other.day || (self.day == other.day && self.seconds_of_day()
            <= other.seconds_of_day())
    }

    /// Whether `self` comes no later than `other`.
    pub fn is_no_later_than(&self, other: &Moment) -> (r: bool)
        requires
            self.wf(),
            other.wf(),
        ensures
            r == self.no_later_than(*other),
    {
        if self.day != other.day {
            self.day < other.day
        } else {
            self.hour as u64 * 3600 + self.minute as u64 * 60 + self.second as u64
                <= other.hour as u64 * 3600 + other.minute as u64 * 60 + other.second as u64
        }
    }
}

impl Period {
    /// Both moments are real, and the start comes no later than the end.
    pub open spec fn wf(self) -> bool {
        self.start.wf() && self.end.wf() && self.start.no_later_than(self.end)
    }

    /// Number of calendar days that the period touches.
    pub open spec fn span_days(self) -> int {
        self.end.day - self.start.day + 1
    }
}

/// The first second of a day.
pub open spec fn day_start(day: int) -> Moment {
    Moment { day: day as i32, hour: 0, minute: 0, second: 0 }
}

/// The last second of a day.
pub open spec fn day_end(day: int) -> Moment {
    Moment { day: day as i32, hour: 23, minute: 59, second: 59 }
}

/// The whole of one calendar day.
pub open spec fn day_period(day: int) -> Period {
    Period { start: day_start(day), end: day_end(day) }
}

/// Day of the week, Monday being 0 and Sunday 6.
pub open spec fn weekday(day: int) -> int {
    (day - 1) % 7
}

/// The whole Monday-to-Sunday week that holds `day`.
pub open spec fn week_period(day: int) -> Period {
    Period { start: day_start(day - weekday(day)), end: day_end(day - weekday(day) + 6) }
}

/// What was made of a date given on the command line.
#[derive(Clone, Copy, Debug, PartialEq, Eq)]
pub enum DateArg {
    /// No date was given.
    Missing,
    /// A date was given and could not be read.
    Unreadable,
    /// A date was given and read.
    Given(Moment),
}

/// Why the flags did not give a period of their own, and a default one was taken.
#[derive(Clone, Copy, Debug, PartialEq, Eq)]
pub enum Fallback {
    /// The start date of a single day could not be read: the current day is used.
    UnreadableDay,
    /// The start date of a week could not be read: the current day is used.
    UnreadableWeek,
    /// A start or an end date could not be read: the current week is used.
    UnreadableRange,
    /// The end date comes before the start date: the current week is used.
    ReversedRange,
    /// The flags do not name a period: the current day is used.
    UnsupportedFlags,
}

/// A period, and the reason for a default if one was taken.
#[derive(Clone, Copy, Debug, PartialEq, Eq)]
pub struct Resolution {
    pub period: Period,
    pub fallback: Option<Fallback>,
}

impl DateArg {
    /// A date that was read is a real moment of the calendar.
    pub open spec fn valid(self) -> bool {
        match self {
            DateArg::Given(m) => m.wf() && m.in_calendar(),
            _ => true,
        }
    }
}

/// The period that the flags `week` and `next` and the dates `start` and `end` ask for,
/// at the moment `now`. First match wins:
/// - no dates: today, the next day, this week or the next week;
/// - a start date alone, without `next`: the day, or with `week` the week, that holds it;
/// - both dates: the span between them, when the start comes no later than the end;
/// - both dates, one unreadable or the two reversed: this week, with the reason;
/// - anything else: today, with the reason.
pub open spec fn resolution_of(week: bool, next: bool, start: DateArg, end: DateArg, now: Moment) -> Resolution {
    let today = day_period(now.day as int);
    let this_week = week_period(now.day as int);
    match start {
        DateArg::Missing => match end {
            DateArg::Missing => {
                let p = if !week && !next {
                    today
                } else if !week {
                    day_period(now.day + 1)
                } else if !next {
                    this_week
                } else {
                    week_period(now.day + 7)
                };
                Resolution { period: p, fallback: None }
            },
            _ => Resolution { period: today, fallback: Some(Fallback::UnsupportedFlags) },
        },
        _ => match end {
            DateArg::Missing => if next {
                Resolution { period: today, fallback: Some(Fallback::UnsupportedFlags) }
            } else if !week {
                match start {
                    DateArg::Given(s) => Resolution { period: day_period(s.day as int), fallback: None },
                    _ => Resolution { period: today, fallback: Some(Fallback::UnreadableDay) },
                }
            } else {
                match start {
                    DateArg::Given(s) => Resolution { period: week_period(s.day as int), fallback: None },
                    _ => Resolution { period: today, fallback: Some(Fallback::UnreadableWeek) },
                }
            },
            _ => match (start, end) {
                (DateArg::Given(s), DateArg::Given(e)) => if s.no_later_than(e) {
                    Resolution { period: Period { start: s, end: e }, fallback: None }
                } else {
                    Resolution { period: this_week, fallback: Some(Fallback::ReversedRange) }
                },
                _ => Resolution { period: this_week, fallback: Some(Fallback::UnreadableRange) },
            },
        },
    }
}

fn weekday_of(day: i32) -> (r: i32)
    requires
        -DAY_LIMIT - 7 <= day <= DAY_LIMIT + 7,
    ensures
        r == weekday(day as int),
        0 <= r < 7,
{
    let shifted: u64 = (day as i64 + 699_999_999) as u64;
    proof {
        lemma_mod_multiples_vanish(100_000_000, day - 1, 7);
    }
    (shifted % 7) as i32
}

fn day_period_of(day: i32) -> (r: Period)
    ensures
        r == day_period(day as int),
        r.wf(),
{
    Period {
        start: Moment { day, hour: 0, minute: 0, second: 0 },
        end: Moment { day, hour: 23, minute: 59, second: 59 },
    }
}

fn week_period_of(day: i32) -> (r: Period)
    requires
        -DAY_LIMIT - 7 <= day <= DAY_LIMIT + 7,
    ensures
        r == week_period(day as int),
        r.wf(),
{
    let monday = day - weekday_of(day);
    Period {
        start: Moment { day: monday, hour: 0, minute: 0, second: 0 },
        end: Moment { day: monday + 6, hour: 23, minute: 59, second: 59 },
    }
}

/// Applies the decision table of `resolution_of` to dates already read.
pub fn resolve_with(week: bool, next: bool, start: DateArg, end: DateArg, now: Moment) -> (r:
    Resolution)
    requires
        now.wf(),
        now.in_calendar(),
        start.valid(),
        end.valid(),
    ensures
        r == resolution_of(week, next, start, end, now),
        r.period.wf(),
{
    match start {
        DateArg::Missing => match end {
            DateArg::Missing => {
                let p = if !week && !next {
                    day_period_of(now.day)
                } else if !week {
                    day_period_of(now.day + 1)
                } else if !next {
                    week_period_of(now.day)
                } else {
                    week_period_of(now.day + 7)
                };
                Resolution { period: p, fallback: None }
            },
            _ => Resolution { period: day_period_of(now.day), fallback: Some(Fallback::UnsupportedFlags) },
        },
        _ => match end {
            DateArg::Missing => if next {
                Resolution { period: day_period_of(now.day), fallback: Some(Fallback::UnsupportedFlags) }
            } else if !week {
                match start {
                    DateArg::Given(s) => Resolution { period: day_period_of(s.day), fallback: None },
                    _ => Resolution { period: day_period_of(now.day), fallback: Some(Fallback::UnreadableDay) },
                }
            } else {
                match start {
                    DateArg::Given(s) => Resolution { period: week_period_of(s.day), fallback: None },
                    _ => Resolution { period: day_period_of(now.day), fallback: Some(Fallback::UnreadableWeek) },
                }
            },
            DateArg::Unreadable => Resolution { period: week_period_of(now.day), fallback: Some(Fallback::UnreadableRange) },
            DateArg::Given(e) => match start {
                DateArg::Given(s) => if s.is_no_later_than(&e) {
                    Resolution { period: Period { start: s, end: e }, fallback: None }
                } else {
                    Resolution { period: week_period_of(now.day), fallback: Some(Fallback::ReversedRange) }
                },
                _ => Resolution { period: week_period_of(now.day), fallback: Some(Fallback::UnreadableRange) },
            },
        },
    }
}

/// `r` is the resolution of the flags at `now` for some outcome of reading the dates,
/// where a date was given exactly when `start_given` (or `end_given`) holds.
pub open spec fn resolves(
    r: Resolution,
    week: bool,
    next: bool,
    start_given: bool,
    end_given: bool,
    now: Moment,
) -> bool {
    exists|s: DateArg, e: DateArg|
        s.valid() && e.valid() && (s is Missing <==> !start_given) && (e is Missing <==> !end_given)
            && r == #[trigger] resolution_of(week, next, s, e, now)
}

/// A decimal digit.
pub open spec fn is_digit(c: char) -> bool {
    '0' <= c && c <= '9'
}

/// Value of a decimal digit.
pub open spec fn digit_value(c: char) -> int {
    c as int - '0' as int
}

/// At `i` stands a numeric time-zone offset of 24 hours or more: a sign, two digits
/// worth 24 or more, and then a digit or a colon that starts the minutes.
pub open spec fn offset_too_large_at(t: Seq<char>, i: int) -> bool {
    &&& 0 <= i
    &&& i + 3 < t.len()
    &&& (t[i] == '+' || t[i] == '-')
    &&& is_digit(t[i + 1])
    &&& is_digit(t[i + 2])
    &&& 10 * digit_value(t[i + 1]) + digit_value(t[i + 2]) >= 24
    &&& (is_digit(t[i + 3]) || t[i + 3] == ':')
}

/// Somewhere in `t` stands a numeric time-zone offset of 24 hours or more.
pub open spec fn has_offset_too_large(t: Seq<char>) -> bool {
    exists|i: int| offset_too_large_at(t, i)
}

/// Whether `text` holds a numeric time-zone offset of 24 hours or more, which no date
/// can carry.
pub fn offset_too_large(text: &str) -> (r: bool)
    ensures
        r == has_offset_too_large(text@),
{
    let n = text.unicode_len();
    let mut i: usize = 0;
    while n > 3 && i < n - 3
        invariant
            n == text@.len(),
            n > 3 ==> i <= n - 3,
            forall|k: int| 0 <= k < i ==> !offset_too_large_at(text@, k),
        decreases n - i,
    {
        let sign = text.get_char(i);
        let h1 = text.get_char(i + 1);
        let h2 = text.get_char(i + 2);
        let m = text.get_char(i + 3);
        if (sign == '+' || sign == '-') && '0' <= h1 && h1 <= '9' && '0' <= h2 && h2 <= '9' {
            let hours: u32 = (h1 as u32 - '0' as u32) * 10 + (h2 as u32 - '0' as u32);
            if hours >= 24 && (('0' <= m && m <= '9') || m == ':') {
                assert(offset_too_large_at(text@, i as int));
                return true;
            }
        }
        i = i + 1;
    }
    assert forall|k: int| !offset_too_large_at(text@, k) by {
        if 0 <= k && k + 3 < text@.len() {
            assert(k < i);
        }
    }
    false
}

/// Relies on nure_tools' `Period::from_string`, which reads a date with the dateparser
/// crate and places it in the Europe/Kyiv time zone, and on chrono's `num_days_from_ce`,
/// `hour`, `minute` and `second` to take it apart. Reading depends on the machine's own
/// time zone and date, so nothing is said of which moment comes back; chrono's dates lie
/// in the years -262143 to 262142, which keeps the day within `DAY_LIMIT`. dateparser
/// reads a numeric offset as a sign, two hour digits from 00 to 99 and two minute digits
/// from 00 to 59, and hands it to chrono's `FixedOffset::east`, which panics at a whole
/// day or more: such text is left out.
#[verifier::external_body]
fn read_moment(text: &str) -> (r: Option<Moment>)
    requires
        !has_offset_too_large(text@),
    ensures
        r matches Some(m) ==> m.wf() && m.in_calendar(),
{
    let t = nure_tools::utils::Period::from_string(text, text).ok()?.start_time;
    let day = t.date_naive().num_days_from_ce();
    Some(Moment { day, hour: t.hour(), minute: t.minute(), second: t.second() })
}

/// Relies on chrono's `Utc::now`, seen in the Europe/Kyiv time zone of chrono-tz, and on
/// chrono's `num_days_from_ce`, `hour`, `minute` and `second` to take it apart.
#[verifier::external_body]
fn clock_now() -> (r: Moment)
    ensures
        r.wf(),
        r.in_calendar(),
{
    let t = chrono::Utc::now().with_timezone(&chrono_tz::Tz::Europe__Kiev);
    let day = t.date_naive().num_days_from_ce();
    Moment { day, hour: t.hour(), minute: t.minute(), second: t.second() }
}

fn date_arg(text: &Option<String>) -> (r: DateArg)
    ensures
        r.valid(),
        r is Missing <==> text is None,
{
    match text {
        None => DateArg::Missing,
        Some(t) => if offset_too_large(t.as_str()) {
            DateArg::Unreadable
        } else {
            match read_moment(t.as_str()) {
                Some(m) => DateArg::Given(m),
                None => DateArg::Unreadable,
            }
        },
    }
}

/// Reads the dates given on the command line and resolves the period at `now`.
pub fn resolve_period(
    start: &Option<String>,
    end: &Option<String>,
    week: bool,
    next: bool,
    now: Moment,
) -> (r: Resolution)
    requires
        now.wf(),
        now.in_calendar(),
    ensures
        r.period.wf(),
        resolves(r, week, next, start is Some, end is Some, now),
        start is None && end is None ==> r == resolution_of(
            week,
            next,
            DateArg::Missing,
            DateArg::Missing,
            now,
        ),
{
    let s = date_arg(start);
    let e = date_arg(end);
    let r = resolve_with(week, next, s, e, now);
    assert(r == resolution_of(week, next, s, e, now));
    r
}

/// Reads the dates given on the command line and resolves the period at the current time.
pub fn resolve_period_now(
    start: &Option<String>,
    end: &Option<String>,
    week: bool,
    next: bool,
) -> (r: Resolution)
    ensures
        r.period.wf(),
        exists|now: Moment|
            now.wf() && now.in_calendar() && #[trigger] resolves(
                r,
                week,
                next,
                start is Some,
                end is Some,
                now,
            ),
{
    let now = clock_now();
    let r = resolve_period(start, end, week, next, now);
    assert(resolves(r, week, next, start is Some, end is Some, now));
    r
}

/// Both dates were read, and the start comes no later than the end.
pub open spec fn is_explicit_range(start: DateArg, end: DateArg) -> bool {
    match (start, end) {
        (DateArg::Given(s), DateArg::Given(e)) => s.no_later_than(e),
        _ => false,
    }
}

/// The flags ask for a week, or fall back to one.
pub open spec fn is_week_request(week: bool, next: bool, start: DateArg, end: DateArg) -> bool {
    match start {
        DateArg::Missing => match end {
            DateArg::Missing => week,
            _ => false,
        },
        _ => match end {
            DateArg::Missing => week && !next && start is Given,
            _ => true,
        },
    }
}

/// An explicit start and end, the start no later than the end, come back as they are.
pub proof fn lemma_explicit_range_kept(week: bool, next: bool, s: Moment, e: Moment, now: Moment)
    requires
        s.no_later_than(e),
    ensures
        resolution_of(week, next, DateArg::Given(s), DateArg::Given(e), now) == (Resolution {
            period: Period { start: s, end: e },
            fallback: None,
        }),
{
}

/// Every period that the flags name, other than an explicit range, covers seven calendar
/// days when a week is asked for (or taken by default) and one day otherwise.
pub proof fn lemma_period_span(week: bool, next: bool, start: DateArg, end: DateArg, now: Moment)
    requires
        now.wf(),
        now.in_calendar(),
        start.valid(),
        end.valid(),
        !is_explicit_range(start, end),
    ensures
        resolution_of(week, next, start, end, now).period.span_days() == if is_week_request(
            week,
            next,
            start,
            end,
        ) {
            7int
        } else {
            1int
        },
{
}

} // verus!
