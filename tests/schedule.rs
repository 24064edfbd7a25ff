use nure_cli::{
    format_string, pick_entity, resolve_period, resolve_with, search_report, split_days, DateArg,
    Day, Fallback, Lecture, Moment, Period, ScheduleError, Search, SearchType, Subject,
    NO_LECTURES, UNKNOWN_FIELD,
};

/// 2024-01-01, a Monday, counted from January 1 of year 1.
const MONDAY: i32 = 738_886;

fn at(day: i32, hour: u32, minute: u32) -> Moment {
    Moment { day, hour, minute, second: 0 }
}

fn lecture(day: i32, start: (u32, u32), end: (u32, u32), pair: u8, brief: &str) -> Lecture {
    Lecture {
        number_pair: pair,
        period: Period { start: at(day, start.0, start.1), end: at(day, end.0, end.1) },
        lecture_type: "Lc".to_string(),
        lecture_room: "285".to_string(),
        subject: Subject { id: 7, brief: brief.to_string(), title: format!("{brief} course") },
    }
}

fn week_days() -> Period {
    Period {
        start: at(MONDAY, 0, 0),
        end: Moment { day: MONDAY + 4, hour: 23, minute: 59, second: 59 },
    }
}

fn two_lecture_week() -> Vec<Day> {
    let lectures = vec![
        lecture(MONDAY, (9, 0), (10, 20), 1, "Math"),
        lecture(MONDAY + 2, (10, 40), (12, 0), 2, "CS"),
    ];
    split_days(lectures, &week_days()).unwrap()
}

#[test]
fn week_with_two_lectures_has_five_days() {
    let days = two_lecture_week();
    assert_eq!(days.len(), 5);
    let counts: Vec<usize> = days.iter().map(|d| d.lectures.len()).collect();
    assert_eq!(counts, vec![1, 0, 1, 0, 0]);
    let dates: Vec<i32> = days.iter().map(|d| d.date).collect();
    assert_eq!(dates, vec![MONDAY, MONDAY + 1, MONDAY + 2, MONDAY + 3, MONDAY + 4]);
    let text = format_string("{number_pair}: {subject.brief}", "\n", None, 255, &days);
    assert_eq!(
        text,
        "1: Math\nNo lectures\n\n2: CS\nNo lectures\n\nNo lectures\n\n"
    );
    assert_eq!(text.matches(NO_LECTURES).count(), 3);
}

#[test]
fn day_labels_name_the_weekday() {
    let days = two_lecture_week();
    let text = format_string("{subject.brief}", ";", Some("{%A}"), 255, &days);
    assert_eq!(
        text,
        "Monday\nMath\nNo lectures;\nWednesday\nCS\nNo lectures;\nNo lectures;\n"
    );
}

#[test]
fn label_with_date_parts() {
    let days = vec![{
        let mut d = Day::with_date(MONDAY + 2);
        d.lectures.push(lecture(MONDAY + 2, (8, 5), (9, 25), 1, "Phys"));
        d
    }];
    let text = format_string("{start_time}-{end_time}", "\n", Some("{%d.%m.%Y} ({%a})"), 9, &days);
    assert_eq!(text, "03.01.2024 (Wed)\n08:05-09:25\n");
}

#[test]
fn label_directive_that_needs_a_time_gives_sentinel() {
    let days = vec![{
        let mut d = Day::with_date(MONDAY);
        d.lectures.push(lecture(MONDAY, (8, 5), (9, 25), 1, "Phys"));
        d
    }];
    let text = format_string("{number_pair}", "\n", Some("{%H}"), 9, &days);
    assert_eq!(text, format!("{UNKNOWN_FIELD}\n1\n"));
}

#[test]
fn limit_keeps_first_lecture_without_trailing_separator() {
    let mut day = Day::with_date(MONDAY);
    day.lectures.push(lecture(MONDAY, (9, 0), (10, 20), 1, "Math"));
    day.lectures.push(lecture(MONDAY, (10, 40), (12, 0), 2, "CS"));
    let text = format_string("{number_pair}: {subject.brief}", ", ", None, 1, &vec![day]);
    assert_eq!(text, "1: Math\n");
}

#[test]
fn separator_joins_without_trailing() {
    let mut day = Day::with_date(MONDAY);
    day.lectures.push(lecture(MONDAY, (9, 0), (10, 20), 1, "Math"));
    day.lectures.push(lecture(MONDAY, (10, 40), (12, 0), 2, "CS"));
    let text = format_string("{number_pair}: {subject.brief}", ", ", None, 255, &vec![day]);
    assert_eq!(text, "1: Math, 2: CS\n");
}

#[test]
fn unknown_field_becomes_sentinel() {
    let mut day = Day::with_date(MONDAY);
    day.lectures.push(lecture(MONDAY, (9, 0), (10, 20), 1, "Math"));
    let text = format_string("a {foo} b", "\n", None, 255, &vec![day]);
    assert_eq!(text, "a #wtf? b\n");
    assert_eq!(UNKNOWN_FIELD, "#wtf?");
}

#[test]
fn every_lecture_field() {
    let mut l = lecture(MONDAY, (7, 45), (9, 5), 3, "OOP");
    l.subject.id = -12;
    let mut day = Day::with_date(MONDAY);
    day.lectures.push(l);
    let tmpl = "{number_pair}|{start_time}|{end_time}|{lecture_type}|{lecture_room}|{subject.brief}|{subject.title}|{subject.id}";
    let text = format_string(tmpl, "\n", None, 255, &vec![day]);
    assert_eq!(text, "3|07:45|09:05|Lc|285|OOP|OOP course|-12\n");
}

#[test]
fn unclosed_brace_stays_literal() {
    let mut day = Day::with_date(MONDAY);
    day.lectures.push(lecture(MONDAY, (9, 0), (10, 20), 4, "Math"));
    let text = format_string("{number_pair} {open", "\n", None, 255, &vec![day]);
    assert_eq!(text, "4 {open\n");
}

#[test]
fn rendering_twice_gives_the_same_text() {
    let days = two_lecture_week();
    let a = format_string("{number_pair}: {subject.brief} - {lecture_type}", "\n", Some("{%A}"), 255, &days);
    let b = format_string("{number_pair}: {subject.brief} - {lecture_type}", "\n", Some("{%A}"), 255, &days);
    assert_eq!(a, b);
}

#[test]
fn empty_schedule_is_an_error() {
    assert!(matches!(split_days(vec![], &week_days()), Err(ScheduleError::EmptySchedule)));
}

#[test]
fn lecture_before_period_is_dropped_and_late_one_extends() {
    let lectures = vec![
        lecture(MONDAY - 1, (9, 0), (10, 0), 1, "Early"),
        lecture(MONDAY, (9, 0), (10, 0), 2, "Mon"),
        lecture(MONDAY + 6, (9, 0), (10, 0), 3, "Sun"),
    ];
    let days = split_days(lectures, &week_days()).unwrap();
    assert_eq!(days.len(), 7);
    let total: usize = days.iter().map(|d| d.lectures.len()).sum();
    assert_eq!(total, 2);
    assert_eq!(days[0].lectures[0].subject.brief, "Mon");
    assert_eq!(days[6].lectures[0].subject.brief, "Sun");
    for w in days.windows(2) {
        assert_eq!(w[1].date, w[0].date + 1);
    }
}

#[test]
fn lectures_keep_their_order_within_a_day() {
    let lectures = vec![
        lecture(MONDAY, (12, 0), (13, 0), 3, "B"),
        lecture(MONDAY, (9, 0), (10, 0), 1, "A"),
    ];
    let days = split_days(lectures, &Period { start: at(MONDAY, 0, 0), end: at(MONDAY, 23, 0) }).unwrap();
    assert_eq!(days.len(), 1);
    assert_eq!(days[0].lectures[0].subject.brief, "B");
    assert_eq!(days[0].lectures[1].subject.brief, "A");
}

#[test]
fn explicit_range_is_kept() {
    let now = at(MONDAY + 10, 12, 0);
    let s = at(MONDAY, 8, 0);
    let e = at(MONDAY + 3, 18, 30);
    let r = resolve_with(true, true, DateArg::Given(s), DateArg::Given(e), now);
    assert_eq!(r.period, Period { start: s, end: e });
    assert_eq!(r.fallback, None);
}

#[test]
fn reversed_range_falls_back_to_this_week() {
    let now = at(MONDAY + 2, 12, 0);
    let r = resolve_with(false, false, DateArg::Given(at(MONDAY + 3, 0, 0)), DateArg::Given(at(MONDAY, 0, 0)), now);
    assert_eq!(r.fallback, Some(Fallback::ReversedRange));
    assert_eq!(r.period.start, at(MONDAY, 0, 0));
    assert_eq!(r.period.end, Moment { day: MONDAY + 6, hour: 23, minute: 59, second: 59 });
}

#[test]
fn day_and_week_spans() {
    let now = at(MONDAY + 3, 12, 0);
    let cases = [
        (false, false, DateArg::Missing, DateArg::Missing, 1),
        (false, true, DateArg::Missing, DateArg::Missing, 1),
        (true, false, DateArg::Missing, DateArg::Missing, 7),
        (true, true, DateArg::Missing, DateArg::Missing, 7),
        (false, false, DateArg::Given(at(MONDAY + 20, 9, 0)), DateArg::Missing, 1),
        (true, false, DateArg::Given(at(MONDAY + 20, 9, 0)), DateArg::Missing, 7),
        (false, false, DateArg::Unreadable, DateArg::Missing, 1),
        (true, false, DateArg::Unreadable, DateArg::Missing, 1),
        (false, true, DateArg::Given(at(MONDAY, 9, 0)), DateArg::Missing, 1),
        (false, false, DateArg::Missing, DateArg::Given(at(MONDAY, 9, 0)), 1),
        (false, false, DateArg::Unreadable, DateArg::Given(at(MONDAY, 9, 0)), 7),
    ];
    for (week, next, s, e, span) in cases {
        let r = resolve_with(week, next, s, e, now);
        assert_eq!(r.period.end.day - r.period.start.day + 1, span);
    }
}

#[test]
fn weeks_start_on_monday() {
    let r = resolve_with(true, false, DateArg::Missing, DateArg::Missing, at(MONDAY + 6, 23, 0));
    assert_eq!(r.period.start, at(MONDAY, 0, 0));
    let next = resolve_with(true, true, DateArg::Missing, DateArg::Missing, at(MONDAY, 0, 0));
    assert_eq!(next.period.start, at(MONDAY + 7, 0, 0));
    assert_eq!(next.period.end.day, MONDAY + 13);
}

#[test]
fn current_day_is_the_whole_day() {
    let r = resolve_with(false, false, DateArg::Missing, DateArg::Missing, at(MONDAY, 10, 15));
    assert_eq!(r.period.start, at(MONDAY, 0, 0));
    assert_eq!(r.period.end, Moment { day: MONDAY, hour: 23, minute: 59, second: 59 });
    let early = resolve_with(false, false, DateArg::Missing, DateArg::Missing, at(MONDAY, 0, 30));
    assert_eq!(early.period.start, at(MONDAY, 0, 0));
    assert_eq!(early.fallback, None);
}

#[test]
fn next_day_is_tomorrow() {
    let r = resolve_with(false, true, DateArg::Missing, DateArg::Missing, at(MONDAY, 10, 0));
    assert_eq!(r.period.start, at(MONDAY + 1, 0, 0));
    assert_eq!(r.fallback, None);
}

#[test]
fn unsupported_flags_fall_back_to_today() {
    let r = resolve_with(false, false, DateArg::Missing, DateArg::Given(at(MONDAY, 0, 0)), at(MONDAY + 2, 10, 0));
    assert_eq!(r.fallback, Some(Fallback::UnsupportedFlags));
    assert_eq!(r.period.start, at(MONDAY + 2, 0, 0));
}

#[test]
fn unreadable_dates_fall_back() {
    let now = at(MONDAY + 2, 10, 0);
    let r = resolve_with(false, false, DateArg::Unreadable, DateArg::Missing, now);
    assert_eq!(r.fallback, Some(Fallback::UnreadableDay));
    let r = resolve_with(true, false, DateArg::Unreadable, DateArg::Missing, now);
    assert_eq!(r.fallback, Some(Fallback::UnreadableWeek));
    assert_eq!(r.period.start, at(MONDAY + 2, 0, 0));
    assert_eq!(r.period.end.day, MONDAY + 2);
    let r = resolve_with(false, false, DateArg::Given(now), DateArg::Unreadable, now);
    assert_eq!(r.fallback, Some(Fallback::UnreadableRange));
}

#[test]
fn reads_a_start_date() {
    let now = at(MONDAY + 30, 10, 0);
    let r = resolve_period(&Some("2024-01-03 12:00:00".to_string()), &None, false, false, now);
    assert_eq!(r.fallback, None);
    assert_eq!(r.period.start, at(MONDAY + 2, 0, 0));
    let bad = resolve_period(&Some("no date at all".to_string()), &None, false, false, now);
    assert_eq!(bad.fallback, Some(Fallback::UnreadableDay));
    assert_eq!(bad.period.start, at(MONDAY + 30, 0, 0));
}

#[test]
fn search_with_no_match() {
    let text = search_report(Search::Group, "XYZ123", &vec![]);
    assert_eq!(text, "Didn't find any groups matching 'XYZ123'\n");
}

#[test]
fn search_with_one_and_many_matches() {
    let one = search_report(Search::Teacher, "Iv", &vec!["Ivanov I. I.".to_string()]);
    assert_eq!(one, "Found 1 teacher with name Ivanov I. I.\n");
    let names: Vec<String> = (0..12).map(|i| format!("room {i}")).collect();
    let many = search_report(Search::LectureRoom, "room", &names);
    assert!(many.starts_with("Found 12 lecture_rooms with names:\n\troom 0\n"));
    assert!(many.ends_with("\troom 11\n"));
}

#[test]
fn value_names() {
    let names: Vec<&str> = Search::value_variants().iter().map(|k| k.value_name()).collect();
    assert_eq!(names, vec!["group", "teacher", "lecture_room"]);
    let names: Vec<&str> = SearchType::value_variants().iter().map(|k| k.value_name()).collect();
    assert_eq!(names, vec!["group", "teacher", "lecture_room"]);
}

#[test]
fn picking_an_entity() {
    assert_eq!(pick_entity(0, None), Err(ScheduleError::NoMatch));
    assert_eq!(pick_entity(1, None), Ok(0));
    assert_eq!(pick_entity(3, Some(2)), Ok(2));
    assert_eq!(pick_entity(3, Some(3)), Err(ScheduleError::AmbiguousSelection));
    assert_eq!(pick_entity(3, None), Err(ScheduleError::AmbiguousSelection));
}

#[test]
fn current_week_from_the_clock() {
    let r = nure_cli::resolve_period_now(&None, &None, true, false);
    assert_eq!(r.fallback, None);
    assert_eq!(r.period.end.day - r.period.start.day + 1, 7);
    assert_eq!((r.period.start.day - 1).rem_euclid(7), 0);
    assert_eq!((r.period.start.hour, r.period.start.minute, r.period.start.second), (0, 0, 0));
}

#[test]
fn missing_directive_text_becomes_sentinel() {
    assert_eq!(nure_cli::directive_or_sentinel(None), "#wtf?");
    assert_eq!(nure_cli::directive_or_sentinel(Some("Friday".to_string())), "Friday");
}

#[test]
fn expanding_against_a_lecture() {
    let l = lecture(MONDAY, (9, 0), (10, 20), 2, "Math");
    assert_eq!(nure_cli::expand_template("[{number_pair}] {subject.brief}", &l), "[2] Math");
    assert_eq!(nure_cli::expand_template("plain", &l), "plain");
    assert_eq!(nure_cli::expand_template("{}", &l), "#wtf?");
}

#[test]
fn expanding_a_label() {
    let d = nure_cli::LabelDate { date: MONDAY };
    assert_eq!(nure_cli::expand_template("{%A}, {%B} {%e}", &d), "Monday, January  1");
    assert_eq!(nure_cli::expand_template("{%Q}", &d), "#wtf?");
}

#[test]
fn offsets_of_a_day_or_more_are_unreadable() {
    assert!(nure_cli::offset_too_large("2024-01-02 +9900"));
    assert!(nure_cli::offset_too_large("2024-01-02 10:00 -24:00"));
    assert!(!nure_cli::offset_too_large("2024-12-31 12:00:00"));
    assert!(!nure_cli::offset_too_large("2024-01-02 10:00 +0200"));
    let now = at(MONDAY + 30, 10, 0);
    let r = resolve_period(&Some("2024-01-02 +9900".to_string()), &None, false, false, now);
    assert_eq!(r.fallback, Some(Fallback::UnreadableDay));
    assert_eq!(r.period.start, at(MONDAY + 30, 0, 0));
    let r = resolve_period(&Some("2024-01-02 10:00 +9900".to_string()), &None, true, false, now);
    assert_eq!(r.fallback, Some(Fallback::UnreadableWeek));
}

#[test]
fn reversed_period_with_lectures_still_spans_their_days() {
    let lectures = vec![lecture(MONDAY + 1, (9, 0), (10, 0), 1, "A")];
    let period = Period { start: at(MONDAY, 12, 0), end: at(MONDAY, 11, 0) };
    let days = split_days(lectures, &period).unwrap();
    assert_eq!(days.len(), 2);
    assert_eq!(days[1].lectures.len(), 1);
}
