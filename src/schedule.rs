use crate::time::Period;
use vstd::prelude::*;

verus! {

/// The subject that a lecture teaches.
#[derive(Clone, Debug)]
pub struct Subject {
    pub id: i32,
    pub brief: String,
    pub title: String,
}

/// One scheduled class.
#[derive(Clone, Debug)]
pub struct Lecture {
    pub number_pair: u8,
    pub period: Period,
    pub lecture_type: String,
    pub lecture_room: String,
    pub subject: Subject,
}

/// The lectures of one calendar day.
#[derive(Clone, Debug)]
pub struct Day {
    pub lectures: Vec<Lecture>,
    pub date: i32,
}

/// Why no schedule could be produced.
#[derive(Clone, Copy, Debug, PartialEq, Eq)]
pub enum ScheduleError {
    /// No entity matches the name that was looked up.
    NoMatch,
    /// Several entities match and none was chosen.
    AmbiguousSelection,
    /// The query succeeded and returned no lectures.
    EmptySchedule,
}

/// The kind of entity whose schedule is asked for.
#[derive(Clone, Copy, Debug, PartialEq, Eq, Structural)]
pub enum SearchType {
    Group,
    Teacher,
    LectureRoom,
}

/// The name of a kind of entity, as the command line spells it.
pub open spec fn search_type_noun(kind: SearchType) -> Seq<char> {
    match kind {
        SearchType::Group => "group"@,
        SearchType::Teacher => "teacher"@,
        SearchType::LectureRoom => "lecture_room"@,
    }
}

impl SearchType {
    /// Every kind, in the order the command line lists them.
    pub fn value_variants() -> (r: Vec<SearchType>)
        ensures
            r@ == seq![SearchType::Group, SearchType::Teacher, SearchType::LectureRoom],
    {
        vec![SearchType::Group, SearchType::Teacher, SearchType::LectureRoom]
    }

    /// The name of the kind, as the command line spells it.
    pub fn value_name(&self) -> (r: &'static str)
        ensures
            r@ == search_type_noun(*self),
    {
        match self {
            SearchType::Group => "group",
            SearchType::Teacher => "teacher",
            SearchType::LectureRoom => "lecture_room",
        }
    }
}

/// Settles which of `count` matching entities the schedule is for: none is
/// `ScheduleError::NoMatch`; a single one is taken as it is; among several, the one
/// that `choice` names, and without a valid choice `ScheduleError::AmbiguousSelection`.
pub fn pick_entity(count: usize, choice: Option<usize>) -> (r: Result<usize, ScheduleError>)
    ensures
        count == 0 ==> r == Err::<usize, ScheduleError>(ScheduleError::NoMatch),
        count == 1 ==> r == Ok::<usize, ScheduleError>(0),
        count > 1 ==> r == if choice is Some && choice->0 < count {
            Ok::<usize, ScheduleError>(choice->0)
        } else {
            Err::<usize, ScheduleError>(ScheduleError::AmbiguousSelection)
        },
{
    if count == 0 {
        Err(ScheduleError::NoMatch)
    } else if count == 1 {
        Ok(0)
    } else {
        match choice {
            Some(i) => if i < count {
                Ok(i)
            } else {
                Err(ScheduleError::AmbiguousSelection)
            },
            None => Err(ScheduleError::AmbiguousSelection),
        }
    }
}

impl Day {
    /// A day without lectures.
    pub fn with_date(date: i32) -> (r: Day)
        ensures
            r.date == date,
            r.lectures@ == Seq::<Lecture>::empty(),
    {
        Day { lectures: Vec::new(), date }
    }
}

/// Calendar day on which a lecture starts.
pub open spec fn start_day(l: Lecture) -> int {
    l.period.start.day as int
}

/// The latest of the period's end day and the end days of the lectures.
pub open spec fn last_day(lectures: Seq<Lecture>, period: Period) -> int
    decreases lectures.len(),
{
    if lectures.len() == 0 {
        period.end.day as int
    } else {
        let before = last_day(lectures.drop_last(), period);
        let end = lectures.last().period.end.day as int;
        if end > before {
            end
        } else {
            before
        }
    }
}

/// Number of days from the period's start day to `last_day`, both included.
pub open spec fn day_count(lectures: Seq<Lecture>, period: Period) -> int {
    let n = last_day(lectures, period) - period.start.day + 1;
    if n > 0 {
        n
    } else {
        0
    }
}

/// The lectures that start on `day`, in their order.
pub open spec fn lectures_on(lectures: Seq<Lecture>, day: int) -> Seq<Lecture>
    decreases lectures.len(),
{
    if lectures.len() == 0 {
        Seq::empty()
    } else {
        let before = lectures_on(lectures.drop_last(), day);
        if start_day(lectures.last()) == day {
            before.push(lectures.last())
        } else {
            before
        }
    }
}

/// `days` holds one day for each calendar date from the period's start day to
/// `last_day`, in order, each with the lectures that start on it.
pub open spec fn is_partition(days: Seq<Day>, lectures: Seq<Lecture>, period: Period) -> bool {
    &&& days.len() == day_count(lectures, period)
    &&& forall|i: int|
        0 <= i < days.len() ==> (#[trigger] days[i]).date == period.start.day + i
            && days[i].lectures@ == lectures_on(lectures, period.start.day + i)
}

fn last_day_of(schedule: &Vec<Lecture>, period: &Period) -> (r: i32)
    ensures
        r == last_day(schedule@, *period),
{
    let mut last = period.end.day;
    let mut k: usize = 0;
    while k < schedule.len()
        invariant
            k <= schedule@.len(),
            last == last_day(schedule@.subrange(0, k as int), *period),
        decreases schedule@.len() - k,
    {
        assert(schedule@.subrange(0, k + 1).drop_last() =~= schedule@.subrange(0, k as int));
        let end = schedule[k].period.end.day;
        if end > last {
            last = end;
        }
        k = k + 1;
    }
    assert(schedule@.subrange(0, k as int) =~= schedule@);
    last
}

/// Splits a schedule into calendar days: one day for each date from the period's start
/// day to the latest of the period's end day and the lectures' end days, empty days
/// included. Each lecture goes to the day on which it starts, in the order given; a
/// lecture that starts before the period's start day is left out. An empty schedule
/// is `ScheduleError::EmptySchedule`.
pub fn split_days(schedule: Vec<Lecture>, period: &Period) -> (r: Result<Vec<Day>, ScheduleError>)
    ensures
        schedule@.len() == 0 ==> r == Err::<Vec<Day>, ScheduleError>(ScheduleError::EmptySchedule),
        schedule@.len() > 0 ==> (r matches Ok(days) && is_partition(days@, schedule@, *period)),
        schedule@.len() > 0 && period.start.day <= period.end.day ==> (r matches Ok(days)
            && days@.len() >= 1),
{
    proof {
        lemma_last_day_bound(schedule@, *period);
    }
    if schedule.len() == 0 {
        return Err(ScheduleError::EmptySchedule);
    }
    let ghost all = schedule@;
    let first = period.start.day;
    let last = last_day_of(&schedule, period);
    let count: i64 = if last as i64 - first as i64 + 1 > 0 {
        last as i64 - first as i64 + 1
    } else {
        0
    };
    let mut days: Vec<Day> = Vec::new();
    let mut offset: i64 = 0;
    while offset < count
        invariant
            0 <= offset <= count,
            count == day_count(all, *period),
            first == period.start.day,
            last == last_day(all, *period),
            days@.len() == offset,
            forall|i: int|
                0 <= i < offset ==> (#[trigger] days@[i]).date == first + i && days@[i].lectures@
                    == Seq::<Lecture>::empty(),
        decreases count - offset,
    {
        days.push(Day::with_date((first as i64 + offset) as i32));
        offset = offset + 1;
    }
    proof {
        assert forall|i: int| 0 <= i < days@.len() implies days@[i].lectures@ == lectures_on(
            all.subrange(0, 0),
            first + i,
        ) by {
            assert(days@[i].date == first + i);
            assert(all.subrange(0, 0).len() == 0);
        }
    }
    let n = schedule.len();
    let mut rest = schedule;
    let mut k: usize = 0;
    while k < n
        invariant
            n == all.len(),
            k <= n,
            rest@ == all.subrange(k as int, n as int),
            count == days@.len(),
            first == period.start.day,
            forall|i: int|
                0 <= i < days@.len() ==> (#[trigger] days@[i]).date == first + i && days@[i].lectures@
                    == lectures_on(all.subrange(0, k as int), first + i),
        decreases n - k,
    {
        let lecture = rest.remove(0);
        assert(lecture == all[k as int]);
        let ghost before = days@;
        let idx: i64 = lecture.period.start.day as i64 - first as i64;
        if 0 <= idx && idx < count {
            let mut day = days.remove(idx as usize);
            day.lectures.push(lecture);
            days.insert(idx as usize, day);
            assert(days@ =~= before.update(idx as int, day));
        }
        k = k + 1;
        proof {
            let prefix = all.subrange(0, k - 1);
            let grown = all.subrange(0, k as int);
            assert(grown.drop_last() =~= prefix);
            assert(grown.last() == lecture);
            assert forall|i: int| 0 <= i < days@.len() implies (#[trigger] days@[i]).date == first + i
                && days@[i].lectures@ == lectures_on(grown, first + i) by {
                assert(before[i].date == first + i);
                assert(lectures_on(grown, first + i) == if start_day(lecture) == first + i {
                    lectures_on(prefix, first + i).push(lecture)
                } else {
                    lectures_on(prefix, first + i)
                });
            }
        }
        assert(rest@ =~= all.subrange(k as int, n as int));
    }
    assert(all.subrange(0, n as int) =~= all);
    Ok(days)
}

/// Sum of the numbers of lectures over `days`.
pub open spec fn lecture_total(days: Seq<Day>) -> int
    decreases days.len(),
{
    if days.len() == 0 {
        0
    } else {
        lecture_total(days.drop_last()) + days.last().lectures@.len()
    }
}

proof fn lemma_last_day_bound(lectures: Seq<Lecture>, period: Period)
    ensures
        last_day(lectures, period) >= period.end.day,
    decreases lectures.len(),
{
    if lectures.len() > 0 {
        lemma_last_day_bound(lectures.drop_last(), period);
    }
}

/// Number of lectures that start on one of the `count` days from `first` on.
pub open spec fn in_range_count(lectures: Seq<Lecture>, first: int, count: int) -> int
    decreases lectures.len(),
{
    if lectures.len() == 0 {
        0
    } else {
        in_range_count(lectures.drop_last(), first, count) + if first <= start_day(
            lectures.last(),
        ) < first + count {
            1int
        } else {
            0int
        }
    }
}

proof fn lemma_bucket_is_in_range(lectures: Seq<Lecture>, first: int, count: nat)
    ensures
        bucket_total(lectures, first, count) == in_range_count(lectures, first, count as int),
    decreases lectures.len(),
{
    if lectures.len() == 0 {
        lemma_bucket_empty(lectures, first, count);
    } else {
        lemma_bucket_step(lectures, first, count);
        lemma_bucket_is_in_range(lectures.drop_last(), first, count);
    }
}

/// Number of lectures that start on the `count` days from `first` on.
spec fn bucket_total(lectures: Seq<Lecture>, first: int, count: nat) -> int
    decreases count,
{
    if count == 0 {
        0
    } else {
        bucket_total(lectures, first, (count - 1) as nat) + lectures_on(
            lectures,
            first + count - 1,
        ).len()
    }
}

proof fn lemma_bucket_step(lectures: Seq<Lecture>, first: int, count: nat)
    requires
        lectures.len() > 0,
    ensures
        bucket_total(lectures, first, count) == bucket_total(lectures.drop_last(), first, count)
            + if first <= start_day(lectures.last()) < first + count {
            1int
        } else {
            0int
        },
    decreases count,
{
    if count > 0 {
        lemma_bucket_step(lectures, first, (count - 1) as nat);
    }
}

proof fn lemma_bucket_bound(lectures: Seq<Lecture>, first: int, count: nat)
    ensures
        0 <= bucket_total(lectures, first, count) <= lectures.len(),
    decreases lectures.len(),
{
    if lectures.len() == 0 {
        lemma_bucket_empty(lectures, first, count);
    } else {
        lemma_bucket_step(lectures, first, count);
        lemma_bucket_bound(lectures.drop_last(), first, count);
    }
}

proof fn lemma_bucket_empty(lectures: Seq<Lecture>, first: int, count: nat)
    requires
        lectures.len() == 0,
    ensures
        bucket_total(lectures, first, count) == 0,
    decreases count,
{
    if count > 0 {
        lemma_bucket_empty(lectures, first, (count - 1) as nat);
    }
}

proof fn lemma_total_is_bucket(days: Seq<Day>, lectures: Seq<Lecture>, first: int)
    requires
        forall|i: int|
            0 <= i < days.len() ==> (#[trigger] days[i]).lectures@ == lectures_on(
                lectures,
                first + i,
            ),
    ensures
        lecture_total(days) == bucket_total(lectures, first, days.len()),
    decreases days.len(),
{
    if days.len() > 0 {
        let shorter = days.drop_last();
        assert forall|i: int| 0 <= i < shorter.len() implies (#[trigger] shorter[i]).lectures@
            == lectures_on(lectures, first + i) by {
            assert(shorter[i] == days[i]);
        }
        lemma_total_is_bucket(shorter, lectures, first);
        assert(days.last() == days[days.len() - 1]);
    }
}

/// The days of a partition follow one another in calendar order, one day apart and
/// without repeats; there is at least one when the schedule is not empty and the period
/// does not end before it starts. Together they hold exactly the lectures that start on
/// one of their dates, so no more than the schedule.
pub proof fn lemma_partition_shape(days: Seq<Day>, lectures: Seq<Lecture>, period: Period)
    requires
        is_partition(days, lectures, period),
    ensures
        forall|i: int| 0 <= i < days.len() - 1 ==> #[trigger] days[i + 1].date == days[i].date + 1,
        forall|i: int, j: int| 0 <= i < j < days.len() ==> days[i].date < days[j].date,
        lectures.len() > 0 && period.start.day <= period.end.day ==> days.len() >= 1,
        lecture_total(days) == in_range_count(lectures, period.start.day as int, days.len() as int),
        lecture_total(days) <= lectures.len(),
{
    lemma_last_day_bound(lectures, period);
    assert forall|i: int| 0 <= i < days.len() - 1 implies #[trigger] days[i + 1].date
        == days[i].date + 1 by {
        assert(days[i].date == period.start.day + i);
        assert(days[i + 1].date == period.start.day + i + 1);
    }
    assert forall|i: int, j: int| 0 <= i < j < days.len() implies days[i].date < days[j].date by {
        assert(days[i].date == period.start.day + i);
        assert(days[j].date == period.start.day + j);
    }
    lemma_total_is_bucket(days, lectures, period.start.day as int);
    lemma_bucket_bound(lectures, period.start.day as int, days.len());
    lemma_bucket_is_in_range(lectures, period.start.day as int, days.len());
}

} // verus!
