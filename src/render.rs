use crate::schedule::{Day, Lecture};
use crate::text::{clock_string, clock_text, decimal, decimal_string, same_text, signed_decimal, signed_decimal_string};
use vstd::prelude::*;

verus! {

/// Something whose named fields a template can show.
pub trait FieldSource {
    /// The text of the field called `key`.
    spec fn field_spec(&self, key: Seq<char>) -> Seq<char>;

    /// Writes the field called `key`.
    fn field(&self, key: &str) -> (r: String)
        ensures
            r@ == self.field_spec(key@),
    ;
}

/// Position of the first `}` at or after `k`, or -1 if there is none.
pub open spec fn next_close(t: Seq<char>, k: int) -> int
    decreases t.len() - k,
{
    if k < 0 || k >= t.len() {
        -1
    } else if t[k] == '}' {
        k
    } else {
        next_close(t, k + 1)
    }
}

/// The expansion of the template `t` from position `i` on: each `{key}` gives way to the
/// field `key` of `src`; every other character, a `{` without a closing `}` included,
/// stands for itself.
pub open spec fn expand_from<S: FieldSource>(t: Seq<char>, i: int, src: S) -> Seq<char>
    decreases t.len() - i,
{
    if i < 0 || i >= t.len() {
        Seq::empty()
    } else if t[i] == '{' && i < next_close(t, i + 1) < t.len() {
        let j = next_close(t, i + 1);
        src.field_spec(t.subrange(i + 1, j)) + expand_from(t, j + 1, src)
    } else {
        seq![t[i]] + expand_from(t, i + 1, src)
    }
}

/// The expansion of the whole template `t` against `src`.
pub open spec fn expand<S: FieldSource>(t: Seq<char>, src: S) -> Seq<char> {
    expand_from(t, 0, src)
}

proof fn lemma_next_close_range(t: Seq<char>, k: int)
    ensures
        next_close(t, k) == -1 || (k <= next_close(t, k) < t.len() && t[next_close(t, k)] == '}'),
    decreases t.len() - k,
{
    if 0 <= k < t.len() && t[k] != '}' {
        lemma_next_close_range(t, k + 1);
    }
}

/// Expands the template `t` against `src`.
pub fn expand_template<S: FieldSource>(t: &str, src: &S) -> (r: String)
    ensures
        r@ == expand(t@, *src),
{
    let n = t.unicode_len();
    let mut out = String::new();
    let mut i: usize = 0;
    while i < n
        invariant
            i <= n,
            n == t@.len(),
            out@ + expand_from(t@, i as int, *src) == expand(t@, *src),
        decreases n - i,
    {
        let c = t.get_char(i);
        let mut j: usize = i + 1;
        if c == '{' {
            while j < n && t.get_char(j) != '}'
                invariant
                    i < j <= n,
                    n == t@.len(),
                    next_close(t@, i + 1) == next_close(t@, j as int),
                decreases n - j,
            {
                j = j + 1;
            }
        }
        if c == '{' && j < n {
            let key = t.substring_char(i + 1, j);
            let value = src.field(key);
            proof {
                lemma_next_close_range(t@, i + 1);
                assert(next_close(t@, j as int) == j);
                assert(expand_from(t@, i as int, *src) == value@ + expand_from(t@, j + 1, *src));
                assert(out@ + value@ + expand_from(t@, j + 1, *src) =~= out@ + (value@
                    + expand_from(t@, j + 1, *src)));
            }
            out.append(value.as_str());
            i = j + 1;
        } else {
            let piece = t.substring_char(i, i + 1);
            proof {
                lemma_next_close_range(t@, i + 1);
                if c == '{' {
                    assert(next_close(t@, j as int) == -1);
                }
                assert(piece@ =~= seq![c]);
                assert(expand_from(t@, i as int, *src) == piece@ + expand_from(t@, i + 1, *src));
                assert(out@ + piece@ + expand_from(t@, i + 1, *src) =~= out@ + (piece@
                    + expand_from(t@, i + 1, *src)));
            }
            out.append(piece);
            i = i + 1;
        }
    }
    assert(out@ + expand_from(t@, i as int, *src) =~= out@);
    out
}

/// What a field name that nothing answers to is written as.
pub const UNKNOWN_FIELD: &'static str = "#wtf?";

/// What a day without lectures is written as.
pub const NO_LECTURES: &'static str = "No lectures";

/// The text of the lecture field called `key`.
pub open spec fn lecture_field(l: Lecture, key: Seq<char>) -> Seq<char> {
    if key == "number_pair"@ {
        decimal(l.number_pair as nat)
    } else if key == "start_time"@ {
        clock_text(l.period.start.hour as nat, l.period.start.minute as nat)
    } else if key == "end_time"@ {
        clock_text(l.period.end.hour as nat, l.period.end.minute as nat)
    } else if key == "lecture_type"@ {
        l.lecture_type@
    } else if key == "lecture_room"@ {
        l.lecture_room@
    } else if key == "subject.brief"@ {
        l.subject.brief@
    } else if key == "subject.title"@ {
        l.subject.title@
    } else if key == "subject.id"@ {
        signed_decimal(l.subject.id as int)
    } else {
        UNKNOWN_FIELD@
    }
}

impl FieldSource for Lecture {
    open spec fn field_spec(&self, key: Seq<char>) -> Seq<char> {
        lecture_field(*self, key)
    }

    fn field(&self, key: &str) -> (r: String) {
        if same_text(key, "number_pair") {
            decimal_string(self.number_pair as u64)
        } else if same_text(key, "start_time") {
            clock_string(self.period.start.hour, self.period.start.minute)
        } else if same_text(key, "end_time") {
            clock_string(self.period.end.hour, self.period.end.minute)
        } else if same_text(key, "lecture_type") {
            self.lecture_type.clone()
        } else if same_text(key, "lecture_room") {
            self.lecture_room.clone()
        } else if same_text(key, "subject.brief") {
            self.subject.brief.clone()
        } else if same_text(key, "subject.title") {
            self.subject.title.clone()
        } else if same_text(key, "subject.id") {
            signed_decimal_string(self.subject.id as i64)
        } else {
            String::from_str(UNKNOWN_FIELD)
        }
    }
}

/// What chrono writes for the strftime-style directive `directive` on the calendar day
/// `day` (counted from January 1 of year 1), or `None` where chrono cannot honour the
/// directive on a date or the day lies outside chrono's calendar.
pub uninterp spec fn date_directive_text(day: int, directive: Seq<char>) -> Option<Seq<char>>;

/// Relies on chrono's `NaiveDate::from_num_days_from_ce_opt` and `NaiveDate::format`,
/// written out with `DelayedFormat::write_to`, which reports an error on a directive that
/// needs a time or a time zone, or that it does not know. Chrono formats without a locale,
/// so the text depends on the day and the directive alone.
#[verifier::external_body]
fn format_date(day: i32, directive: &str) -> (r: Option<String>)
    ensures
        match r {
            Some(t) => date_directive_text(day as int, directive@) == Some(t@),
            None => date_directive_text(day as int, directive@) is None,
        },
{
    let date = chrono::NaiveDate::from_num_days_from_ce_opt(day)?;
    let mut out = String::new();
    date.format(directive).write_to(&mut out).ok()?;
    Some(out)
}

/// A calendar day seen as the source of the fields of a day label.
#[derive(Clone, Copy, Debug)]
pub struct LabelDate {
    pub date: i32,
}

/// The text of the day-label field `key`: the date written by the directive `key`.
pub open spec fn label_field(date: int, key: Seq<char>) -> Seq<char> {
    match date_directive_text(date, key) {
        Some(t) => t,
        None => UNKNOWN_FIELD@,
    }
}

/// The text that a date directive produced, or the unknown-field sentinel where it
/// produced none.
pub fn directive_or_sentinel(written: Option<String>) -> (r: String)
    ensures
        r@ == match written {
            Some(t) => t@,
            None => UNKNOWN_FIELD@,
        },
{
    match written {
        Some(t) => t,
        None => String::from_str(UNKNOWN_FIELD),
    }
}

impl FieldSource for LabelDate {
    open spec fn field_spec(&self, key: Seq<char>) -> Seq<char> {
        label_field(self.date as int, key)
    }

    fn field(&self, key: &str) -> (r: String) {
        directive_or_sentinel(format_date(self.date, key))
    }
}

/// The lectures `ls`, each expanded by the template `t`, with `sep` between them.
pub open spec fn joined(ls: Seq<Lecture>, t: Seq<char>, sep: Seq<char>) -> Seq<char>
    decreases ls.len(),
{
    if ls.len() == 0 {
        Seq::empty()
    } else if ls.len() == 1 {
        expand(t, ls[0])
    } else {
        joined(ls.drop_last(), t, sep) + sep + expand(t, ls.last())
    }
}

/// Number of lectures of a day that are shown under the limit.
pub open spec fn shown_count(len: nat, limit: nat) -> nat {
    if len < limit {
        len
    } else {
        limit
    }
}

/// The text of one day: the no-lectures marker and the separator on a line for a day
/// without lectures; otherwise the label line, when there is a label template, and a
/// line with the first `limit` lectures joined by the separator.
pub open spec fn day_text(
    day: Day,
    t: Seq<char>,
    sep: Seq<char>,
    label: Option<Seq<char>>,
    limit: nat,
) -> Seq<char> {
    let ls = day.lectures@;
    if ls.len() == 0 {
        NO_LECTURES@ + sep + seq!['\n']
    } else {
        let head = match label {
            Some(l) => expand(l, LabelDate { date: day.date }) + seq!['\n'],
            None => Seq::empty(),
        };
        head + joined(ls.take(shown_count(ls.len(), limit) as int), t, sep) + seq!['\n']
    }
}

/// The text of all the days, one after another.
pub open spec fn schedule_text(
    days: Seq<Day>,
    t: Seq<char>,
    sep: Seq<char>,
    label: Option<Seq<char>>,
    limit: nat,
) -> Seq<char>
    decreases days.len(),
{
    if days.len() == 0 {
        Seq::empty()
    } else {
        schedule_text(days.drop_last(), t, sep, label, limit) + day_text(
            days.last(),
            t,
            sep,
            label,
            limit,
        )
    }
}

/// Writes one day.
pub fn format_day(
    day: &Day,
    format: &str,
    lecture_separator: &str,
    day_label: Option<&str>,
    limit: usize,
) -> (r: String)
    ensures
        r@ == day_text(
            *day,
            format@,
            lecture_separator@,
            match day_label {
                Some(l) => Some(l@),
                None => None,
            },
            limit as nat,
        ),
{
    proof {
        reveal_strlit("\n");
    }
    let n = day.lectures.len();
    if n == 0 {
        let mut out = String::from_str(NO_LECTURES);
        out.append(lecture_separator);
        out.append("\n");
        return out;
    }
    let mut out = match day_label {
        Some(l) => {
            let mut head = expand_template(l, &LabelDate { date: day.date });
            head.append("\n");
            head
        },
        None => String::new(),
    };
    let ghost head = out@;
    let shown: usize = if n < limit {
        n
    } else {
        limit
    };
    let ghost ls = day.lectures@;
    let mut i: usize = 0;
    while i < shown
        invariant
            shown <= n,
            n == ls.len(),
            ls == day.lectures@,
            i <= shown,
            out@ == head + joined(ls.take(i as int), format@, lecture_separator@),
        decreases shown - i,
    {
        assert(ls.take(i + 1).drop_last() =~= ls.take(i as int));
        assert(ls.take(i + 1).last() == ls[i as int]);
        if i > 0 {
            out.append(lecture_separator);
        }
        let text = expand_template(format, &day.lectures[i]);
        out.append(text.as_str());
        proof {
            if i == 0 {
                assert(ls.take(1)[0] == ls[0]);
            }
            assert(out@ =~= head + joined(ls.take(i + 1), format@, lecture_separator@));
        }
        i = i + 1;
    }
    out.append("\n");
    out
}

/// Writes the days one after another, each as `format_day` does.
pub fn format_string(
    format: &str,
    lecture_separator: &str,
    day_label: Option<&str>,
    limit: usize,
    schedule: &Vec<Day>,
) -> (r: String)
    ensures
        r@ == schedule_text(
            schedule@,
            format@,
            lecture_separator@,
            match day_label {
                Some(l) => Some(l@),
                None => None,
            },
            limit as nat,
        ),
{
    let ghost label = match day_label {
        Some(l) => Some(l@),
        None => None,
    };
    let mut out = String::new();
    let mut k: usize = 0;
    while k < schedule.len()
        invariant
            k <= schedule@.len(),
            label == match day_label {
                Some(l) => Some(l@),
                None => None::<Seq<char>>,
            },
            out@ == schedule_text(
                schedule@.take(k as int),
                format@,
                lecture_separator@,
                label,
                limit as nat,
            ),
        decreases schedule@.len() - k,
    {
        assert(schedule@.take(k + 1).drop_last() =~= schedule@.take(k as int));
        assert(schedule@.take(k + 1).last() == schedule@[k as int]);
        let text = format_day(&schedule[k], format, lecture_separator, day_label, limit);
        out.append(text.as_str());
        k = k + 1;
    }
    assert(schedule@.take(k as int) =~= schedule@);
    out
}

/// Writing depends on nothing but the days, the templates, the separator and the limit:
/// the same inputs give the same text every time.
pub proof fn lemma_render_repeatable(
    days: Seq<Day>,
    again: Seq<Day>,
    t: Seq<char>,
    sep: Seq<char>,
    label: Option<Seq<char>>,
    limit: nat,
)
    requires
        days == again,
    ensures
        schedule_text(days, t, sep, label, limit) == schedule_text(again, t, sep, label, limit),
{
}

} // verus!
