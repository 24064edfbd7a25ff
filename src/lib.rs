//! Looks up a university's class schedule: resolves the period that the command-line
//! flags ask for, splits the lectures of that period into calendar days, and writes
//! them out through small text templates.
use vstd::prelude::*;

pub mod render;
pub mod schedule;
pub mod search;
pub mod text;
pub mod time;

pub use render::{
    directive_or_sentinel, expand_template, format_day, format_string, FieldSource, LabelDate,
    NO_LECTURES, UNKNOWN_FIELD,
};
pub use schedule::{pick_entity, split_days, Day, Lecture, ScheduleError, SearchType, Subject};
pub use search::{search_report, Search};
pub use time::{
    offset_too_large, resolve_period, resolve_period_now, resolve_with, DateArg, Fallback, Moment, Period, Resolution,
};

verus! {

} // verus!
