use vstd::prelude::*;
use vstd::string::StringExecFns;

verus! {

/// Where a task stands in its life.
#[derive(Debug, Clone, Copy, PartialEq, Eq, Structural)]
pub enum TaskStatus {
    Pending,
    Done,
    Cancelled,
}

/// A calendar day of the proleptic Gregorian calendar.
#[derive(Debug, Clone, Copy, PartialEq, Eq, Structural)]
pub struct Date {
    pub year: i32,
    pub month: u32,
    pub day: u32,
}

/// A time of day, down to the nanosecond.
#[derive(Debug, Clone, Copy, PartialEq, Eq, Structural)]
pub struct Time {
    pub hour: u32,
    pub minute: u32,
    pub second: u32,
    pub nanosecond: u32,
}

/// A day and a time of day, with no time zone.
#[derive(Debug, Clone, Copy, PartialEq, Eq, Structural)]
pub struct DateTime {
    pub date: Date,
    pub time: Time,
}

/// One row of the task table.
#[derive(Debug, Clone, PartialEq, Eq)]
pub struct Task {
    pub id: i64,
    pub title: String,
    pub status: TaskStatus,
    pub priority: i8,
    pub created_at: Option<DateTime>,
    pub updated_at: Option<DateTime>,
    pub due_date: Date,
    pub due_time: Option<Time>,
    pub notified_at: Option<DateTime>,
}

/// One row of the note table: a remark attached to a task.
#[derive(Debug, Clone, PartialEq, Eq)]
pub struct TaskNote {
    pub id: i64,
    pub task_id: i64,
    pub content: String,
    pub created_at: Option<DateTime>,
}

/// `a` comes strictly before `b` in the calendar.
pub open spec fn date_lt(a: Date, b: Date) -> bool {
    a.year < b.year || (a.year == b.year && (a.month < b.month || (a.month == b.month
        && a.day < b.day)))
}

/// `a` is strictly earlier in the day than `b`.
pub open spec fn time_lt(a: Time, b: Time) -> bool {
    a.hour < b.hour || (a.hour == b.hour && (a.minute < b.minute || (a.minute == b.minute && (
    a.second < b.second || (a.second == b.second && a.nanosecond < b.nanosecond)))))
}

/// `a` is strictly earlier than `b`.
pub open spec fn datetime_lt(a: DateTime, b: DateTime) -> bool {
    date_lt(a.date, b.date) || (a.date == b.date && time_lt(a.time, b.time))
}

/// `a` is earlier than `b` or the same instant.
pub open spec fn datetime_le(a: DateTime, b: DateTime) -> bool {
    datetime_lt(a, b) || a == b
}

/// The start of a day.
pub open spec fn spec_midnight() -> Time {
    Time { hour: 0, minute: 0, second: 0, nanosecond: 0 }
}

impl Date {
    /// Whether this day comes strictly before `other`.
    pub fn is_before(&self, other: &Date) -> (r: bool)
        ensures
            r == date_lt(*self, *other),
    {
        self.year < other.year || (self.year == other.year && (self.month < other.month || (
        self.month == other.month && self.day < other.day)))
    }
}

impl Time {
    /// The start of a day, 00:00:00.
    pub fn midnight() -> (r: Time)
        ensures
            r == spec_midnight(),
    {
        Time { hour: 0, minute: 0, second: 0, nanosecond: 0 }
    }

    /// Whether this time of day is strictly earlier than `other`.
    pub fn is_before(&self, other: &Time) -> (r: bool)
        ensures
            r == time_lt(*self, *other),
    {
        self.hour < other.hour || (self.hour == other.hour && (self.minute < other.minute || (
        self.minute == other.minute && (self.second < other.second || (self.second
            == other.second && self.nanosecond < other.nanosecond)))))
    }
}

impl DateTime {
    /// Whether this instant is strictly earlier than `other`.
    pub fn is_before(&self, other: &DateTime) -> (r: bool)
        ensures
            r == datetime_lt(*self, *other),
    {
        self.date.is_before(&other.date) || (self.date == other.date && self.time.is_before(
            &other.time,
        ))
    }

    /// Whether this instant is earlier than `other` or the same.
    pub fn is_at_or_before(&self, other: &DateTime) -> (r: bool)
        ensures
            r == datetime_le(*self, *other),
    {
        self.is_before(other) || *self == *other
    }
}

impl TaskStatus {
    /// The word under which the status is stored in the task table.
    pub fn as_str(&self) -> (r: &'static str)
        ensures
            r@ == spec_status_text(*self),
    {
        proof {
            reveal_strlit("pending");
            reveal_strlit("done");
            reveal_strlit("cancelled");
        }
        match self {
            TaskStatus::Pending => "pending",
            TaskStatus::Done => "done",
            TaskStatus::Cancelled => "cancelled",
        }
    }
}

/// The status that a stored word names, if any.
pub open spec fn spec_status_from_text(s: Seq<char>) -> Option<TaskStatus> {
    if s == spec_status_text(TaskStatus::Pending) {
        Some(TaskStatus::Pending)
    } else if s == spec_status_text(TaskStatus::Done) {
        Some(TaskStatus::Done)
    } else if s == spec_status_text(TaskStatus::Cancelled) {
        Some(TaskStatus::Cancelled)
    } else {
        None
    }
}

impl TaskStatus {
    /// Reads a status from the word under which it is stored.
    pub fn from_stored(text: &str) -> (r: Option<TaskStatus>)
        ensures
            r == spec_status_from_text(text@),
    {
        proof {
            reveal_strlit("pending");
            reveal_strlit("done");
            reveal_strlit("cancelled");
        }
        let t = String::from_str(text);
        if t == String::from_str("pending") {
            Some(TaskStatus::Pending)
        } else if t == String::from_str("done") {
            Some(TaskStatus::Done)
        } else if t == String::from_str("cancelled") {
            Some(TaskStatus::Cancelled)
        } else {
            None
        }
    }
}

/// Reading back the stored word of a status gives the status again, and two
/// statuses never share a word.
pub proof fn law_status_text_round_trip(s: TaskStatus)
    ensures
        spec_status_from_text(spec_status_text(s)) == Some(s),
{
    reveal_strlit("pending");
    reveal_strlit("done");
    reveal_strlit("cancelled");
    assert(spec_status_text(TaskStatus::Pending) != spec_status_text(TaskStatus::Done)) by {
        assert(spec_status_text(TaskStatus::Pending).len() != spec_status_text(TaskStatus::Done).len());
    }
    assert(spec_status_text(TaskStatus::Pending) != spec_status_text(TaskStatus::Cancelled)) by {
        assert(spec_status_text(TaskStatus::Pending).len() != spec_status_text(TaskStatus::Cancelled).len());
    }
    assert(spec_status_text(TaskStatus::Done) != spec_status_text(TaskStatus::Cancelled)) by {
        assert(spec_status_text(TaskStatus::Done).len() != spec_status_text(TaskStatus::Cancelled).len());
    }
}

/// The stored word of each status: its name in lower case.
pub open spec fn spec_status_text(s: TaskStatus) -> Seq<char> {
    match s {
        TaskStatus::Pending => "pending"@,
        TaskStatus::Done => "done"@,
        TaskStatus::Cancelled => "cancelled"@,
    }
}

} // verus!
