use vstd::prelude::*;
use vstd::string::StringExecFns;
use crate::calendar::{date_text, hour_minute_text, spec_date_text, spec_hour_minute_text};
use crate::models::Task;

verus! {

/// The summary line of a task's reminder.
pub open spec fn spec_reminder_summary(t: Task) -> Seq<char> {
    "Task due: "@ + t.title@
}

/// The body of a task's reminder: the time of day it is due at, or else the
/// day it is due on.
pub open spec fn spec_reminder_body(t: Task) -> Seq<char> {
    match t.due_time {
        Some(tm) => "Due today at "@ + spec_hour_minute_text(tm),
        None => "Due "@ + spec_date_text(t.due_date),
    }
}

/// The summary line of a task's reminder.
pub fn reminder_summary(t: &Task) -> (r: String)
    ensures
        r@ == spec_reminder_summary(*t),
{
    let mut out = String::from_str("Task due: ");
    out.append(t.title.as_str());
    out
}

/// The body of a task's reminder.
pub fn reminder_body(t: &Task) -> (r: String)
    ensures
        r@ == spec_reminder_body(*t),
{
    match t.due_time {
        Some(tm) => {
            let mut out = String::from_str("Due today at ");
            let hm = hour_minute_text(tm);
            out.append(hm.as_str());
            out
        },
        None => {
            let mut out = String::from_str("Due ");
            let d = date_text(t.due_date);
            out.append(d.as_str());
            out
        },
    }
}

/// After an attempt to show a task's reminder: the task to record as
/// reminded of, which is the task exactly when the reminder was shown. A
/// reminder that could not be shown is tried again in the next round.
pub fn task_to_mark_notified(task_id: i64, shown: bool) -> (r: Option<i64>)
    ensures
        r == (if shown { Some(task_id) } else { None::<i64> }),
{
    if shown {
        Some(task_id)
    } else {
        None
    }
}

} // verus!
