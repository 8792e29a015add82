use vstd::prelude::*;
use vstd::string::StringExecFns;
use crate::calendar::{date_is_valid, time_is_valid, date_text, hour_minute_text, is_valid_date, is_valid_time, spec_date_text, spec_hour_minute_text};
use crate::models::{Task, TaskNote};
use crate::present::{datetime_text, spec_datetime_text, spec_status_label, status_label};
use crate::text::{push_signed, signed_decimal};

verus! {

/// What the command line says after creating a task.
pub open spec fn spec_created_message(id: i64) -> Seq<char> {
    "Created task #"@ + signed_decimal(id as int)
}

/// What the command line says when a listing is empty.
pub open spec fn spec_no_tasks_message() -> Seq<char> {
    "No tasks found."@
}

/// What the command line says after marking a task done.
pub open spec fn spec_done_message(t: Task) -> Seq<char> {
    "Marked task #"@ + signed_decimal(t.id as int) + " as done: "@ + t.title@
}

/// What the command line says after adding a note.
pub open spec fn spec_note_added_message(note_id: i64, task_id: i64) -> Seq<char> {
    "Added note #"@ + signed_decimal(note_id as int) + " to task #"@ + signed_decimal(task_id as int)
}

/// What the command line says after rescheduling a task.
pub open spec fn spec_rescheduled_message(t: Task) -> Seq<char> {
    "Rescheduled task #"@ + signed_decimal(t.id as int) + " to "@ + spec_date_text(t.due_date)
}

/// What the command line says when no task has the id it was given.
pub open spec fn spec_no_task_message(id: i64) -> Seq<char> {
    "No task found with id "@ + signed_decimal(id as int)
}

/// What the command line says after deleting a task.
pub open spec fn spec_deleted_message(id: i64) -> Seq<char> {
    "Deleted task #"@ + signed_decimal(id as int)
}

/// The line of a note in a task's details: its creation time in brackets
/// (empty brackets without one), then its text.
pub open spec fn spec_note_line(n: TaskNote) -> Seq<char> {
    "  ["@ + (match n.created_at {
        Some(c) => spec_datetime_text(c),
        None => seq![],
    }) + "] "@ + n.content@
}

/// The lines that show a task with its notes: a title line with the id and
/// the status, the due day (and time of day, when there is one), the
/// priority, then the notes or a line that says there are none.
pub open spec fn spec_show_lines(t: Task, notes: Seq<TaskNote>) -> Seq<Seq<char>> {
    let head = seq![
        "#"@ + signed_decimal(t.id as int) + " "@ + t.title@ + " ["@ + spec_status_label(t.status) + "]"@,
        "Due: "@ + spec_date_text(t.due_date) + " "@ + (match t.due_time {
            Some(tm) => spec_hour_minute_text(tm),
            None => seq![],
        }),
        "Priority: "@ + signed_decimal(t.priority as int),
    ];
    if notes.len() == 0 {
        head.push("No notes."@)
    } else {
        head.push("Notes:"@) + notes.map_values(|n: TaskNote| spec_note_line(n))
    }
}

/// Creation times that chrono can hold: a day of the calendar and a valid
/// time of day.
pub open spec fn note_times_valid(notes: Seq<TaskNote>) -> bool {
    forall|i: int| 0 <= i < notes.len() ==> ((#[trigger] notes[i]).created_at matches Some(c) ==> (
    is_valid_date(c.date) && is_valid_time(c.time)))
}

/// Whether every note's creation time is one that chrono can hold.
pub fn note_times_are_valid(notes: &Vec<TaskNote>) -> (r: bool)
    ensures
        r == note_times_valid(notes@),
{
    let mut i: usize = 0;
    while i < notes.len()
        invariant
            i <= notes@.len(),
            forall|k: int| 0 <= k < i ==> ((#[trigger] notes@[k]).created_at matches Some(c) ==> (
            is_valid_date(c.date) && is_valid_time(c.time))),
        decreases notes@.len() - i,
    {
        match notes[i].created_at {
            Some(c) => {
                if !(date_is_valid(c.date) && time_is_valid(c.time)) {
                    return false;
                }
            },
            None => {},
        }
        i = i + 1;
    }
    true
}

/// What the command line says after creating a task.
pub fn created_message(id: i64) -> (r: String)
    ensures
        r@ == spec_created_message(id),
{
    let mut out = String::from_str("Created task #");
    push_signed(&mut out, id);
    out
}

/// What the command line says when a listing is empty.
pub fn no_tasks_message() -> (r: String)
    ensures
        r@ == spec_no_tasks_message(),
{
    String::from_str("No tasks found.")
}

/// What the command line says after marking a task done.
pub fn done_message(t: &Task) -> (r: String)
    ensures
        r@ == spec_done_message(*t),
{
    let mut out = String::from_str("Marked task #");
    push_signed(&mut out, t.id);
    out.append(" as done: ");
    out.append(t.title.as_str());
    out
}

/// What the command line says after adding a note.
pub fn note_added_message(note_id: i64, task_id: i64) -> (r: String)
    ensures
        r@ == spec_note_added_message(note_id, task_id),
{
    let mut out = String::from_str("Added note #");
    push_signed(&mut out, note_id);
    out.append(" to task #");
    push_signed(&mut out, task_id);
    out
}

/// What the command line says after rescheduling a task.
pub fn rescheduled_message(t: &Task) -> (r: String)
    ensures
        r@ == spec_rescheduled_message(*t),
{
    let mut out = String::from_str("Rescheduled task #");
    push_signed(&mut out, t.id);
    out.append(" to ");
    let d = date_text(t.due_date);
    out.append(d.as_str());
    out
}

/// What the command line says when no task has the id it was given.
pub fn no_task_message(id: i64) -> (r: String)
    ensures
        r@ == spec_no_task_message(id),
{
    let mut out = String::from_str("No task found with id ");
    push_signed(&mut out, id);
    out
}

/// What the command line says after deleting a task.
pub fn deleted_message(id: i64) -> (r: String)
    ensures
        r@ == spec_deleted_message(id),
{
    let mut out = String::from_str("Deleted task #");
    push_signed(&mut out, id);
    out
}

/// The line of a note in a task's details.
pub fn note_line(n: &TaskNote) -> (r: String)
    requires
        n.created_at matches Some(c) ==> (is_valid_date(c.date) && is_valid_time(c.time)),
    ensures
        r@ == spec_note_line(*n),
{
    let mut out = String::from_str("  [");
    match n.created_at {
        Some(c) => {
            let t = datetime_text(c);
            out.append(t.as_str());
        },
        None => {},
    }
    out.append("] ");
    out.append(n.content.as_str());
    out
}

/// The lines that show a task with its notes.
pub fn show_lines(t: &Task, notes: &Vec<TaskNote>) -> (r: Vec<String>)
    requires
        note_times_valid(notes@),
    ensures
        r.deep_view() == spec_show_lines(*t, notes@),
{
    let mut lines: Vec<String> = Vec::new();
    let mut first = String::from_str("#");
    push_signed(&mut first, t.id);
    first.append(" ");
    first.append(t.title.as_str());
    first.append(" [");
    first.append(status_label(&t.status));
    first.append("]");
    lines.push(first);
    let mut due = String::from_str("Due: ");
    let d = date_text(t.due_date);
    due.append(d.as_str());
    due.append(" ");
    match t.due_time {
        Some(tm) => {
            let hm = hour_minute_text(tm);
            due.append(hm.as_str());
        },
        None => {},
    }
    lines.push(due);
    let mut priority = String::from_str("Priority: ");
    push_signed(&mut priority, t.priority as i64);
    lines.push(priority);
    let ghost head = lines.deep_view();
    if notes.len() == 0 {
        lines.push(String::from_str("No notes."));
        assert(lines.deep_view() =~= spec_show_lines(*t, notes@));
    } else {
        lines.push(String::from_str("Notes:"));
        let ghost start = lines.deep_view();
        let mut i: usize = 0;
        while i < notes.len()
            invariant
                i <= notes@.len(),
                note_times_valid(notes@),
                lines.deep_view() =~= start + notes@.take(i as int).map_values(|n: TaskNote| spec_note_line(n)),
            decreases notes@.len() - i,
        {
            let line = note_line(&notes[i]);
            let ghost prev = lines.deep_view();
            lines.push(line);
            assert(lines.deep_view() =~= prev.push(spec_note_line(notes@[i as int])));
            assert(notes@.take(i + 1).map_values(|n: TaskNote| spec_note_line(n)) =~= notes@.take(
                i as int,
            ).map_values(|n: TaskNote| spec_note_line(n)).push(spec_note_line(notes@[i as int])));
            i = i + 1;
        }
        assert(notes@.take(notes@.len() as int) =~= notes@);
        assert(lines.deep_view() =~= spec_show_lines(*t, notes@));
    }
    lines
}

} // verus!
