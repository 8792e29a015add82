use vstd::prelude::*;
use vstd::string::StringExecFns;
use crate::calendar::{date_text, is_valid_date, is_valid_time, spec_date_text};
use crate::models::{DateTime, Task, TaskStatus, Time, spec_status_text};
use crate::text::{decimal, push_signed, signed_decimal, zero_pad};

verus! {

/// The word that shows a status: its name in lower case.
pub open spec fn spec_status_label(s: TaskStatus) -> Seq<char> {
    spec_status_text(s)
}

/// The word that shows a status in listings.
pub fn status_label(status: &TaskStatus) -> (r: &'static str)
    ensures
        r@ == spec_status_label(*status),
{
    status.as_str()
}

/// The fraction of a second as chrono writes it: nothing for a whole second,
/// else a point and three, six or nine digits, the fewest that are exact.
pub open spec fn spec_fraction_text(nano: nat) -> Seq<char> {
    if nano == 0 {
        seq![]
    } else if nano % 1_000_000 == 0 {
        seq!['.'] + zero_pad(decimal(nano / 1_000_000), 3)
    } else if nano % 1_000 == 0 {
        seq!['.'] + zero_pad(decimal(nano / 1_000), 6)
    } else {
        seq!['.'] + zero_pad(decimal(nano), 9)
    }
}

/// A time of day as chrono writes it: `HH:MM:SS` and the fraction of the
/// second, with a leap second written as second 60.
pub open spec fn spec_time_text(t: Time) -> Seq<char> {
    let (sec, nano) = if t.nanosecond >= 1_000_000_000 {
        (t.second + 1, t.nanosecond - 1_000_000_000)
    } else {
        (t.second as int, t.nanosecond as int)
    };
    zero_pad(decimal(t.hour as nat), 2) + seq![':'] + zero_pad(decimal(t.minute as nat), 2)
        + seq![':'] + zero_pad(decimal(sec as nat), 2) + spec_fraction_text(nano as nat)
}

/// A day and time as chrono writes them: the day, a space, the time.
pub open spec fn spec_datetime_text(dt: DateTime) -> Seq<char> {
    spec_date_text(dt.date) + seq![' '] + spec_time_text(dt.time)
}

/// chrono's `Display` of a `NaiveDateTime` built from a valid day and time
/// (`NaiveDate::from_ymd_opt`, `and_hms_nano_opt`, `to_string`). The
/// contract states the text that chrono's source writes: the day as
/// `YYYY-MM-DD` (a sign and at least four year digits outside the years 0 to
/// 9999), a space, `HH:MM:SS`, and the fraction of the second in three, six
/// or nine digits when there is one, with a leap second written as second 60.
#[verifier::external_body]
pub(crate) fn datetime_text(dt: DateTime) -> (r: String)
    requires
        is_valid_date(dt.date),
        is_valid_time(dt.time),
    ensures
        r@ == spec_datetime_text(dt),
{
    let t = dt.time;
    match chrono::NaiveDate::from_ymd_opt(dt.date.year, dt.date.month, dt.date.day) {
        Some(day) => match day.and_hms_nano_opt(t.hour, t.minute, t.second, t.nanosecond) {
            Some(moment) => moment.to_string(),
            None => String::new(),
        },
        None => String::new(),
    }
}

/// The cells of a task's line in the task table: id, title, due day,
/// priority, status.
pub open spec fn spec_task_row(t: Task) -> Seq<Seq<char>> {
    seq![
        signed_decimal(t.id as int),
        t.title@,
        spec_date_text(t.due_date),
        signed_decimal(t.priority as int),
        spec_status_label(t.status),
    ]
}

/// The header of the task table.
pub open spec fn spec_table_header() -> Seq<Seq<char>> {
    seq!["ID"@, "Title"@, "Due"@, "Priority"@, "Status"@]
}

/// The cells of a task's line in the task table.
pub fn task_row(t: &Task) -> (r: Vec<String>)
    ensures
        r.deep_view() == spec_task_row(*t),
{
    let mut row: Vec<String> = Vec::new();
    let mut id = String::new();
    push_signed(&mut id, t.id);
    row.push(id);
    row.push(t.title.clone());
    row.push(date_text(t.due_date));
    let mut priority = String::new();
    push_signed(&mut priority, t.priority as i64);
    row.push(priority);
    row.push(String::from_str(status_label(&t.status)));
    assert(row.deep_view() =~= spec_task_row(*t));
    row
}

/// The header of the task table.
pub fn table_header() -> (r: Vec<String>)
    ensures
        r.deep_view() == spec_table_header(),
{
    let mut h: Vec<String> = Vec::new();
    h.push(String::from_str("ID"));
    h.push(String::from_str("Title"));
    h.push(String::from_str("Due"));
    h.push(String::from_str("Priority"));
    h.push(String::from_str("Status"));
    assert(h.deep_view() =~= spec_table_header());
    h
}

/// What comfy-table draws for a header and rows of cells with the
/// `UTF8_FULL` preset.
pub uninterp spec fn rendered_table(header: Seq<Seq<char>>, rows: Seq<Seq<Seq<char>>>) -> Seq<char>;

/// comfy-table: a `Table` with the `UTF8_FULL` preset, the given header and
/// rows, drawn with `to_string`. Terminal detection is switched off, which
/// changes nothing for cells without styling and makes the drawing depend on
/// the cells alone. The drawing is named `rendered_table`; its box layout is
/// not restated here.
#[verifier::external_body]
fn comfy_render(header: Vec<String>, rows: Vec<Vec<String>>) -> (r: String)
    ensures
        r@ == rendered_table(header.deep_view(), rows.deep_view()),
{
    let mut table = comfy_table::Table::new();
    table.load_preset(comfy_table::presets::UTF8_FULL).force_no_tty().set_header(header);
    for row in rows {
        table.add_row(row);
    }
    table.to_string()
}

/// The task table of the listings: the header, then one line per task in
/// the given order.
pub fn tasks_table(tasks: &Vec<Task>) -> (r: String)
    ensures
        r@ == rendered_table(spec_table_header(), tasks@.map_values(|t: Task| spec_task_row(t))),
{
    let mut rows: Vec<Vec<String>> = Vec::new();
    let mut i: usize = 0;
    while i < tasks.len()
        invariant
            i <= tasks@.len(),
            rows.deep_view() =~= tasks@.take(i as int).map_values(|t: Task| spec_task_row(t)),
        decreases tasks@.len() - i,
    {
        let row = task_row(&tasks[i]);
        let ghost prev = rows.deep_view();
        rows.push(row);
        assert(rows.deep_view() =~= prev.push(spec_task_row(tasks@[i as int])));
        assert(tasks@.take(i + 1).map_values(|t: Task| spec_task_row(t)) =~= tasks@.take(
            i as int,
        ).map_values(|t: Task| spec_task_row(t)).push(spec_task_row(tasks@[i as int])));
        i = i + 1;
    }
    assert(tasks@.take(tasks@.len() as int) =~= tasks@);
    comfy_render(table_header(), rows)
}

} // verus!
