use task_core::calendar::{
    date_is_valid, date_text, hour_minute_text, leap_year, parse_date_arg, resolve_date_arg, time_is_valid,
    try_parse_date_arg, DateArgError,
};
use task_core::error::RepositoryError;
use task_core::messages::{
    created_message, deleted_message, done_message, no_task_message, no_tasks_message,
    note_added_message, note_line, note_times_are_valid, rescheduled_message, show_lines,
};
use task_core::models::{Date, DateTime, Task, TaskNote, TaskStatus, Time};
use task_core::present::{status_label, table_header, task_row, tasks_table};
use task_core::queries::{
    find_task, notes_of_task, select_needing_reminder, select_pending, select_pending_on,
    task_needs_reminder,
};
use task_core::reminders::{reminder_body, reminder_summary, task_to_mark_notified};
use task_core::repository::{
    check_done_update, done_task_or_missing, notes_to_fetch, task_id_from_insert, task_with_notes,
};
use task_core::tables::{TableError, TaskTables};
use task_core::text::integer_text;

fn day(year: i32, month: u32, day: u32) -> Date {
    Date { year, month, day }
}

fn hm(hour: u32, minute: u32) -> Time {
    Time { hour, minute, second: 0, nanosecond: 0 }
}

fn moment(d: Date, t: Time) -> DateTime {
    DateTime { date: d, time: t }
}

fn task(id: i64, title: &str, status: TaskStatus, due: Date, due_time: Option<Time>) -> Task {
    Task {
        id,
        title: title.to_string(),
        status,
        priority: 2,
        created_at: None,
        updated_at: None,
        due_date: due,
        due_time,
        notified_at: None,
    }
}

fn note(id: i64, task_id: i64, content: &str, created_at: Option<DateTime>) -> TaskNote {
    TaskNote { id, task_id, content: content.to_string(), created_at }
}

// ---- calendar ----

#[test]
fn date_arg_today_is_the_given_day() {
    assert_eq!(parse_date_arg("today", day(2024, 5, 17)).unwrap(), day(2024, 5, 17));
}

#[test]
fn date_arg_keywords_ignore_case() {
    assert_eq!(parse_date_arg("ToDaY", day(2024, 5, 17)).unwrap(), day(2024, 5, 17));
    assert_eq!(parse_date_arg("TOMORROW", day(2024, 5, 17)).unwrap(), day(2024, 5, 18));
}

#[test]
fn date_arg_tomorrow_crosses_month_and_year_ends() {
    assert_eq!(parse_date_arg("tomorrow", day(2024, 2, 28)).unwrap(), day(2024, 2, 29));
    assert_eq!(parse_date_arg("tomorrow", day(2023, 2, 28)).unwrap(), day(2023, 3, 1));
    assert_eq!(parse_date_arg("tomorrow", day(2024, 12, 31)).unwrap(), day(2025, 1, 1));
    assert_eq!(parse_date_arg("tomorrow", day(2100, 2, 28)).unwrap(), day(2100, 3, 1));
    assert_eq!(parse_date_arg("tomorrow", day(2000, 2, 28)).unwrap(), day(2000, 2, 29));
}

#[test]
fn date_arg_on_the_last_day() {
    let last = day(262142, 12, 31);
    assert!(try_parse_date_arg("tomorrow", last).is_none());
    assert!(try_parse_date_arg("Tomorrow", last).is_none());
    assert_eq!(try_parse_date_arg("today", last).unwrap().unwrap(), last);
    assert_eq!(try_parse_date_arg("tomorrow", day(262142, 12, 30)).unwrap().unwrap(), last);
    assert_eq!(chrono::NaiveDate::MAX, chrono::NaiveDate::from_ymd_opt(262142, 12, 31).unwrap());
}

#[test]
fn resolving_a_lowered_date_argument() {
    let today = day(2024, 5, 17);
    let tomorrow = Some(day(2024, 5, 18));
    let parsed = Some(day(2030, 1, 2));
    assert_eq!(resolve_date_arg("today".to_string(), today, tomorrow, parsed).unwrap(), today);
    assert_eq!(resolve_date_arg("tomorrow".to_string(), today, tomorrow, parsed).unwrap(), day(2024, 5, 18));
    assert_eq!(resolve_date_arg("2030-01-02".to_string(), today, tomorrow, parsed).unwrap(), day(2030, 1, 2));
    match resolve_date_arg("soon".to_string(), today, tomorrow, None) {
        Err(DateArgError::InvalidDate(t)) => assert_eq!(t, "soon"),
        other => panic!("expected an invalid date, got {other:?}"),
    }
    assert_eq!(resolve_date_arg("today".to_string(), today, None, None).unwrap(), today);
}

#[test]
fn calendar_validity() {
    assert!(leap_year(2024) && leap_year(2000) && leap_year(0) && leap_year(-4));
    assert!(!leap_year(2100) && !leap_year(2023) && !leap_year(-1));
    assert!(date_is_valid(day(2024, 2, 29)));
    assert!(!date_is_valid(day(2023, 2, 29)));
    assert!(!date_is_valid(day(2023, 4, 31)));
    assert!(!date_is_valid(day(2023, 13, 1)));
    assert!(!date_is_valid(day(2023, 1, 0)));
    assert!(date_is_valid(day(262142, 12, 31)) && !date_is_valid(day(262143, 1, 1)));
    assert!(date_is_valid(day(-262143, 1, 1)) && !date_is_valid(day(-262144, 12, 31)));
    for (y, m, d) in [(2024, 2, 29), (2023, 2, 29), (1900, 2, 29), (-4, 2, 29), (2023, 6, 31)] {
        assert_eq!(date_is_valid(day(y, m, d)), chrono::NaiveDate::from_ymd_opt(y, m, d).is_some());
    }
    assert!(time_is_valid(Time { hour: 23, minute: 59, second: 59, nanosecond: 1_500_000_000 }));
    assert!(!time_is_valid(Time { hour: 23, minute: 59, second: 58, nanosecond: 1_500_000_000 }));
    assert!(!time_is_valid(Time { hour: 24, minute: 0, second: 0, nanosecond: 0 }));
    let fine = vec![note(1, 1, "a", Some(clock(1))), note(2, 1, "b", None)];
    assert!(note_times_are_valid(&fine));
    let bad = vec![note(1, 1, "a", Some(moment(day(2023, 2, 29), hm(1, 0))))];
    assert!(!note_times_are_valid(&bad));
}

#[test]
fn date_arg_reads_iso_days() {
    assert_eq!(parse_date_arg("2024-02-29", day(2020, 1, 1)).unwrap(), day(2024, 2, 29));
    assert_eq!(parse_date_arg("2999-01-11", day(2020, 1, 1)).unwrap(), day(2999, 1, 11));
}

#[test]
fn date_arg_refuses_other_text() {
    match parse_date_arg("2023-02-29", day(2020, 1, 1)) {
        Err(DateArgError::InvalidDate(text)) => assert_eq!(text, "2023-02-29"),
        other => panic!("expected an invalid date, got {other:?}"),
    }
    let err = parse_date_arg("Next Week", day(2020, 1, 1)).unwrap_err();
    match &err {
        DateArgError::InvalidDate(text) => assert_eq!(text, "next week"),
    }
    assert_eq!(
        err.message(),
        "invalid date 'next week', expected YYYY-MM-DD or 'today'/'tomorrow'"
    );
}

#[test]
fn dates_are_written_as_chrono_writes_them() {
    assert_eq!(date_text(day(2015, 9, 5)), "2015-09-05");
    assert_eq!(date_text(day(0, 1, 1)), "0000-01-01");
    assert_eq!(date_text(day(9999, 12, 31)), "9999-12-31");
    assert_eq!(date_text(day(-1, 1, 1)), "-0001-01-01");
    assert_eq!(date_text(day(10000, 12, 31)), "+10000-12-31");
    for (y, m, d) in [(2015, 9, 5), (0, 1, 1), (-1, 1, 1), (10000, 12, 31), (-12345, 6, 7)] {
        let c = chrono::NaiveDate::from_ymd_opt(y, m, d).unwrap();
        assert_eq!(date_text(day(y, m, d)), c.to_string());
    }
}

#[test]
fn times_are_written_as_chrono_writes_them() {
    assert_eq!(hour_minute_text(hm(7, 5)), "07:05");
    let d = day(2015, 6, 30);
    let cases = [
        (Time { hour: 23, minute: 59, second: 59, nanosecond: 0 }, "  [2015-06-30 23:59:59] x"),
        (Time { hour: 1, minute: 2, second: 3, nanosecond: 500_000_000 }, "  [2015-06-30 01:02:03.500] x"),
        (Time { hour: 1, minute: 2, second: 3, nanosecond: 1_000 }, "  [2015-06-30 01:02:03.000001] x"),
        (Time { hour: 1, minute: 2, second: 3, nanosecond: 7 }, "  [2015-06-30 01:02:03.000000007] x"),
        (Time { hour: 23, minute: 59, second: 59, nanosecond: 1_500_000_000 }, "  [2015-06-30 23:59:60.500] x"),
    ];
    for (t, expected) in cases {
        assert_eq!(note_line(&note(1, 1, "x", Some(moment(d, t)))), expected);
    }
    assert_eq!(note_line(&note(1, 1, "x", None)), "  [] x");
}

#[test]
fn integers_are_written_in_decimal() {
    assert_eq!(integer_text(0), "0");
    assert_eq!(integer_text(42), "42");
    assert_eq!(integer_text(-7), "-7");
    assert_eq!(integer_text(i64::MIN), i64::MIN.to_string());
    assert_eq!(integer_text(i64::MAX), i64::MAX.to_string());
}

// ---- statuses ----

#[test]
fn statuses_are_stored_in_lower_case_and_read_back() {
    for s in [TaskStatus::Pending, TaskStatus::Done, TaskStatus::Cancelled] {
        assert_eq!(TaskStatus::from_stored(s.as_str()), Some(s));
        assert_eq!(status_label(&s), s.as_str());
    }
    assert_eq!(TaskStatus::Cancelled.as_str(), "cancelled");
    assert_eq!(TaskStatus::from_stored("Pending"), None);
    assert_eq!(TaskStatus::from_stored(""), None);
}

// ---- selection rules ----

#[test]
fn day_listing_keeps_pending_tasks_of_that_day_in_row_order() {
    let d = day(2030, 3, 4);
    let rows = vec![
        task(1, "a", TaskStatus::Pending, d, None),
        task(2, "b", TaskStatus::Done, d, None),
        task(3, "c", TaskStatus::Pending, day(2030, 3, 5), None),
        task(4, "d", TaskStatus::Cancelled, d, None),
        task(5, "e", TaskStatus::Pending, d, Some(hm(8, 0))),
    ];
    let ids: Vec<i64> = select_pending_on(&rows, d).iter().map(|t| t.id).collect();
    assert_eq!(ids, vec![1, 5]);
    let all: Vec<i64> = select_pending(&rows).iter().map(|t| t.id).collect();
    assert_eq!(all, vec![1, 3, 5]);
    assert_eq!(find_task(&rows, 4).unwrap().title, "d");
    assert!(find_task(&rows, 9).is_none());
}

#[test]
fn reminder_rule_uses_due_time_or_start_of_day() {
    let d = day(2030, 3, 4);
    let morning = moment(d, hm(7, 59));
    let eight = moment(d, hm(8, 0));
    let with_time = task(1, "timed", TaskStatus::Pending, d, Some(hm(8, 0)));
    let whole_day = task(2, "all day", TaskStatus::Pending, d, None);
    let mut reminded = task(3, "reminded", TaskStatus::Pending, d, None);
    reminded.notified_at = Some(morning);
    let done = task(4, "done", TaskStatus::Done, d, None);
    let later_day = task(5, "later", TaskStatus::Pending, day(2030, 3, 5), None);

    assert!(!task_needs_reminder(&with_time, &morning));
    assert!(task_needs_reminder(&with_time, &eight));
    assert!(task_needs_reminder(&whole_day, &morning));
    assert!(task_needs_reminder(&whole_day, &moment(d, Time::midnight())));
    assert!(!task_needs_reminder(&whole_day, &moment(day(2030, 3, 3), hm(23, 59))));

    let rows = vec![with_time, whole_day, reminded, done, later_day];
    let ids: Vec<i64> = select_needing_reminder(&rows, eight).iter().map(|t| t.id).collect();
    assert_eq!(ids, vec![1, 2]);
    let ids: Vec<i64> = select_needing_reminder(&rows, morning).iter().map(|t| t.id).collect();
    assert_eq!(ids, vec![2]);
}

#[test]
fn notes_come_by_creation_time_with_untimed_first() {
    let d = day(2030, 3, 4);
    let rows = vec![
        note(1, 7, "late", Some(moment(d, hm(12, 0)))),
        note(2, 8, "other task", Some(moment(d, hm(1, 0)))),
        note(3, 7, "early", Some(moment(d, hm(9, 0)))),
        note(4, 7, "untimed", None),
        note(5, 7, "same as early", Some(moment(d, hm(9, 0)))),
    ];
    let contents: Vec<String> = notes_of_task(&rows, 7).into_iter().map(|n| n.content).collect();
    assert_eq!(contents, vec!["untimed", "early", "same as early", "late"]);
    assert!(notes_of_task(&rows, 9).is_empty());
}

#[test]
fn notes_created_together_come_by_id() {
    let t = Some(moment(day(2030, 3, 4), hm(9, 0)));
    let rows = vec![note(9, 7, "added last", t), note(4, 7, "added first", t), note(6, 7, "added second", t)];
    let ids: Vec<i64> = notes_of_task(&rows, 7).iter().map(|n| n.id).collect();
    assert_eq!(ids, vec![4, 6, 9]);
    let untimed = vec![note(2, 7, "b", None), note(1, 7, "a", None)];
    let ids: Vec<i64> = notes_of_task(&untimed, 7).iter().map(|n| n.id).collect();
    assert_eq!(ids, vec![1, 2]);
}

// ---- tables and their laws ----

fn clock(minute: u32) -> DateTime {
    moment(day(2030, 1, 1), hm(10, minute))
}

#[test]
fn ids_are_given_in_sequence_and_never_reused() {
    let mut t = TaskTables::new();
    let a = t.create_task("a", 0, day(2030, 1, 2), clock(0));
    let b = t.create_task("b", 0, day(2030, 1, 2), clock(1));
    assert_eq!((a, b), (1, 2));
    t.delete_task(b);
    let c = t.create_task("c", 0, day(2030, 1, 2), clock(2));
    assert_eq!(c, 3);
    assert_eq!(t.find_task_by_id(b), None);
}

#[test]
fn created_task_reads_back_as_written() {
    let mut t = TaskTables::new();
    let due = day(2030, 1, 2);
    let id = t.create_task("write", -3, due, clock(5));
    let found = t.find_task_by_id(id).unwrap();
    assert_eq!(found, Task {
        id,
        title: "write".to_string(),
        status: TaskStatus::Pending,
        priority: -3,
        created_at: Some(clock(5)),
        updated_at: None,
        due_date: due,
        due_time: None,
        notified_at: None,
    });
    let listed = t.list_by_day(due);
    assert_eq!(listed.last().unwrap().id, id);
}

#[test]
fn marking_done_removes_from_listings_and_leaves_others() {
    let mut t = TaskTables::new();
    let due = day(2030, 1, 2);
    let a = t.create_task("a", 0, due, clock(0));
    let b = t.create_task("b", 0, due, clock(1));
    let done = t.mark_done(a).unwrap();
    assert_eq!(done.status, TaskStatus::Done);
    assert_eq!(t.find_task_by_id(a).unwrap().status, TaskStatus::Done);
    assert_eq!(t.find_task_by_id(b).unwrap().status, TaskStatus::Pending);
    assert!(t.list_by_day(due).iter().all(|x| x.id != a));
    assert!(t.list_all_pending().iter().all(|x| x.id != a));
    assert!(t.list_by_day(due).iter().all(|x| t.list_all_pending().contains(x)));
    assert_eq!(t.mark_done(a).unwrap().id, a);
}

#[test]
fn reminded_task_is_not_picked_again_until_rescheduled() {
    let mut t = TaskTables::new();
    let due = day(2030, 1, 2);
    let id = t.create_task("remind me", 0, due, clock(0));
    let now = moment(due, hm(9, 0));
    assert_eq!(t.find_unnotified_due(now).len(), 1);
    t.mark_notified(id, now);
    assert_eq!(t.find_task_by_id(id).unwrap().notified_at, Some(now));
    assert!(t.find_unnotified_due(moment(day(2031, 1, 1), hm(0, 0))).is_empty());
    let moved = t.reschedule(id, day(2030, 1, 3)).unwrap();
    assert_eq!(moved.notified_at, None);
    assert!(t.find_unnotified_due(now).is_empty());
    assert_eq!(t.find_unnotified_due(moment(day(2030, 1, 3), hm(0, 0))).len(), 1);
}

#[test]
fn reminded_task_stays_unreported_while_other_rows_change() {
    let mut t = TaskTables::new();
    let due = day(2030, 1, 2);
    let id = t.create_task("remind me", 0, due, clock(0));
    let other = t.create_task("other", 0, due, clock(1));
    let now = moment(due, hm(9, 0));
    t.mark_notified(id, now);
    t.mark_done(other).unwrap();
    t.reschedule(other, due).unwrap();
    t.add_note(id, "a note", clock(2)).unwrap();
    t.mark_done(id).unwrap();
    let third = t.create_task("third", 0, due, clock(3));
    t.delete_task(third);
    assert!(t.find_unnotified_due(moment(day(2040, 1, 1), hm(0, 0))).iter().all(|x| x.id != id));
}

#[test]
fn note_ids_rise_across_operations() {
    let mut t = TaskTables::new();
    let a = t.create_task("a", 0, day(2030, 1, 2), clock(0));
    let n1 = t.add_note(a, "one", clock(1)).unwrap();
    t.delete_task(a);
    let b = t.create_task("b", 0, day(2030, 1, 2), clock(2));
    let n2 = t.add_note(b, "two", clock(3)).unwrap();
    assert!(1 <= n1 && n1 < n2);
    assert!(1 <= a && a < b);
}

#[test]
fn note_for_missing_task_is_refused() {
    let mut t = TaskTables::new();
    assert_eq!(t.add_note(5, "orphan", clock(0)), Err(TableError::ForeignKeyViolation(5)));
    let id = t.create_task("a", 0, day(2030, 1, 2), clock(0));
    assert_eq!(t.add_note(id, "kept", clock(1)), Ok(1));
}

#[test]
fn deleting_a_task_keeps_other_tasks_and_their_notes() {
    let mut t = TaskTables::new();
    let a = t.create_task("a", 0, day(2030, 1, 2), clock(0));
    let b = t.create_task("b", 0, day(2030, 1, 2), clock(1));
    t.add_note(a, "on a", clock(2)).unwrap();
    t.add_note(b, "on b", clock(3)).unwrap();
    t.delete_task(a);
    assert!(t.get_task_with_notes(a).is_none());
    let (task_b, notes_b) = t.get_task_with_notes(b).unwrap();
    assert_eq!(task_b.title, "b");
    assert_eq!(notes_b.len(), 1);
    assert_eq!(notes_b[0].content, "on b");
}

#[test]
fn repository_error_message() {
    assert_eq!(RepositoryError::TaskNotFound(42).message(), "task 42 not found");
    assert_eq!(RepositoryError::TaskNotFound(-1).message(), "task -1 not found");
}

// ---- database steps ----

#[test]
fn insert_ids_convert_like_a_cast() {
    assert_eq!(task_id_from_insert(17), 17);
    assert_eq!(task_id_from_insert(i64::MAX as u64), i64::MAX);
    assert_eq!(task_id_from_insert(u64::MAX), -1);
    assert_eq!(task_id_from_insert(1u64 << 63), i64::MIN);
}

#[test]
fn mark_done_steps() {
    assert_eq!(check_done_update(3, 0), Err(RepositoryError::TaskNotFound(3)));
    assert_eq!(check_done_update(3, 1), Ok(()));
    assert_eq!(done_task_or_missing(3, None), Err(RepositoryError::TaskNotFound(3)));
    let t = task(3, "x", TaskStatus::Done, day(2030, 1, 1), None);
    assert_eq!(done_task_or_missing(3, Some(t.clone())), Ok(t));
}

#[test]
fn task_with_notes_steps() {
    let t = task(3, "x", TaskStatus::Pending, day(2030, 1, 1), None);
    assert_eq!(notes_to_fetch(&Some(t.clone())), Some(3));
    assert_eq!(notes_to_fetch(&None), None);
    let rows = vec![note(1, 3, "b", Some(clock(2))), note(2, 4, "x", None), note(3, 3, "a", Some(clock(1)))];
    let (found, notes) = task_with_notes(Some(t.clone()), &rows).unwrap();
    assert_eq!(found, t);
    let contents: Vec<&str> = notes.iter().map(|n| n.content.as_str()).collect();
    assert_eq!(contents, vec!["a", "b"]);
    assert!(task_with_notes(None, &rows).is_none());
}

// ---- texts ----

#[test]
fn command_line_messages() {
    let t = task(12, "Buy milk", TaskStatus::Done, day(2030, 7, 8), None);
    assert_eq!(created_message(5), "Created task #5");
    assert_eq!(no_tasks_message(), "No tasks found.");
    assert_eq!(done_message(&t), "Marked task #12 as done: Buy milk");
    assert_eq!(note_added_message(3, 12), "Added note #3 to task #12");
    assert_eq!(rescheduled_message(&t), "Rescheduled task #12 to 2030-07-08");
    assert_eq!(no_task_message(99), "No task found with id 99");
    assert_eq!(deleted_message(12), "Deleted task #12");
}

#[test]
fn task_details_lines() {
    let mut t = task(12, "Buy milk", TaskStatus::Pending, day(2030, 7, 8), None);
    assert_eq!(show_lines(&t, &vec![]), vec!["#12 Buy milk [pending]", "Due: 2030-07-08 ", "Priority: 2", "No notes."]);
    t.due_time = Some(hm(18, 30));
    let notes = vec![
        note(1, 12, "skimmed", Some(moment(day(2030, 7, 1), hm(9, 5)))),
        note(2, 12, "untimed", None),
    ];
    assert_eq!(show_lines(&t, &notes), vec![
        "#12 Buy milk [pending]",
        "Due: 2030-07-08 18:30",
        "Priority: 2",
        "Notes:",
        "  [2030-07-01 09:05:00] skimmed",
        "  [] untimed",
    ]);
}

#[test]
fn task_table_cells_and_drawing() {
    let t = task(7, "Write", TaskStatus::Cancelled, day(2030, 1, 9), None);
    assert_eq!(task_row(&t), vec!["7", "Write", "2030-01-09", "2", "cancelled"]);
    assert_eq!(table_header(), vec!["ID", "Title", "Due", "Priority", "Status"]);
    let drawn = tasks_table(&vec![t]);
    let mut expected = comfy_table::Table::new();
    expected
        .load_preset(comfy_table::presets::UTF8_FULL)
        .set_header(vec!["ID", "Title", "Due", "Priority", "Status"]);
    expected.add_row(vec!["7", "Write", "2030-01-09", "2", "cancelled"]);
    assert_eq!(drawn, expected.to_string());
    assert!(drawn.contains("cancelled"));
    assert!(drawn.contains('┌'));
}

#[test]
fn reminder_texts() {
    let mut t = task(1, "Call Bob", TaskStatus::Pending, day(2030, 2, 3), None);
    assert_eq!(reminder_summary(&t), "Task due: Call Bob");
    assert_eq!(reminder_body(&t), "Due 2030-02-03");
    t.due_time = Some(hm(9, 7));
    assert_eq!(reminder_body(&t), "Due today at 09:07");
    assert_eq!(task_to_mark_notified(1, true), Some(1));
    assert_eq!(task_to_mark_notified(1, false), None);
}
