use vstd::prelude::*;
use crate::models::{Date, DateTime, Task, TaskNote, TaskStatus, Time, date_lt, datetime_le, datetime_lt, time_lt};
use crate::calendar::{is_valid_date, last_year, lowercased, spec_date_arg, spec_next_day};
use crate::queries::{is_note_of, is_pending, is_pending_on, lemma_filter_push, needs_reminder, notes_in_order, spec_find_task};
use crate::tables::{
    TableOp, TablesView, has_task, lacks_id, lemma_filter_index, lemma_find_absent, lemma_find_at, new_note_row,
    new_task_row, rescheduled_row, with_status_row,
};

verus! {

broadcast use vstd::seq_lib::group_to_multiset_ensures;

/// Looking an id up after appending a row: an earlier row with the id wins,
/// and otherwise the new row is found when it has the id.
pub proof fn lemma_find_push(s: Seq<Task>, r: Task, x: i64)
    ensures
        spec_find_task(s.push(r), x) == (match spec_find_task(s, x) {
            Some(t) => Some(t),
            None => if r.id == x { Some(r) } else { None },
        }),
    decreases s.len(),
{
    if s.len() > 0 {
        assert(s.push(r)[0] == s[0]);
        assert(s.push(r).drop_first() =~= s.drop_first().push(r));
        lemma_find_push(s.drop_first(), r, x);
    } else {
        assert(s.push(r)[0] == r);
        assert(s.push(r).drop_first() =~= Seq::<Task>::empty());
        assert(spec_find_task(Seq::<Task>::empty(), x) is None);
    }
}

/// Looking an id up after changing rows without changing their ids gives
/// the changed form of the row found before.
pub proof fn lemma_find_map(s: Seq<Task>, g: spec_fn(Task) -> Task, x: i64)
    requires
        forall|t: Task| #[trigger] g(t).id == t.id,
    ensures
        spec_find_task(s.map_values(g), x) == (match spec_find_task(s, x) {
            Some(t) => Some(g(t)),
            None => None,
        }),
    decreases s.len(),
{
    if s.len() > 0 {
        assert(s.map_values(g).drop_first() =~= s.drop_first().map_values(g));
        assert(s.map_values(g)[0] == g(s[0]));
        lemma_find_map(s.drop_first(), g, x);
    }
}

/// The id that the next insertion gives is not the id of any task.
pub proof fn law_next_task_id_is_fresh(v: TablesView)
    requires
        v.wf(),
    ensures
        !has_task(v.tasks, v.next_task_id as i64),
        v.find(v.next_task_id as i64) is None,
{
    assert forall|k: int| 0 <= k < v.tasks.len() implies #[trigger] v.tasks[k].id != v.next_task_id as i64 by {}
    lemma_find_absent(v.tasks, v.next_task_id as i64);
}

/// Reading a task back after creating it gives the row that was written:
/// the given title, priority and due day, pending. Every other id finds
/// what it found before.
pub proof fn law_find_after_create(v: TablesView, title: String, priority: i8, due_date: Date, now: DateTime, other: i64)
    requires
        v.wf(),
        v.next_task_id < i64::MAX,
        other != v.next_task_id,
    ensures
        v.with_new_task(title, priority, due_date, now).find(v.next_task_id as i64) == Some(
            new_task_row(v.next_task_id as i64, title, priority, due_date, now),
        ),
        v.with_new_task(title, priority, due_date, now).find(other) == v.find(other),
{
    let id = v.next_task_id as i64;
    let r = new_task_row(id, title, priority, due_date, now);
    law_next_task_id_is_fresh(v);
    lemma_find_push(v.tasks, r, id);
    lemma_find_push(v.tasks, r, other);
}

/// A task created for a day is listed among that day's pending tasks, as the
/// last of them.
pub proof fn law_created_task_listed_on_its_day(v: TablesView, title: String, priority: i8, due_date: Date, now: DateTime)
    ensures
        v.with_new_task(title, priority, due_date, now).listed_on(due_date) == v.listed_on(due_date).push(
            new_task_row(v.next_task_id as i64, title, priority, due_date, now),
        ),
{
    let p = |t: Task| is_pending_on(t, due_date);
    lemma_filter_push(v.tasks, new_task_row(v.next_task_id as i64, title, priority, due_date, now), p);
}

/// After marking a task done, reading it back gives it with status done;
/// every other id finds what it found before.
pub proof fn law_find_after_mark_done(v: TablesView, id: i64, x: i64)
    ensures
        v.with_status(id, TaskStatus::Done).find(id) == (match v.find(id) {
            Some(t) => Some(with_status_row(t, TaskStatus::Done)),
            None => None,
        }),
        x != id ==> v.with_status(id, TaskStatus::Done).find(x) == v.find(x),
{
    let g = |t: Task| if t.id == id { with_status_row(t, TaskStatus::Done) } else { t };
    assert(v.with_status(id, TaskStatus::Done).tasks =~= v.tasks.map_values(g));
    lemma_find_map(v.tasks, g, id);
    lemma_find_map(v.tasks, g, x);
    lemma_found_has_id(v.tasks, id);
    if x != id {
        match spec_find_task(v.tasks, x) {
            Some(t) => {
                lemma_found_has_id(v.tasks, x);
            },
            None => {},
        }
    }
}

/// The row found for an id has that id.
pub proof fn lemma_found_has_id(s: Seq<Task>, x: i64)
    ensures
        spec_find_task(s, x) matches Some(t) ==> t.id == x,
    decreases s.len(),
{
    if s.len() > 0 {
        lemma_found_has_id(s.drop_first(), x);
    }
}

/// A task marked done is in no listing of pending tasks any more: neither
/// that of a day nor the full one.
pub proof fn law_done_task_leaves_listings(v: TablesView, id: i64, day: Date)
    ensures
        lacks_id(v.with_status(id, TaskStatus::Done).listed_pending(), id),
        lacks_id(v.with_status(id, TaskStatus::Done).listed_on(day), id),
{
    let w = v.with_status(id, TaskStatus::Done);
    assert forall|k: int| 0 <= k < w.tasks.len() && #[trigger] w.tasks[k].id == id implies w.tasks[k].status
        == TaskStatus::Done by {}
    let p = |t: Task| is_pending(t);
    let q = |t: Task| is_pending_on(t, day);
    assert forall|i: int| 0 <= i < w.tasks.filter(p).len() implies (#[trigger] w.tasks.filter(p)[i]).id != id by {
        let a = lemma_filter_index(w.tasks, p, i);
    }
    assert forall|i: int| 0 <= i < w.tasks.filter(q).len() implies (#[trigger] w.tasks.filter(q)[i]).id != id by {
        let a = lemma_filter_index(w.tasks, q, i);
    }
}

/// Every task of a day's listing is in the full listing of pending tasks.
pub proof fn law_day_listing_within_pending(v: TablesView, day: Date)
    ensures
        forall|i: int| 0 <= i < v.listed_on(day).len() ==> v.listed_pending().contains(#[trigger] v.listed_on(day)[i]),
{
    let p = |t: Task| is_pending(t);
    let q = |t: Task| is_pending_on(t, day);
    assert forall|i: int| 0 <= i < v.tasks.filter(q).len() implies v.tasks.filter(p).contains(#[trigger] v.tasks.filter(q)[i]) by {
        let a = lemma_filter_index(v.tasks, q, i);
        v.tasks.lemma_filter_contains(p, a);
    }
}

/// After rescheduling a task, reading it back gives it on the new day with
/// its reminder cleared; every other id finds what it found before.
pub proof fn law_find_after_reschedule(v: TablesView, id: i64, day: Date, x: i64)
    ensures
        v.with_due_date(id, day).find(id) == (match v.find(id) {
            Some(t) => Some(rescheduled_row(t, day)),
            None => None,
        }),
        x != id ==> v.with_due_date(id, day).find(x) == v.find(x),
{
    let g = |t: Task| if t.id == id { rescheduled_row(t, day) } else { t };
    assert(v.with_due_date(id, day).tasks =~= v.tasks.map_values(g));
    lemma_found_has_id(v.tasks, id);
    lemma_find_map(v.tasks, g, id);
    lemma_find_map(v.tasks, g, x);
    lemma_found_has_id(v.tasks, x);
}

/// A task that was reminded of is not picked up by any later reminder
/// round, until it is rescheduled.
pub proof fn law_reminded_task_not_picked_again(v: TablesView, id: i64, at: DateTime, later: DateTime)
    ensures
        lacks_id(v.with_notified(id, at).due_for_reminder(later), id),
{
    let w = v.with_notified(id, at);
    let p = |t: Task| needs_reminder(t, later);
    assert forall|k: int| 0 <= k < w.tasks.len() && #[trigger] w.tasks[k].id == id implies w.tasks[k].notified_at
        is Some by {}
    assert forall|i: int| 0 <= i < w.tasks.filter(p).len() implies (#[trigger] w.tasks.filter(p)[i]).id != id by {
        let a = lemma_filter_index(w.tasks, p, i);
    }
}

/// Rescheduling clears the reminder: the moved pending task is picked up
/// again by a reminder round once its new due moment has come.
pub proof fn law_reschedule_rearms_reminder(t: Task, day: Date, now: DateTime)
    requires
        t.status == TaskStatus::Pending,
        datetime_le(crate::queries::due_moment(rescheduled_row(t, day)), now),
    ensures
        needs_reminder(rescheduled_row(t, day), now),
{
}

/// A task that a reminder round picks up at some moment is picked up at
/// every later moment too, as long as it is not reminded of.
pub proof fn law_due_stays_due(t: Task, now: DateTime, later: DateTime)
    requires
        needs_reminder(t, now),
        datetime_le(now, later),
    ensures
        needs_reminder(t, later),
{
}

/// After adding a note to a task, the task's notes are the notes it had,
/// then the new one; the notes of every other task stay as they were.
pub proof fn law_notes_after_add(v: TablesView, task_id: i64, content: String, now: DateTime, other: i64)
    ensures
        v.with_new_note(task_id, content, now).notes_of(task_id) == v.notes_of(task_id).push(
            new_note_row(v.next_note_id as i64, task_id, content, now),
        ),
        other != task_id ==> v.with_new_note(task_id, content, now).notes_of(other) == v.notes_of(other),
{
    let n = new_note_row(v.next_note_id as i64, task_id, content, now);
    lemma_filter_push(v.notes, n, |m: TaskNote| is_note_of(m, task_id));
    lemma_filter_push(v.notes, n, |m: TaskNote| is_note_of(m, other));
}

/// Two notes, the second created no earlier than the first and with a
/// greater id, are listed first then second, also when they were created
/// at the same moment.
pub proof fn law_two_notes_in_creation_order(ns: Seq<TaskNote>, first: TaskNote, second: TaskNote)
    requires
        ns.to_multiset() == seq![first, second].to_multiset(),
        notes_in_order(ns),
        first.created_at matches Some(a) && second.created_at matches Some(b) && datetime_le(a, b),
        first.id < second.id,
    ensures
        ns == seq![first, second],
{
    broadcast use vstd::multiset::group_multiset_axioms;
    let two = seq![first, second];
    assert(two.len() == 2);
    assert(two.to_multiset().len() == 2);
    assert(ns.len() == ns.to_multiset().len());
    assert(ns.len() == 2);
    assert(two.to_multiset().count(first) > 0) by {
        assert(two.contains(first));
    }
    assert(two.to_multiset().count(second) > 0) by {
        assert(two.contains(second));
    }
    assert(ns.contains(first));
    assert(ns.contains(second));
    assert(first != second);
    if ns[0] == second {
        assert(ns[1] == first);
        assert(crate::queries::note_le(ns[0], ns[1]));
    }
    assert(ns[0] == first);
    assert(ns[1] == second);
    assert(ns =~= two);
}

/// Two notes added to a task without notes, the second no earlier than the
/// first (in the same moment too), are what the task's details list, in
/// the order they were added.
pub proof fn law_notes_listed_in_order_of_adding(
    v: TablesView,
    task_id: i64,
    first: String,
    second: String,
    t1: DateTime,
    t2: DateTime,
    listed: Seq<TaskNote>,
)
    requires
        v.wf(),
        v.notes_of(task_id).len() == 0,
        v.next_note_id < i64::MAX,
        datetime_le(t1, t2),
        listed.to_multiset() == v.with_new_note(task_id, first, t1).with_new_note(task_id, second, t2).notes_of(
            task_id,
        ).to_multiset(),
        notes_in_order(listed),
    ensures
        listed == seq![
            new_note_row(v.next_note_id as i64, task_id, first, t1),
            new_note_row((v.next_note_id + 1) as i64, task_id, second, t2),
        ],
{
    let w1 = v.with_new_note(task_id, first, t1);
    let n1 = new_note_row(v.next_note_id as i64, task_id, first, t1);
    let n2 = new_note_row((v.next_note_id + 1) as i64, task_id, second, t2);
    law_notes_after_add(v, task_id, first, t1, task_id);
    law_notes_after_add(w1, task_id, second, t2, task_id);
    assert(v.notes_of(task_id) =~= Seq::<TaskNote>::empty());
    assert(w1.with_new_note(task_id, second, t2).notes_of(task_id) =~= seq![n1, n2]);
    law_two_notes_in_creation_order(listed, n1, n2);
}

/// After deleting a task, it is found no more and none of its notes remain;
/// every other id finds what it found before.
pub proof fn law_delete_removes_task_and_notes(v: TablesView, id: i64, x: i64)
    requires
        v.wf(),
    ensures
        v.without_task(id).find(id) is None,
        v.without_task(id).notes_of(id).len() == 0,
        x != id ==> v.without_task(id).find(x) == v.find(x),
{
    let w = v.without_task(id);
    let pt = |t: Task| t.id != id;
    let pn = |n: TaskNote| n.task_id != id;
    assert forall|k: int| 0 <= k < w.tasks.len() implies #[trigger] w.tasks[k].id != id by {
        let a = lemma_filter_index(v.tasks, pt, k);
    }
    lemma_find_absent(w.tasks, id);
    let q = |n: TaskNote| is_note_of(n, id);
    if w.notes.filter(q).len() > 0 {
        let a = lemma_filter_index(w.notes, q, 0);
        let b = lemma_filter_index(v.notes, pn, a);
    }
    if x != id {
        crate::tables::lemma_without_task_wf(v, id);
        lemma_found_has_id(v.tasks, x);
        match spec_find_task(v.tasks, x) {
            Some(t) => {
                crate::tables::lemma_find_some_iff(v.tasks, x);
                let k = choose|k: int| 0 <= k < v.tasks.len() && #[trigger] v.tasks[k].id == x;
                lemma_find_at(v.tasks, x, k);
                v.tasks.lemma_filter_contains(pt, k);
                let m = choose|m: int| 0 <= m < w.tasks.len() && w.tasks[m] == v.tasks[k];
                lemma_find_at(w.tasks, x, m);
            },
            None => {
                crate::tables::lemma_find_some_iff(v.tasks, x);
                assert forall|k: int| 0 <= k < w.tasks.len() implies #[trigger] w.tasks[k].id != x by {
                    let a = lemma_filter_index(v.tasks, pt, k);
                }
                lemma_find_absent(w.tasks, x);
            },
        }
    }
}

/// No task is found for an id that no task has; this is what a missing id
/// reads as, and why marking it done fails and rescheduling it gives nothing.
pub proof fn law_missing_task_not_found(v: TablesView, id: i64)
    requires
        v.wf(),
        !has_task(v.tasks, id),
    ensures
        v.find(id) is None,
{
    crate::tables::lemma_find_some_iff(v.tasks, id);
}

/// No operation lowers the id that the next task or the next note gets.
pub proof fn lemma_apply_keeps_next_ids(v: TablesView, op: TableOp)
    ensures
        v.apply(op).next_task_id >= v.next_task_id,
        v.apply(op).next_note_id >= v.next_note_id,
{
}

/// No sequence of operations lowers the id that the next task or the next
/// note gets.
pub proof fn lemma_apply_all_keeps_next_ids(v: TablesView, ops: Seq<TableOp>)
    ensures
        v.apply_all(ops).next_task_id >= v.next_task_id,
        v.apply_all(ops).next_note_id >= v.next_note_id,
    decreases ops.len(),
{
    if ops.len() > 0 {
        lemma_apply_keeps_next_ids(v, ops[0]);
        lemma_apply_all_keeps_next_ids(v.apply(ops[0]), ops.drop_first());
    }
}

/// Task ids are positive and rise in the order of the calls: after a task
/// is created with some id, whatever operations follow, the next task
/// created gets a greater id.
pub proof fn law_task_ids_rise(
    v: TablesView,
    title: String,
    priority: i8,
    due_date: Date,
    now: DateTime,
    ops: Seq<TableOp>,
)
    requires
        v.wf(),
        v.next_task_id < i64::MAX,
    ensures
        1 <= v.next_task_id,
        v.next_task_id < v.apply(TableOp::CreateTask { title, priority, due_date, now }).apply_all(ops).next_task_id,
{
    lemma_apply_all_keeps_next_ids(v.apply(TableOp::CreateTask { title, priority, due_date, now }), ops);
}

/// Note ids are positive and rise in the order of the calls: after a note
/// is added with some id, whatever operations follow, the next note added
/// gets a greater id.
pub proof fn law_note_ids_rise(
    v: TablesView,
    task_id: i64,
    content: String,
    now: DateTime,
    ops: Seq<TableOp>,
)
    requires
        v.wf(),
        has_task(v.tasks, task_id),
        v.next_note_id < i64::MAX,
    ensures
        1 <= v.next_note_id,
        v.next_note_id < v.apply(TableOp::AddNote { task_id, content, now }).apply_all(ops).next_note_id,
{
    lemma_apply_all_keeps_next_ids(v.apply(TableOp::AddNote { task_id, content, now }), ops);
}

/// The operation reschedules the given task.
pub open spec fn reschedules(op: TableOp, id: i64) -> bool {
    op matches TableOp::Reschedule { task_id, .. } && task_id == id
}

/// Every row with the id records a reminder, and the id is below the next
/// id to give, so no later insertion reuses it.
pub open spec fn stays_reminded(w: TablesView, id: i64) -> bool {
    &&& id < w.next_task_id
    &&& forall|k: int| 0 <= k < w.tasks.len() && (#[trigger] w.tasks[k]).id == id ==> w.tasks[k].notified_at is Some
}

/// An operation other than rescheduling the task keeps it recorded as
/// reminded of.
pub proof fn lemma_apply_keeps_reminded(w: TablesView, id: i64, op: TableOp)
    requires
        stays_reminded(w, id),
        !reschedules(op, id),
    ensures
        stays_reminded(w.apply(op), id),
{
    let u = w.apply(op);
    match op {
        TableOp::CreateTask { title, priority, due_date, now } => {
            if w.next_task_id < i64::MAX {
                assert forall|k: int| 0 <= k < u.tasks.len() && (#[trigger] u.tasks[k]).id == id implies u.tasks[k].notified_at
                    is Some by {
                    if k < w.tasks.len() {
                        assert(u.tasks[k] == w.tasks[k]);
                    }
                }
            }
        },
        TableOp::DeleteTask { task_id } => {
            let pt = |t: Task| t.id != task_id;
            assert forall|k: int| 0 <= k < u.tasks.len() && (#[trigger] u.tasks[k]).id == id implies u.tasks[k].notified_at
                is Some by {
                let a = lemma_filter_index(w.tasks, pt, k);
            }
        },
        _ => {},
    }
}

/// A sequence of operations without a rescheduling of the task keeps it
/// recorded as reminded of.
pub proof fn lemma_apply_all_keeps_reminded(w: TablesView, id: i64, ops: Seq<TableOp>)
    requires
        stays_reminded(w, id),
        forall|i: int| 0 <= i < ops.len() ==> !reschedules(#[trigger] ops[i], id),
    ensures
        stays_reminded(w.apply_all(ops), id),
    decreases ops.len(),
{
    if ops.len() > 0 {
        lemma_apply_keeps_reminded(w, id, ops[0]);
        let rest = ops.drop_first();
        assert forall|i: int| 0 <= i < rest.len() implies !reschedules(#[trigger] rest[i], id) by {
            assert(rest[i] == ops[i + 1]);
        }
        lemma_apply_all_keeps_reminded(w.apply(ops[0]), id, rest);
    }
}

/// A task that was reminded of is not reported by any later reminder round,
/// whatever operations on other rows (and status changes of its own row)
/// come in between, until it is rescheduled.
pub proof fn law_reminded_task_stays_unreported(
    v: TablesView,
    id: i64,
    at: DateTime,
    ops: Seq<TableOp>,
    now: DateTime,
)
    requires
        v.wf(),
        has_task(v.tasks, id),
        forall|i: int| 0 <= i < ops.len() ==> !reschedules(#[trigger] ops[i], id),
    ensures
        lacks_id(v.apply(TableOp::MarkNotified { task_id: id, now: at }).apply_all(ops).due_for_reminder(now), id),
{
    let w = v.apply(TableOp::MarkNotified { task_id: id, now: at });
    let k0 = choose|k: int| 0 <= k < v.tasks.len() && #[trigger] v.tasks[k].id == id;
    assert(v.tasks[k0].id < v.next_task_id);
    lemma_apply_all_keeps_reminded(w, id, ops);
    let u = w.apply_all(ops);
    let p = |t: Task| needs_reminder(t, now);
    assert forall|i: int| 0 <= i < u.due_for_reminder(now).len() implies #[trigger] u.due_for_reminder(now)[i].id != id by {
        let a = lemma_filter_index(u.tasks, p, i);
    }
}

/// Two creations with any operations in between give two positive ids, the
/// second greater than the first: the first creation writes a row with the
/// next id, and so does the second, whose next id has risen past the first.
pub proof fn law_created_ids_rise(
    v: TablesView,
    first: TableOp,
    ops: Seq<TableOp>,
    second: TableOp,
)
    requires
        v.wf(),
        v.next_task_id < i64::MAX,
        first is CreateTask,
        second is CreateTask,
        v.apply(first).apply_all(ops).next_task_id < i64::MAX,
    ensures
        ({
            let w = v.apply(first).apply_all(ops);
            let id1 = v.apply(first).tasks.last().id;
            let id2 = w.apply(second).tasks.last().id;
            &&& id1 == v.next_task_id
            &&& id2 == w.next_task_id
            &&& 1 <= id1 < id2
        }),
{
    lemma_apply_all_keeps_next_ids(v.apply(first), ops);
}

/// Two notes added with any operations in between get two positive ids, the
/// second greater than the first.
pub proof fn law_added_note_ids_rise(
    v: TablesView,
    first: TableOp,
    ops: Seq<TableOp>,
    second: TableOp,
)
    requires
        v.wf(),
        first matches TableOp::AddNote { task_id, .. } && has_task(v.tasks, task_id),
        v.next_note_id < i64::MAX,
        second matches TableOp::AddNote { task_id, .. } && has_task(v.apply(first).apply_all(ops).tasks, task_id),
        v.apply(first).apply_all(ops).next_note_id < i64::MAX,
    ensures
        ({
            let w = v.apply(first).apply_all(ops);
            let n1 = v.apply(first).notes.last().id;
            let n2 = w.apply(second).notes.last().id;
            &&& n1 == v.next_note_id
            &&& n2 == w.next_note_id
            &&& 1 <= n1 < n2
        }),
{
    lemma_apply_all_keeps_next_ids(v.apply(first), ops);
}

/// The order of days is the calendar's: an earlier year comes first, then
/// within a year an earlier month, then within a month an earlier day; no
/// day comes before itself, and of two different days exactly one comes
/// first.
pub proof fn law_date_order_is_calendar_order(a: Date, b: Date)
    ensures
        a.year < b.year ==> date_lt(a, b),
        a.year == b.year && a.month < b.month ==> date_lt(a, b),
        a.year == b.year && a.month == b.month && a.day < b.day ==> date_lt(a, b),
        !date_lt(a, a),
        date_lt(a, b) ==> !date_lt(b, a),
        a != b ==> date_lt(a, b) || date_lt(b, a),
{
}

/// The order of times of day is the clock's: an earlier hour comes first,
/// then within an hour an earlier minute, then an earlier second, then an
/// earlier nanosecond; no time comes before itself, and of two different
/// times exactly one comes first.
pub proof fn law_time_order_is_clock_order(a: Time, b: Time)
    ensures
        a.hour < b.hour ==> time_lt(a, b),
        a.hour == b.hour && a.minute < b.minute ==> time_lt(a, b),
        a.hour == b.hour && a.minute == b.minute && a.second < b.second ==> time_lt(a, b),
        a.hour == b.hour && a.minute == b.minute && a.second == b.second && a.nanosecond < b.nanosecond
            ==> time_lt(a, b),
        !time_lt(a, a),
        time_lt(a, b) ==> !time_lt(b, a),
        a != b ==> time_lt(a, b) || time_lt(b, a),
{
}

/// Instants are ordered by day first, then by time of day; `at or before`
/// is `not after`.
pub proof fn law_datetime_order(a: DateTime, b: DateTime)
    ensures
        a.date.year < b.date.year ==> datetime_lt(a, b),
        a.date == b.date && a.time.hour < b.time.hour ==> datetime_lt(a, b),
        a.date == b.date && a.time.hour == b.time.hour && a.time.minute < b.time.minute ==> datetime_lt(a, b),
        date_lt(a.date, b.date) ==> datetime_lt(a, b),
        a.date == b.date && time_lt(a.time, b.time) ==> datetime_lt(a, b),
        datetime_le(a, b) <==> !datetime_lt(b, a),
{
}

/// A reminder round never reports a task due on a later day than the
/// round's own day, and always reports a pending, never-reminded task due on
/// an earlier day.
pub proof fn law_reminder_respects_due_day(t: Task, now: DateTime)
    ensures
        t.due_date.year > now.date.year ==> !needs_reminder(t, now),
        t.due_date.year == now.date.year && t.due_date.month > now.date.month ==> !needs_reminder(t, now),
        t.due_date.year == now.date.year && t.due_date.month == now.date.month && t.due_date.day > now.date.day
            ==> !needs_reminder(t, now),
        t.status == TaskStatus::Pending && t.notified_at is None && t.due_date.year < now.date.year
            ==> needs_reminder(t, now),
        t.status == TaskStatus::Pending && t.notified_at is None && t.due_date == now.date && t.due_time
            is None ==> needs_reminder(t, now),
        t.status != TaskStatus::Pending ==> !needs_reminder(t, now),
        t.notified_at is Some ==> !needs_reminder(t, now),
{
}

/// The next day is the following day of the calendar: a valid day after
/// the given one, with no valid day in between. Only the last day of the
/// last year has none.
pub proof fn law_next_day_is_following_calendar_day(d: Date, x: Date)
    requires
        is_valid_date(d),
    ensures
        spec_next_day(d) is None <==> (d.year == last_year() && d.month == 12 && d.day == 31),
        spec_next_day(d) matches Some(n) ==> {
            &&& is_valid_date(n)
            &&& date_lt(d, n)
            &&& (is_valid_date(x) && date_lt(d, x) ==> n == x || date_lt(n, x))
        },
{
}

/// `tomorrow` (in any case) names the day of the calendar that follows the
/// current one; every day that a date argument names is a day of the
/// calendar.
pub proof fn law_tomorrow_is_next_calendar_day(s: Seq<char>, today: Date, x: Date)
    requires
        is_valid_date(today),
        spec_next_day(today) is Some,
    ensures
        lowercased(s) == "tomorrow"@ ==> (spec_date_arg(s, today) matches Ok(d) && is_valid_date(d) && date_lt(
            today,
            d,
        ) && (is_valid_date(x) && date_lt(today, x) ==> d == x || date_lt(d, x))),
        lowercased(s) == "today"@ ==> spec_date_arg(s, today) == Ok::<Date, Seq<char>>(today),
{
    law_next_day_is_following_calendar_day(today, x);
    reveal_strlit("today");
    reveal_strlit("tomorrow");
    assert("today"@.len() != "tomorrow"@.len());
    assert("today"@ != "tomorrow"@);
}

/// A day's listing holds exactly the pending tasks due on that day: each
/// listed task is pending and due that day, and each such task is listed.
pub proof fn law_day_listing_is_that_day(v: TablesView, day: Date)
    ensures
        forall|i: int| 0 <= i < v.listed_on(day).len() ==> (#[trigger] v.listed_on(day)[i]).due_date == day
            && v.listed_on(day)[i].status == TaskStatus::Pending,
        forall|k: int| 0 <= k < v.tasks.len() && (#[trigger] v.tasks[k]).due_date == day && v.tasks[k].status
            == TaskStatus::Pending ==> v.listed_on(day).contains(v.tasks[k]),
{
    let p = |t: Task| is_pending_on(t, day);
    v.tasks.filter_lemma(p);
    assert forall|i: int| 0 <= i < v.listed_on(day).len() implies (#[trigger] v.listed_on(day)[i]).due_date == day
        && v.listed_on(day)[i].status == TaskStatus::Pending by {
        assert(p(v.tasks.filter(p)[i]));
    }
    assert forall|k: int| 0 <= k < v.tasks.len() && (#[trigger] v.tasks[k]).due_date == day && v.tasks[k].status
        == TaskStatus::Pending implies v.listed_on(day).contains(v.tasks[k]) by {
        assert(p(v.tasks[k]));
    }
}

/// The full listing holds exactly the pending tasks.
pub proof fn law_pending_listing_is_all_pending(v: TablesView)
    ensures
        forall|i: int| 0 <= i < v.listed_pending().len() ==> (#[trigger] v.listed_pending()[i]).status
            == TaskStatus::Pending,
        forall|k: int| 0 <= k < v.tasks.len() && (#[trigger] v.tasks[k]).status == TaskStatus::Pending
            ==> v.listed_pending().contains(v.tasks[k]),
{
    let p = |t: Task| is_pending(t);
    v.tasks.filter_lemma(p);
    assert forall|i: int| 0 <= i < v.listed_pending().len() implies (#[trigger] v.listed_pending()[i]).status
        == TaskStatus::Pending by {
        assert(p(v.tasks.filter(p)[i]));
    }
    assert forall|k: int| 0 <= k < v.tasks.len() && (#[trigger] v.tasks[k]).status == TaskStatus::Pending
        implies v.listed_pending().contains(v.tasks[k]) by {
        assert(p(v.tasks[k]));
    }
}

/// Rescheduling an existing task leaves it due on the new day, with no
/// reminder recorded, and with its id, title, status, priority, due time and
/// creation time as they were.
pub proof fn law_reschedule_moves_task(v: TablesView, id: i64, day: Date)
    requires
        v.wf(),
        has_task(v.tasks, id),
    ensures
        v.find(id) matches Some(old) && v.with_due_date(id, day).find(id) matches Some(t) && {
            &&& t.due_date == day
            &&& t.notified_at is None
            &&& t.id == id
            &&& t.title == old.title
            &&& t.status == old.status
            &&& t.priority == old.priority
            &&& t.due_time == old.due_time
            &&& t.created_at == old.created_at
        },
{
    crate::tables::lemma_find_some_iff(v.tasks, id);
    law_find_after_reschedule(v, id, day, id);
}

/// Marking an existing task done leaves it done, with every other field as
/// it was.
pub proof fn law_mark_done_sets_done(v: TablesView, id: i64)
    requires
        v.wf(),
        has_task(v.tasks, id),
    ensures
        v.find(id) matches Some(old) && v.with_status(id, TaskStatus::Done).find(id) matches Some(t) && {
            &&& t.status == TaskStatus::Done
            &&& t.id == id
            &&& t.title == old.title
            &&& t.priority == old.priority
            &&& t.due_date == old.due_date
            &&& t.due_time == old.due_time
            &&& t.notified_at == old.notified_at
        },
{
    crate::tables::lemma_find_some_iff(v.tasks, id);
    law_find_after_mark_done(v, id, id);
}

/// A created task reads back with the given title, priority and due day,
/// pending, with no due time and no reminder, under the id the creation
/// returned.
pub proof fn law_created_task_fields(v: TablesView, title: String, priority: i8, due_date: Date, now: DateTime)
    requires
        v.wf(),
        v.next_task_id < i64::MAX,
    ensures
        v.with_new_task(title, priority, due_date, now).find(v.next_task_id as i64) matches Some(t) && {
            &&& t.id == v.next_task_id
            &&& t.title == title
            &&& t.priority == priority
            &&& t.due_date == due_date
            &&& t.status == TaskStatus::Pending
            &&& t.due_time is None
            &&& t.notified_at is None
        },
{
    law_find_after_create(v, title, priority, due_date, now, (v.next_task_id + 1) as i64);
}

/// Recording a reminder for an existing task stores the moment it was
/// shown.
pub proof fn law_mark_notified_records_moment(v: TablesView, id: i64, at: DateTime)
    requires
        v.wf(),
        has_task(v.tasks, id),
    ensures
        v.with_notified(id, at).find(id) matches Some(t) && t.notified_at == Some(at) && t.id == id,
{
    crate::tables::lemma_find_some_iff(v.tasks, id);
    let g = |t: Task| if t.id == id { crate::tables::notified_row(t, at) } else { t };
    assert(v.with_notified(id, at).tasks =~= v.tasks.map_values(g));
    lemma_find_map(v.tasks, g, id);
    lemma_found_has_id(v.tasks, id);
}

} // verus!
