use vstd::prelude::*;
use crate::models::{Date, DateTime, Task, TaskNote, TaskStatus, Time, datetime_le, spec_midnight};

verus! {

broadcast use vstd::seq_lib::group_to_multiset_ensures;

/// The moment a task falls due: its due day at its due time, or at the start
/// of the day when it has no due time.
pub open spec fn due_moment(t: Task) -> DateTime {
    DateTime {
        date: t.due_date,
        time: match t.due_time {
            Some(tm) => tm,
            None => spec_midnight(),
        },
    }
}

/// A task that a day's listing shows: still pending and due that day.
pub open spec fn is_pending_on(t: Task, day: Date) -> bool {
    t.status == TaskStatus::Pending && t.due_date == day
}

/// A task that the full listing shows: still pending.
pub open spec fn is_pending(t: Task) -> bool {
    t.status == TaskStatus::Pending
}

/// A task that a reminder round picks up at `now`: pending, not reminded
/// of yet, and fallen due at or before `now`.
pub open spec fn needs_reminder(t: Task, now: DateTime) -> bool {
    &&& t.status == TaskStatus::Pending
    &&& t.notified_at is None
    &&& datetime_le(due_moment(t), now)
}

/// The first row with the given id, if there is one.
pub open spec fn spec_find_task(rows: Seq<Task>, id: i64) -> Option<Task>
    decreases rows.len(),
{
    if rows.len() == 0 {
        None
    } else if rows[0].id == id {
        Some(rows[0])
    } else {
        spec_find_task(rows.drop_first(), id)
    }
}

/// Note creation times in the order of the note listing: a note without a
/// creation time comes first.
pub open spec fn created_le(a: Option<DateTime>, b: Option<DateTime>) -> bool {
    match (a, b) {
        (None, _) => true,
        (Some(_), None) => false,
        (Some(x), Some(y)) => datetime_le(x, y),
    }
}

/// The order of the note listing: by creation time, and among notes created
/// at the same time (or both without a time), by id, that is, in the order
/// they were added.
pub open spec fn note_le(a: TaskNote, b: TaskNote) -> bool {
    (created_le(a.created_at, b.created_at) && !created_le(b.created_at, a.created_at)) || (a.created_at
        == b.created_at && a.id <= b.id)
}

/// Notes in the order of the note listing.
pub open spec fn notes_in_order(s: Seq<TaskNote>) -> bool {
    forall|i: int, j: int| 0 <= i < j < s.len() ==> note_le(#[trigger] s[i], #[trigger] s[j])
}

/// Adding one element at the end of a sequence adds it to the filtered
/// sequence exactly when it passes the filter.
pub proof fn lemma_filter_push<A>(s: Seq<A>, x: A, p: spec_fn(A) -> bool)
    ensures
        s.push(x).filter(p) == (if p(x) {
            s.filter(p).push(x)
        } else {
            s.filter(p)
        }),
{
    reveal_with_fuel(Seq::filter, 1);
    assert(s.push(x).drop_last() =~= s);
}

/// An exact copy of a task row.
pub fn copy_task(t: &Task) -> (r: Task)
    ensures
        r == *t,
{
    Task {
        id: t.id,
        title: t.title.clone(),
        status: t.status,
        priority: t.priority,
        created_at: t.created_at,
        updated_at: t.updated_at,
        due_date: t.due_date,
        due_time: t.due_time,
        notified_at: t.notified_at,
    }
}

/// An exact copy of a note row.
pub fn copy_note(n: &TaskNote) -> (r: TaskNote)
    ensures
        r == *n,
{
    TaskNote { id: n.id, task_id: n.task_id, content: n.content.clone(), created_at: n.created_at }
}

/// The moment a task falls due.
pub fn task_due_moment(t: &Task) -> (r: DateTime)
    ensures
        r == due_moment(*t),
{
    let time = match t.due_time {
        Some(tm) => tm,
        None => Time::midnight(),
    };
    DateTime { date: t.due_date, time }
}

/// Whether a reminder round at `now` picks the task up.
pub fn task_needs_reminder(t: &Task, now: &DateTime) -> (r: bool)
    ensures
        r == needs_reminder(*t, *now),
{
    t.status == TaskStatus::Pending && t.notified_at.is_none() && task_due_moment(
        t,
    ).is_at_or_before(now)
}

/// The row of the task with the given id.
pub fn find_task(rows: &Vec<Task>, id: i64) -> (r: Option<Task>)
    ensures
        r == spec_find_task(rows@, id),
{
    let mut i: usize = 0;
    assert(rows@.skip(0) =~= rows@);
    while i < rows.len()
        invariant
            i <= rows@.len(),
            spec_find_task(rows@, id) == spec_find_task(rows@.skip(i as int), id),
        decreases rows@.len() - i,
    {
        assert(rows@.skip(i as int).drop_first() =~= rows@.skip(i + 1));
        if rows[i].id == id {
            return Some(copy_task(&rows[i]));
        }
        i = i + 1;
    }
    None
}

/// The pending tasks due on `day`, in the order of the rows.
pub fn select_pending_on(rows: &Vec<Task>, day: Date) -> (r: Vec<Task>)
    ensures
        r@ == rows@.filter(|t: Task| is_pending_on(t, day)),
        forall|i: int| 0 <= i < r@.len() ==> (#[trigger] r@[i]).due_date == day && r@[i].status
            == TaskStatus::Pending,
        forall|k: int| 0 <= k < rows@.len() && (#[trigger] rows@[k]).due_date == day && rows@[k].status
            == TaskStatus::Pending ==> r@.contains(rows@[k]),
{
    let ghost p = |t: Task| is_pending_on(t, day);
    let mut out: Vec<Task> = Vec::new();
    let mut i: usize = 0;
    while i < rows.len()
        invariant
            i <= rows@.len(),
            p == (|t: Task| is_pending_on(t, day)),
            out@ == rows@.take(i as int).filter(p),
        decreases rows@.len() - i,
    {
        proof {
            lemma_filter_push(rows@.take(i as int), rows@[i as int], p);
            assert(rows@.take(i + 1) =~= rows@.take(i as int).push(rows@[i as int]));
        }
        if rows[i].status == TaskStatus::Pending && rows[i].due_date == day {
            out.push(copy_task(&rows[i]));
        }
        i = i + 1;
    }
    assert(rows@.take(rows@.len() as int) =~= rows@);
    proof {
        rows@.filter_lemma(p);
        assert forall|k: int| 0 <= k < rows@.len() && (#[trigger] rows@[k]).due_date == day && rows@[k].status
            == TaskStatus::Pending implies out@.contains(rows@[k]) by {
            assert(p(rows@[k]));
        }
        assert forall|i: int| 0 <= i < out@.len() implies (#[trigger] out@[i]).due_date == day && out@[i].status
            == TaskStatus::Pending by {
            assert(p(out@[i]));
        }
    }
    out
}

/// The pending tasks, in the order of the rows.
pub fn select_pending(rows: &Vec<Task>) -> (r: Vec<Task>)
    ensures
        r@ == rows@.filter(|t: Task| is_pending(t)),
        forall|i: int| 0 <= i < r@.len() ==> (#[trigger] r@[i]).status == TaskStatus::Pending,
        forall|k: int| 0 <= k < rows@.len() && (#[trigger] rows@[k]).status == TaskStatus::Pending
            ==> r@.contains(rows@[k]),
{
    let ghost p = |t: Task| is_pending(t);
    let mut out: Vec<Task> = Vec::new();
    let mut i: usize = 0;
    while i < rows.len()
        invariant
            i <= rows@.len(),
            p == (|t: Task| is_pending(t)),
            out@ == rows@.take(i as int).filter(p),
        decreases rows@.len() - i,
    {
        proof {
            lemma_filter_push(rows@.take(i as int), rows@[i as int], p);
            assert(rows@.take(i + 1) =~= rows@.take(i as int).push(rows@[i as int]));
        }
        if rows[i].status == TaskStatus::Pending {
            out.push(copy_task(&rows[i]));
        }
        i = i + 1;
    }
    assert(rows@.take(rows@.len() as int) =~= rows@);
    proof {
        rows@.filter_lemma(p);
        assert forall|k: int| 0 <= k < rows@.len() && (#[trigger] rows@[k]).status == TaskStatus::Pending implies out@.contains(
            rows@[k],
        ) by {
            assert(p(rows@[k]));
        }
        assert forall|i: int| 0 <= i < out@.len() implies (#[trigger] out@[i]).status == TaskStatus::Pending by {
            assert(p(out@[i]));
        }
    }
    out
}

/// The tasks that a reminder round at `now` picks up, in the order of the rows.
pub fn select_needing_reminder(rows: &Vec<Task>, now: DateTime) -> (r: Vec<Task>)
    ensures
        r@ == rows@.filter(|t: Task| needs_reminder(t, now)),
        forall|i: int| 0 <= i < r@.len() ==> {
            &&& (#[trigger] r@[i]).status == TaskStatus::Pending
            &&& r@[i].notified_at is None
            &&& datetime_le(
                DateTime {
                    date: r@[i].due_date,
                    time: match r@[i].due_time {
                        Some(tm) => tm,
                        None => Time { hour: 0, minute: 0, second: 0, nanosecond: 0 },
                    },
                },
                now,
            )
        },
{
    let ghost p = |t: Task| needs_reminder(t, now);
    let mut out: Vec<Task> = Vec::new();
    let mut i: usize = 0;
    while i < rows.len()
        invariant
            i <= rows@.len(),
            p == (|t: Task| needs_reminder(t, now)),
            out@ == rows@.take(i as int).filter(p),
        decreases rows@.len() - i,
    {
        proof {
            lemma_filter_push(rows@.take(i as int), rows@[i as int], p);
            assert(rows@.take(i + 1) =~= rows@.take(i as int).push(rows@[i as int]));
        }
        if task_needs_reminder(&rows[i], &now) {
            out.push(copy_task(&rows[i]));
        }
        i = i + 1;
    }
    assert(rows@.take(rows@.len() as int) =~= rows@);
    proof {
        rows@.filter_lemma(p);
        assert forall|i: int| 0 <= i < out@.len() implies {
            &&& (#[trigger] out@[i]).status == TaskStatus::Pending
            &&& out@[i].notified_at is None
            &&& datetime_le(
                DateTime {
                    date: out@[i].due_date,
                    time: match out@[i].due_time {
                        Some(tm) => tm,
                        None => Time { hour: 0, minute: 0, second: 0, nanosecond: 0 },
                    },
                },
                now,
            )
        } by {
            assert(p(out@[i]));
        }
    }
    out
}

/// A note belongs to the given task.
pub open spec fn is_note_of(n: TaskNote, task_id: i64) -> bool {
    n.task_id == task_id
}

/// Inserting an element anywhere in a sequence adds it to the multiset of
/// its elements.
pub proof fn lemma_insert_to_multiset<A>(s: Seq<A>, i: int, x: A)
    requires
        0 <= i <= s.len(),
    ensures
        s.insert(i, x).to_multiset() =~= s.to_multiset().insert(x),
{
    broadcast use vstd::multiset::group_multiset_axioms;
    let t = s.insert(i, x);
    assert(t.remove(i) =~= s);
    assert(t[i] == x);
    assert(t.remove(i).to_multiset() =~= t.to_multiset().remove(x));
    assert(t.to_multiset().count(x) > 0) by {
        assert(t.contains(x));
    }
}

/// Whether a note created at `a` comes strictly before one created at `b`
/// in the note listing.
fn created_strictly_before(a: Option<DateTime>, b: Option<DateTime>) -> (r: bool)
    ensures
        r == !created_le(b, a),
{
    match (a, b) {
        (None, Some(_)) => true,
        (Some(x), Some(y)) => x.is_before(&y),
        _ => false,
    }
}

/// Whether note `a` comes strictly before note `b` in the note listing.
fn note_strictly_before(a: &TaskNote, b: &TaskNote) -> (r: bool)
    ensures
        r == !note_le(*b, *a),
{
    created_strictly_before(a.created_at, b.created_at) || (a.created_at == b.created_at && a.id < b.id)
}

/// The notes of a task, ordered by creation time (a note without one comes
/// first) and, among notes created at the same time, by id: exactly the
/// task's notes, each as often as it occurs, in that order.
pub fn notes_of_task(notes: &Vec<TaskNote>, task_id: i64) -> (r: Vec<TaskNote>)
    ensures
        r@.to_multiset() == notes@.filter(|n: TaskNote| is_note_of(n, task_id)).to_multiset(),
        notes_in_order(r@),
        forall|i: int| 0 <= i < r@.len() ==> (#[trigger] r@[i]).task_id == task_id,
{
    let ghost p = |n: TaskNote| is_note_of(n, task_id);
    let mut out: Vec<TaskNote> = Vec::new();
    let mut i: usize = 0;
    while i < notes.len()
        invariant
            i <= notes@.len(),
            p == (|n: TaskNote| is_note_of(n, task_id)),
            out@.to_multiset() == notes@.take(i as int).filter(p).to_multiset(),
            notes_in_order(out@),
        decreases notes@.len() - i,
    {
        proof {
            lemma_filter_push(notes@.take(i as int), notes@[i as int], p);
            assert(notes@.take(i + 1) =~= notes@.take(i as int).push(notes@[i as int]));
        }
        if notes[i].task_id == task_id {
            let n = copy_note(&notes[i]);
            let mut pos: usize = 0;
            while pos < out.len() && !note_strictly_before(&n, &out[pos])
                invariant
                    pos <= out@.len(),
                    forall|k: int| 0 <= k < pos ==> note_le(#[trigger] out@[k], n),
                decreases out@.len() - pos,
            {
                pos = pos + 1;
            }
            let ghost before = out@;
            out.insert(pos, n);
            proof {
                lemma_insert_to_multiset(before, pos as int, n);
                assert forall|a: int, b: int| 0 <= a < b < out@.len() implies note_le(
                    #[trigger] out@[a],
                    #[trigger] out@[b],
                ) by {
                    if a < pos && b == pos {
                    } else if a == pos && b > pos {
                        assert(out@[b] == before[b - 1]);
                        assert(note_le(before[pos as int], before[b - 1]));
                    } else if a < pos && b > pos {
                        assert(out@[b] == before[b - 1]);
                        assert(note_le(before[a], before[b - 1]));
                    } else if b < pos {
                        assert(note_le(before[a], before[b]));
                    } else {
                        assert(out@[a] == before[a - 1]);
                        assert(out@[b] == before[b - 1]);
                        assert(note_le(before[a - 1], before[b - 1]));
                    }
                }
            }
        }
        i = i + 1;
    }
    assert(notes@.take(notes@.len() as int) =~= notes@);
    proof {
        let f = notes@.filter(p);
        f.filter_lemma(p);
        notes@.filter_lemma(p);
        assert forall|i: int| 0 <= i < out@.len() implies (#[trigger] out@[i]).task_id == task_id by {
            assert(out@.contains(out@[i]));
            assert(out@.to_multiset().count(out@[i]) > 0);
            assert(f.to_multiset().count(out@[i]) > 0);
            assert(f.contains(out@[i]));
            let j = choose|j: int| 0 <= j < f.len() && f[j] == out@[i];
            assert(p(f[j]));
        }
    }
    out
}

} // verus!
