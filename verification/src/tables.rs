use vstd::prelude::*;
use vstd::pervasive::VecAdditionalExecFns;
use vstd::string::StringExecFns;
use crate::error::RepositoryError;
use crate::models::{Date, DateTime, Task, TaskNote, TaskStatus};
use crate::queries::{
    copy_note, copy_task, find_task, is_note_of, is_pending, is_pending_on, lemma_filter_push,
    needs_reminder, notes_in_order, notes_of_task, select_needing_reminder, select_pending,
    select_pending_on, spec_find_task,
};

verus! {

broadcast use vstd::seq_lib::group_filter_ensures;

/// The contents of the task tables: the task rows, the note rows, and the
/// ids that the next insertions will receive.
pub struct TablesView {
    pub tasks: Seq<Task>,
    pub notes: Seq<TaskNote>,
    pub next_task_id: int,
    pub next_note_id: int,
}

/// Why a statement on the tables was refused.
#[derive(Debug, Clone, Copy, PartialEq, Eq, Structural)]
pub enum TableError {
    /// A note names a task that does not exist; the note table's foreign
    /// key on its task refuses it.
    ForeignKeyViolation(i64),
}

/// One of the operations that change the tables, with its arguments.
pub enum TableOp {
    CreateTask { title: String, priority: i8, due_date: Date, now: DateTime },
    MarkDone { task_id: i64 },
    Reschedule { task_id: i64, new_date: Date },
    AddNote { task_id: i64, content: String, now: DateTime },
    DeleteTask { task_id: i64 },
    MarkNotified { task_id: i64, now: DateTime },
}

/// No two rows share an id.
pub open spec fn task_ids_unique(s: Seq<Task>) -> bool {
    forall|i: int, j: int| 0 <= i < j < s.len() ==> #[trigger] s[i].id != #[trigger] s[j].id
}

/// No two notes share an id.
pub open spec fn note_ids_unique(s: Seq<TaskNote>) -> bool {
    forall|i: int, j: int| 0 <= i < j < s.len() ==> #[trigger] s[i].id != #[trigger] s[j].id
}

/// No row has the given id.
pub open spec fn lacks_id(s: Seq<Task>, id: i64) -> bool {
    forall|i: int| 0 <= i < s.len() ==> #[trigger] s[i].id != id
}

/// Some row has the given id.
pub open spec fn has_task(s: Seq<Task>, id: i64) -> bool {
    exists|k: int| 0 <= k < s.len() && #[trigger] s[k].id == id
}

/// A row as the insertion of a new task writes it: the given title,
/// priority and due day, pending, created now, with no update time, no due
/// time and no reminder yet.
pub open spec fn new_task_row(id: i64, title: String, priority: i8, due_date: Date, now: DateTime) -> Task {
    Task {
        id,
        title,
        status: TaskStatus::Pending,
        priority,
        created_at: Some(now),
        updated_at: None,
        due_date,
        due_time: None,
        notified_at: None,
    }
}

/// A note as its insertion writes it, created now.
pub open spec fn new_note_row(id: i64, task_id: i64, content: String, now: DateTime) -> TaskNote {
    TaskNote { id, task_id, content, created_at: Some(now) }
}

/// A task row with a new status.
pub open spec fn with_status_row(t: Task, status: TaskStatus) -> Task {
    Task { status, ..t }
}

/// A task row moved to another day, with its reminder cleared.
pub open spec fn rescheduled_row(t: Task, day: Date) -> Task {
    Task { due_date: day, notified_at: None, ..t }
}

/// A task row marked as reminded of at `now`.
pub open spec fn notified_row(t: Task, now: DateTime) -> Task {
    Task { notified_at: Some(now), ..t }
}

impl TablesView {
    /// The invariant of the tables: ids are positive, below the next id to
    /// give and unique, and every note belongs to a task that exists.
    pub open spec fn wf(self) -> bool {
        &&& 1 <= self.next_task_id <= i64::MAX
        &&& 1 <= self.next_note_id <= i64::MAX
        &&& forall|i: int| 0 <= i < self.tasks.len() ==> 1 <= #[trigger] self.tasks[i].id < self.next_task_id
        &&& task_ids_unique(self.tasks)
        &&& forall|i: int| 0 <= i < self.notes.len() ==> 1 <= #[trigger] self.notes[i].id < self.next_note_id
        &&& note_ids_unique(self.notes)
        &&& forall|i: int| 0 <= i < self.notes.len() ==> has_task(self.tasks, #[trigger] self.notes[i].task_id)
    }

    /// The task with the given id.
    pub open spec fn find(self, id: i64) -> Option<Task> {
        spec_find_task(self.tasks, id)
    }

    /// The pending tasks due on `day`, in the order of the rows.
    pub open spec fn listed_on(self, day: Date) -> Seq<Task> {
        self.tasks.filter(|t: Task| is_pending_on(t, day))
    }

    /// The pending tasks, in the order of the rows.
    pub open spec fn listed_pending(self) -> Seq<Task> {
        self.tasks.filter(|t: Task| is_pending(t))
    }

    /// The tasks that a reminder round at `now` picks up, in the order of
    /// the rows.
    pub open spec fn due_for_reminder(self, now: DateTime) -> Seq<Task> {
        self.tasks.filter(|t: Task| needs_reminder(t, now))
    }

    /// The notes of a task, in the order of the rows.
    pub open spec fn notes_of(self, id: i64) -> Seq<TaskNote> {
        self.notes.filter(|n: TaskNote| is_note_of(n, id))
    }

    /// The tables after inserting a task row with the next id.
    pub open spec fn with_new_task(self, title: String, priority: i8, due_date: Date, now: DateTime) -> TablesView {
        TablesView {
            tasks: self.tasks.push(new_task_row(self.next_task_id as i64, title, priority, due_date, now)),
            next_task_id: self.next_task_id + 1,
            ..self
        }
    }

    /// The tables after setting the status of the task with the given id.
    pub open spec fn with_status(self, id: i64, status: TaskStatus) -> TablesView {
        TablesView {
            tasks: self.tasks.map_values(|t: Task| if t.id == id { with_status_row(t, status) } else { t }),
            ..self
        }
    }

    /// The tables after moving the task with the given id to another day.
    pub open spec fn with_due_date(self, id: i64, day: Date) -> TablesView {
        TablesView {
            tasks: self.tasks.map_values(|t: Task| if t.id == id { rescheduled_row(t, day) } else { t }),
            ..self
        }
    }

    /// The tables after recording that the task with the given id was
    /// reminded of at `now`.
    pub open spec fn with_notified(self, id: i64, now: DateTime) -> TablesView {
        TablesView {
            tasks: self.tasks.map_values(|t: Task| if t.id == id { notified_row(t, now) } else { t }),
            ..self
        }
    }

    /// The tables after inserting a note with the next id.
    pub open spec fn with_new_note(self, task_id: i64, content: String, now: DateTime) -> TablesView {
        TablesView {
            notes: self.notes.push(new_note_row(self.next_note_id as i64, task_id, content, now)),
            next_note_id: self.next_note_id + 1,
            ..self
        }
    }

    /// The tables after an operation, as the operation's method leaves
    /// them: an insertion takes place only while ids are left to give, and
    /// an operation on a task that does not exist changes nothing.
    pub open spec fn apply(self, op: TableOp) -> TablesView {
        match op {
            TableOp::CreateTask { title, priority, due_date, now } => if self.next_task_id < i64::MAX {
                self.with_new_task(title, priority, due_date, now)
            } else {
                self
            },
            TableOp::MarkDone { task_id } => if has_task(self.tasks, task_id) {
                self.with_status(task_id, TaskStatus::Done)
            } else {
                self
            },
            TableOp::Reschedule { task_id, new_date } => if has_task(self.tasks, task_id) {
                self.with_due_date(task_id, new_date)
            } else {
                self
            },
            TableOp::AddNote { task_id, content, now } => if has_task(self.tasks, task_id)
                && self.next_note_id < i64::MAX {
                self.with_new_note(task_id, content, now)
            } else {
                self
            },
            TableOp::DeleteTask { task_id } => self.without_task(task_id),
            TableOp::MarkNotified { task_id, now } => if has_task(self.tasks, task_id) {
                self.with_notified(task_id, now)
            } else {
                self
            },
        }
    }

    /// The tables after a sequence of operations, in order.
    pub open spec fn apply_all(self, ops: Seq<TableOp>) -> TablesView
        decreases ops.len(),
    {
        if ops.len() == 0 {
            self
        } else {
            self.apply(ops[0]).apply_all(ops.drop_first())
        }
    }

    /// The tables after deleting the task with the given id, together with
    /// its notes.
    pub open spec fn without_task(self, id: i64) -> TablesView {
        TablesView {
            tasks: self.tasks.filter(|t: Task| t.id != id),
            notes: self.notes.filter(|n: TaskNote| n.task_id != id),
            ..self
        }
    }
}

/// With unique ids, the row found for an id is the row that has it.
pub proof fn lemma_find_at(s: Seq<Task>, id: i64, k: int)
    requires
        task_ids_unique(s),
        0 <= k < s.len(),
        s[k].id == id,
    ensures
        spec_find_task(s, id) == Some(s[k]),
    decreases s.len(),
{
    if k > 0 {
        assert(s[0].id != s[k].id);
        assert(s.drop_first()[k - 1] == s[k]);
        lemma_find_at(s.drop_first(), id, k - 1);
    }
}

/// No row is found for an id that no row has.
pub proof fn lemma_find_absent(s: Seq<Task>, id: i64)
    requires
        forall|k: int| 0 <= k < s.len() ==> #[trigger] s[k].id != id,
    ensures
        spec_find_task(s, id) is None,
    decreases s.len(),
{
    if s.len() > 0 {
        assert(s[0].id != id);
        assert forall|k: int| 0 <= k < s.drop_first().len() implies #[trigger] s.drop_first()[k].id != id by {
            assert(s.drop_first()[k] == s[k + 1]);
        }
        lemma_find_absent(s.drop_first(), id);
    }
}

/// A row is found for an id exactly when some row has it.
pub proof fn lemma_find_some_iff(s: Seq<Task>, id: i64)
    requires
        task_ids_unique(s),
    ensures
        spec_find_task(s, id) is Some <==> has_task(s, id),
        spec_find_task(s, id) matches Some(t) ==> t.id == id,
{
    if has_task(s, id) {
        let k = choose|k: int| 0 <= k < s.len() && #[trigger] s[k].id == id;
        lemma_find_at(s, id, k);
    } else {
        lemma_find_absent(s, id);
    }
}

/// An in-memory model of the task manager's database: the task table and
/// the note table, with the effect of each statement that the repository
/// sends (insert, update, delete with the notes' cascade) and each query it
/// runs. The programs keep their tables in MySQL; this model is where the
/// laws that relate the operations are stated and proved.
pub struct TaskTables {
    tasks: Vec<Task>,
    notes: Vec<TaskNote>,
    next_task_id: i64,
    next_note_id: i64,
}

impl View for TaskTables {
    type V = TablesView;

    closed spec fn view(&self) -> TablesView {
        TablesView {
            tasks: self.tasks@,
            notes: self.notes@,
            next_task_id: self.next_task_id as int,
            next_note_id: self.next_note_id as int,
        }
    }
}

impl TaskTables {
    /// Empty tables; the first task and the first note get id 1.
    pub fn new() -> (r: TaskTables)
        ensures
            r@.wf(),
            r@.tasks.len() == 0,
            r@.notes.len() == 0,
            r@.next_task_id == 1,
            r@.next_note_id == 1,
    {
        TaskTables { tasks: Vec::new(), notes: Vec::new(), next_task_id: 1, next_note_id: 1 }
    }

    /// The position of the row with the given id.
    fn index_of(&self, id: i64) -> (r: Option<usize>)
        ensures
            match r {
                Some(k) => k < self@.tasks.len() && self@.tasks[k as int].id == id,
                None => !has_task(self@.tasks, id),
            },
    {
        let mut i: usize = 0;
        while i < self.tasks.len()
            invariant
                i <= self.tasks@.len(),
                forall|k: int| 0 <= k < i ==> #[trigger] self.tasks@[k].id != id,
            decreases self.tasks@.len() - i,
        {
            if self.tasks[i].id == id {
                return Some(i);
            }
            i = i + 1;
        }
        None
    }

    /// Inserts a pending task with the given title, priority and due day,
    /// created at `now`, and returns its id: the next id to give.
    pub fn create_task(&mut self, title: &str, priority: i8, due_date: Date, now: DateTime) -> (r: i64)
        requires
            old(self)@.wf(),
            old(self)@.next_task_id < i64::MAX,
        ensures
            final(self)@.wf(),
            final(self)@ == old(self)@.apply(TableOp::CreateTask { title: final(self)@.tasks.last().title, priority, due_date, now }),
            r == old(self)@.next_task_id,
            final(self)@.tasks.last().title@ == title@,
            final(self)@ == old(self)@.with_new_task(final(self)@.tasks.last().title, priority, due_date, now),
    {
        let id = self.next_task_id;
        let row = Task {
            id,
            title: String::from_str(title),
            status: TaskStatus::Pending,
            priority,
            created_at: Some(now),
            updated_at: None,
            due_date,
            due_time: None,
            notified_at: None,
        };
        self.tasks.push(row);
        self.next_task_id = id + 1;
        proof {
            let v = self@;
            assert forall|i: int| 0 <= i < v.notes.len() implies has_task(v.tasks, #[trigger] v.notes[i].task_id) by {
                let k = choose|k: int| 0 <= k < old(self)@.tasks.len() && #[trigger] old(self)@.tasks[k].id == v.notes[i].task_id;
                assert(v.tasks[k] == old(self)@.tasks[k]);
            }
        }
        id
    }

    /// The task with the given id.
    pub fn find_task_by_id(&self, task_id: i64) -> (r: Option<Task>)
        ensures
            r == self@.find(task_id),
    {
        find_task(&self.tasks, task_id)
    }

    /// The pending tasks due on `day`, in the order of the rows.
    pub fn list_by_day(&self, day: Date) -> (r: Vec<Task>)
        ensures
            r@ == self@.listed_on(day),
    {
        select_pending_on(&self.tasks, day)
    }

    /// The pending tasks, in the order of the rows.
    pub fn list_all_pending(&self) -> (r: Vec<Task>)
        ensures
            r@ == self@.listed_pending(),
    {
        select_pending(&self.tasks)
    }

    /// The tasks that a reminder round at `now` picks up: pending, not
    /// reminded of yet, and due at or before `now`.
    pub fn find_unnotified_due(&self, now: DateTime) -> (r: Vec<Task>)
        ensures
            r@ == self@.due_for_reminder(now),
    {
        select_needing_reminder(&self.tasks, now)
    }

    /// Replaces the row at position `k` by a row with the same id.
    fn replace_row(&mut self, k: usize, row: Task)
        requires
            old(self)@.wf(),
            k < old(self)@.tasks.len(),
            row.id == old(self)@.tasks[k as int].id,
        ensures
            final(self)@.wf(),
            final(self)@ == (TablesView { tasks: old(self)@.tasks.update(k as int, row), ..old(self)@ }),
    {
        self.tasks.set(k, row);
        proof {
            let v = self@;
            let o = old(self)@;
            assert forall|i: int| 0 <= i < v.tasks.len() implies #[trigger] v.tasks[i].id == o.tasks[i].id by {}
            assert forall|i: int, j: int| 0 <= i < j < v.tasks.len() implies #[trigger] v.tasks[i].id != #[trigger] v.tasks[j].id by {
                assert(v.tasks[i].id == o.tasks[i].id);
                assert(v.tasks[j].id == o.tasks[j].id);
            }
            assert forall|i: int| 0 <= i < v.notes.len() implies has_task(v.tasks, #[trigger] v.notes[i].task_id) by {
                let kk = choose|kk: int| 0 <= kk < o.tasks.len() && #[trigger] o.tasks[kk].id == v.notes[i].task_id;
                assert(v.tasks[kk].id == o.tasks[kk].id);
            }
            assert forall|i: int| 0 <= i < v.tasks.len() implies 1 <= #[trigger] v.tasks[i].id < v.next_task_id by {
                assert(v.tasks[i].id == o.tasks[i].id);
            }
        }
    }

    /// Marks the task with the given id as done and returns its row; fails
    /// with `TaskNotFound` and changes nothing when no task has that id.
    pub fn mark_done(&mut self, task_id: i64) -> (r: Result<Task, RepositoryError>)
        requires
            old(self)@.wf(),
        ensures
            final(self)@.wf(),
            final(self)@ == old(self)@.apply(TableOp::MarkDone { task_id }),
            r is Ok <==> has_task(old(self)@.tasks, task_id),
            r matches Ok(t) ==> t.id == task_id && t.status == TaskStatus::Done,
            match old(self)@.find(task_id) {
                Some(t) => {
                    &&& r == Ok::<Task, RepositoryError>(with_status_row(t, TaskStatus::Done))
                    &&& final(self)@ == old(self)@.with_status(task_id, TaskStatus::Done)
                },
                None => {
                    &&& r == Err::<Task, RepositoryError>(RepositoryError::TaskNotFound(task_id))
                    &&& final(self)@ == old(self)@
                },
            },
    {
        let ghost g = |t: Task| if t.id == task_id { with_status_row(t, TaskStatus::Done) } else { t };
        match self.index_of(task_id) {
            Some(k) => {
                let old_row = copy_task(&self.tasks[k]);
                let row = Task { status: TaskStatus::Done, ..old_row };
                let out = copy_task(&row);
                proof {
                    lemma_find_at(self@.tasks, task_id, k as int);
                    lemma_update_is_map(self@.tasks, k as int, task_id, g);
                }
                self.replace_row(k, row);
                Ok(out)
            },
            None => {
                proof {
                    lemma_find_absent(self@.tasks, task_id);
                    lemma_map_untouched(self@.tasks, task_id, g);
                }
                Err(RepositoryError::TaskNotFound(task_id))
            },
        }
    }

    /// Moves the task with the given id to another day and clears its
    /// reminder, then returns its row; returns `None` and changes nothing when
    /// no task has that id.
    pub fn reschedule(&mut self, task_id: i64, new_date: Date) -> (r: Option<Task>)
        requires
            old(self)@.wf(),
        ensures
            final(self)@.wf(),
            final(self)@ == old(self)@.apply(TableOp::Reschedule { task_id, new_date }),
            r is Some <==> has_task(old(self)@.tasks, task_id),
            r matches Some(t) ==> t.id == task_id && t.due_date == new_date && t.notified_at is None,
            final(self)@ == old(self)@.with_due_date(task_id, new_date),
            r == match old(self)@.find(task_id) {
                Some(t) => Some(rescheduled_row(t, new_date)),
                None => None,
            },
    {
        let ghost g = |t: Task| if t.id == task_id { rescheduled_row(t, new_date) } else { t };
        match self.index_of(task_id) {
            Some(k) => {
                let old_row = copy_task(&self.tasks[k]);
                let row = Task { due_date: new_date, notified_at: None, ..old_row };
                let out = copy_task(&row);
                proof {
                    lemma_find_at(self@.tasks, task_id, k as int);
                    lemma_update_is_map(self@.tasks, k as int, task_id, g);
                }
                self.replace_row(k, row);
                Some(out)
            },
            None => {
                proof {
                    lemma_find_absent(self@.tasks, task_id);
                    lemma_map_untouched(self@.tasks, task_id, g);
                }
                None
            },
        }
    }

    /// Records that the task with the given id was reminded of at `now`;
    /// changes nothing when no task has that id.
    pub fn mark_notified(&mut self, task_id: i64, now: DateTime)
        requires
            old(self)@.wf(),
        ensures
            final(self)@.wf(),
            final(self)@ == old(self)@.apply(TableOp::MarkNotified { task_id, now }),
            final(self)@ == old(self)@.with_notified(task_id, now),
    {
        let ghost g = |t: Task| if t.id == task_id { notified_row(t, now) } else { t };
        match self.index_of(task_id) {
            Some(k) => {
                let old_row = copy_task(&self.tasks[k]);
                let row = Task { notified_at: Some(now), ..old_row };
                proof {
                    lemma_update_is_map(self@.tasks, k as int, task_id, g);
                }
                self.replace_row(k, row);
            },
            None => {
                proof {
                    lemma_map_untouched(self@.tasks, task_id, g);
                }
            },
        }
    }

    /// Attaches a note created at `now` to the task with the given id and
    /// returns the note's id: the next id to give. The note table's foreign
    /// key refuses a note whose task does not exist: the insertion then fails
    /// with `ForeignKeyViolation` and changes nothing.
    pub fn add_note(&mut self, task_id: i64, content: &str, now: DateTime) -> (r: Result<i64, TableError>)
        requires
            old(self)@.wf(),
            old(self)@.next_note_id < i64::MAX,
        ensures
            final(self)@.wf(),
            final(self)@ == old(self)@.apply(TableOp::AddNote { task_id, content: final(self)@.notes.last().content, now }),
            has_task(old(self)@.tasks, task_id) ==> {
                &&& r == Ok::<i64, TableError>(old(self)@.next_note_id as i64)
                &&& final(self)@.notes.last().content@ == content@
                &&& final(self)@ == old(self)@.with_new_note(task_id, final(self)@.notes.last().content, now)
            },
            !has_task(old(self)@.tasks, task_id) ==> {
                &&& r == Err::<i64, TableError>(TableError::ForeignKeyViolation(task_id))
                &&& final(self)@ == old(self)@
            },
    {
        match self.index_of(task_id) {
            Some(k) => {
                let id = self.next_note_id;
                let note = TaskNote { id, task_id, content: String::from_str(content), created_at: Some(now) };
                self.notes.push(note);
                self.next_note_id = id + 1;
                proof {
                    let v = self@;
                    let o = old(self)@;
                    assert forall|i: int| 0 <= i < v.notes.len() implies has_task(v.tasks, #[trigger] v.notes[i].task_id) by {
                        if i < o.notes.len() {
                            assert(v.notes[i] == o.notes[i]);
                        } else {
                            assert(v.tasks[k as int].id == task_id);
                        }
                    }
                    assert forall|i: int, j: int| 0 <= i < j < v.notes.len() implies #[trigger] v.notes[i].id != #[trigger] v.notes[j].id by {
                        if j == o.notes.len() {
                            assert(v.notes[i] == o.notes[i]);
                        } else {
                            assert(v.notes[i] == o.notes[i]);
                            assert(v.notes[j] == o.notes[j]);
                        }
                    }
                }
                Ok(id)
            },
            None => Err(TableError::ForeignKeyViolation(task_id)),
        }
    }

    /// The task with the given id and its notes, ordered by creation time
    /// (a note without one comes first); `None` when no task has that id.
    pub fn get_task_with_notes(&self, task_id: i64) -> (r: Option<(Task, Vec<TaskNote>)>)
        ensures
            match self@.find(task_id) {
                None => r is None,
                Some(t) => r matches Some((t2, ns)) && t2 == t && ns@.to_multiset()
                    == self@.notes_of(task_id).to_multiset() && notes_in_order(ns@),
            },
    {
        match self.find_task_by_id(task_id) {
            None => None,
            Some(t) => {
                let ns = notes_of_task(&self.notes, task_id);
                Some((t, ns))
            },
        }
    }

    /// Deletes the task with the given id together with its notes; changes
    /// nothing when no task has that id.
    pub fn delete_task(&mut self, task_id: i64)
        requires
            old(self)@.wf(),
        ensures
            final(self)@.wf(),
            final(self)@ == old(self)@.apply(TableOp::DeleteTask { task_id }),
            final(self)@ == old(self)@.without_task(task_id),
    {
        let ghost pt = |t: Task| t.id != task_id;
        let ghost pn = |n: TaskNote| n.task_id != task_id;
        let mut kept: Vec<Task> = Vec::new();
        let mut i: usize = 0;
        while i < self.tasks.len()
            invariant
                i <= self.tasks@.len(),
                pt == (|t: Task| t.id != task_id),
                kept@ == self.tasks@.take(i as int).filter(pt),
            decreases self.tasks@.len() - i,
        {
            proof {
                lemma_filter_push(self.tasks@.take(i as int), self.tasks@[i as int], pt);
                assert(self.tasks@.take(i + 1) =~= self.tasks@.take(i as int).push(self.tasks@[i as int]));
            }
            if self.tasks[i].id != task_id {
                kept.push(copy_task(&self.tasks[i]));
            }
            i = i + 1;
        }
        assert(self.tasks@.take(self.tasks@.len() as int) =~= self.tasks@);
        let mut kept_notes: Vec<TaskNote> = Vec::new();
        let mut j: usize = 0;
        while j < self.notes.len()
            invariant
                j <= self.notes@.len(),
                pn == (|n: TaskNote| n.task_id != task_id),
                kept_notes@ == self.notes@.take(j as int).filter(pn),
            decreases self.notes@.len() - j,
        {
            proof {
                lemma_filter_push(self.notes@.take(j as int), self.notes@[j as int], pn);
                assert(self.notes@.take(j + 1) =~= self.notes@.take(j as int).push(self.notes@[j as int]));
            }
            if self.notes[j].task_id != task_id {
                kept_notes.push(copy_note(&self.notes[j]));
            }
            j = j + 1;
        }
        assert(self.notes@.take(self.notes@.len() as int) =~= self.notes@);
        self.tasks = kept;
        self.notes = kept_notes;
        proof {
            lemma_without_task_wf(old(self)@, task_id);
        }
    }
}

/// With unique ids, changing the row that has an id is mapping every row
/// through a function that changes only rows with that id.
pub proof fn lemma_update_is_map(s: Seq<Task>, k: int, id: i64, g: spec_fn(Task) -> Task)
    requires
        task_ids_unique(s),
        0 <= k < s.len(),
        s[k].id == id,
        forall|t: Task| t.id != id ==> #[trigger] g(t) == t,
    ensures
        s.update(k, g(s[k])) =~= s.map_values(g),
{
    assert forall|i: int| 0 <= i < s.len() && i != k implies #[trigger] g(s[i]) == s[i] by {
        if i < k {
            assert(s[i].id != s[k].id);
        } else {
            assert(s[k].id != s[i].id);
        }
    }
}

/// Mapping rows through a function that changes only rows with an id that
/// no row has leaves them as they are.
pub proof fn lemma_map_untouched(s: Seq<Task>, id: i64, g: spec_fn(Task) -> Task)
    requires
        !has_task(s, id),
        forall|t: Task| t.id != id ==> #[trigger] g(t) == t,
    ensures
        s.map_values(g) =~= s,
{
    assert forall|i: int| 0 <= i < s.len() implies #[trigger] g(s[i]) == s[i] by {
        assert(s[i].id != id);
    }
}

/// Deleting a task with its notes keeps the tables well formed.
pub proof fn lemma_without_task_wf(v: TablesView, id: i64)
    requires
        v.wf(),
    ensures
        v.without_task(id).wf(),
{
    let w = v.without_task(id);
    let pt = |t: Task| t.id != id;
    let pn = |n: TaskNote| n.task_id != id;
    assert forall|i: int| 0 <= i < w.tasks.len() implies 1 <= #[trigger] w.tasks[i].id < w.next_task_id by {
        let a = lemma_filter_index(v.tasks, pt, i);
    }
    assert forall|i: int, j: int| 0 <= i < j < w.tasks.len() implies #[trigger] w.tasks[i].id != #[trigger] w.tasks[j].id by {
        let ab = lemma_filter_order(v.tasks, pt, i, j);
    }
    assert forall|i: int| 0 <= i < w.notes.len() implies 1 <= #[trigger] w.notes[i].id < w.next_note_id by {
        let a = lemma_filter_index(v.notes, pn, i);
    }
    assert forall|i: int, j: int| 0 <= i < j < w.notes.len() implies #[trigger] w.notes[i].id != #[trigger] w.notes[j].id by {
        let ab = lemma_filter_order(v.notes, pn, i, j);
    }
    assert forall|i: int| 0 <= i < w.notes.len() implies has_task(w.tasks, #[trigger] w.notes[i].task_id) by {
        let a = lemma_filter_index(v.notes, pn, i);
        let k = choose|k: int| 0 <= k < v.tasks.len() && #[trigger] v.tasks[k].id == v.notes[a].task_id;
        assert(pt(v.tasks[k]));
        lemma_filter_keeps(v.tasks, pt, k);
        let m = choose|m: int| 0 <= m < w.tasks.len() && w.tasks[m] == v.tasks[k];
        assert(w.tasks[m].id == w.notes[i].task_id);
    }
}

/// Each element that a filter keeps is an element of the sequence, at some
/// position, and passes the filter.
pub proof fn lemma_filter_index<A>(s: Seq<A>, p: spec_fn(A) -> bool, i: int) -> (a: int)
    requires
        0 <= i < s.filter(p).len(),
    ensures
        0 <= a < s.len(),
        s[a] == s.filter(p)[i],
        p(s[a]),
    decreases s.len(),
{
    reveal_with_fuel(Seq::filter, 1);
    let t = s.drop_last();
    if p(s.last()) && i == t.filter(p).len() {
        (s.len() - 1) as int
    } else {
        let a = lemma_filter_index(t, p, i);
        a
    }
}

/// A filter keeps the order of the elements it keeps.
pub proof fn lemma_filter_order<A>(s: Seq<A>, p: spec_fn(A) -> bool, i: int, j: int) -> (ab: (int, int))
    requires
        0 <= i < j < s.filter(p).len(),
    ensures
        0 <= ab.0 < ab.1 < s.len(),
        s[ab.0] == s.filter(p)[i],
        s[ab.1] == s.filter(p)[j],
    decreases s.len(),
{
    reveal_with_fuel(Seq::filter, 1);
    let t = s.drop_last();
    if p(s.last()) && j == t.filter(p).len() {
        let a = lemma_filter_index(t, p, i);
        (a, (s.len() - 1) as int)
    } else {
        let ab = lemma_filter_order(t, p, i, j);
        ab
    }
}

/// An element that passes a filter is kept by it.
pub proof fn lemma_filter_keeps<A>(s: Seq<A>, p: spec_fn(A) -> bool, a: int)
    requires
        0 <= a < s.len(),
        p(s[a]),
    ensures
        s.filter(p).contains(s[a]),
{
    s.lemma_filter_contains(p, a);
}

} // verus!
