use vstd::prelude::*;
use crate::error::RepositoryError;
use crate::models::{Task, TaskNote};
use crate::queries::{is_note_of, notes_in_order, notes_of_task};

verus! {

/// The id of an inserted row, read from the database's last insert id: the
/// unsigned count taken as a signed 64-bit id (a count beyond the signed
/// range wraps around, as an `as` conversion does).
pub fn task_id_from_insert(last_insert_id: u64) -> (r: i64)
    ensures
        r as int == (if last_insert_id <= i64::MAX as u64 {
            last_insert_id as int
        } else {
            last_insert_id as int - 0x1_0000_0000_0000_0000
        }),
{
    if last_insert_id <= i64::MAX as u64 {
        last_insert_id as i64
    } else {
        let below: u64 = last_insert_id - 0x8000_0000_0000_0000;
        let r: i64 = (below as i64) - 0x7fff_ffff_ffff_ffff - 1;
        r
    }
}

/// The decision after the status update of `mark_done`: when it touched no
/// row, no task has the id and the operation fails with `TaskNotFound`.
pub fn check_done_update(task_id: i64, rows_affected: u64) -> (r: Result<(), RepositoryError>)
    ensures
        r == (if rows_affected == 0 {
            Err::<(), RepositoryError>(RepositoryError::TaskNotFound(task_id))
        } else {
            Ok::<(), RepositoryError>(())
        }),
{
    if rows_affected == 0 {
        Err(RepositoryError::TaskNotFound(task_id))
    } else {
        Ok(())
    }
}

/// The result of `mark_done` from the row read back after the update: the
/// row, or `TaskNotFound` when it is gone.
pub fn done_task_or_missing(task_id: i64, found: Option<Task>) -> (r: Result<Task, RepositoryError>)
    ensures
        r == (match found {
            Some(t) => Ok::<Task, RepositoryError>(t),
            None => Err::<Task, RepositoryError>(RepositoryError::TaskNotFound(task_id)),
        }),
{
    match found {
        Some(t) => Ok(t),
        None => Err(RepositoryError::TaskNotFound(task_id)),
    }
}

/// The decision after looking a task up for `get_task_with_notes`: the id
/// whose notes to read next, or nothing when the task does not exist.
pub fn notes_to_fetch(found: &Option<Task>) -> (r: Option<i64>)
    ensures
        r == (match *found {
            Some(t) => Some(t.id),
            None => None::<i64>,
        }),
{
    match found {
        Some(t) => Some(t.id),
        None => None,
    }
}

/// The result of `get_task_with_notes`: the task, if found, with those of
/// the given note rows that belong to it, in the order of their creation
/// times.
pub fn task_with_notes(found: Option<Task>, note_rows: &Vec<TaskNote>) -> (r: Option<(Task, Vec<TaskNote>)>)
    ensures
        match found {
            None => r is None,
            Some(t) => r matches Some((t2, ns)) && t2 == t && ns@.to_multiset() == note_rows@.filter(
                |n: TaskNote| is_note_of(n, t.id),
            ).to_multiset() && notes_in_order(ns@),
        },
{
    match found {
        None => None,
        Some(t) => {
            let ns = notes_of_task(note_rows, t.id);
            Some((t, ns))
        },
    }
}

} // verus!
