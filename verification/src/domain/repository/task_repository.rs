//! The repository contract: the operations on stored tasks, stated over a
//! model of what storage holds.

use crate::domain::entity::task::{precedes, Task, TaskId, TaskView};
use crate::domain::error::DomainError;
use vstd::prelude::*;

verus! {

/// What storage holds of one task besides its identifier.
pub ghost struct Stored {
    pub body: Seq<char>,
    pub status: Seq<char>,
}

/// What `task` leaves in storage under its identifier.
pub open spec fn stored(task: TaskView) -> Stored {
    Stored { body: task.body, status: task.status }
}

/// The task that `table` holds under `id`, if it holds one.
pub open spec fn task_at(table: Map<Seq<char>, Stored>, id: Seq<char>) -> Option<TaskView> {
    if table.dom().contains(id) {
        Some(TaskView { id, body: table[id].body, status: table[id].status })
    } else {
        None
    }
}

/// `table` with `task` as a new or replaced row.
pub open spec fn with_task(table: Map<Seq<char>, Stored>, task: TaskView) -> Map<
    Seq<char>,
    Stored,
> {
    table.insert(task.id, stored(task))
}

/// `table` after an update with `task`: the row with its identifier is
/// overwritten; where there is none, nothing changes.
pub open spec fn with_update(table: Map<Seq<char>, Stored>, task: TaskView) -> Map<
    Seq<char>,
    Stored,
> {
    if table.dom().contains(task.id) {
        with_task(table, task)
    } else {
        table
    }
}

/// The plain view of an optional task.
pub open spec fn view_of(found: Option<Task>) -> Option<TaskView> {
    match found {
        Some(task) => Some(task@),
        None => None,
    }
}

/// The plain views of a list of tasks, in order.
pub open spec fn views_of(tasks: Seq<Task>) -> Seq<TaskView> {
    tasks.map_values(|task: Task| task@)
}

/// Whether the identifiers of `tasks` strictly ascend.
pub open spec fn ascending(tasks: Seq<TaskView>) -> bool {
    forall|i: int, j: int|
        0 <= i < j < tasks.len() ==> precedes(#[trigger] tasks[i].id, #[trigger] tasks[j].id)
}

/// Whether `tasks` lists `table`: every row once, as stored, in ascending
/// order of the identifier.
pub open spec fn lists(table: Map<Seq<char>, Stored>, tasks: Seq<TaskView>) -> bool {
    &&& ascending(tasks)
    &&& forall|i: int|
        0 <= i < tasks.len() ==> task_at(table, (#[trigger] tasks[i]).id) == Some(tasks[i])
    &&& forall|id: Seq<char>| #[trigger]
        table.dom().contains(id) ==> exists|i: int| 0 <= i < tasks.len() && #[trigger] tasks[i].id == id
}

/// What a lookup of `id` in `table` may answer: the row as it is stored. A
/// validation failure is possible only where the stored row is invalid, and
/// absence is never a failure.
pub open spec fn find_by_id_post(
    table: Map<Seq<char>, Stored>,
    id: Seq<char>,
    r: Result<Option<Task>, DomainError>,
) -> bool {
    match r {
        Ok(found) => view_of(found) == task_at(table, id),
        Err(DomainError::Validation(_)) => task_at(table, id) matches Some(row) && !row.valid(),
        Err(DomainError::NotFound(_)) => false,
        Err(DomainError::Other(_)) => true,
    }
}

/// What a listing of `table` may answer: every row, in ascending order of
/// the identifier. A validation failure is possible only where some stored
/// row is invalid.
pub open spec fn find_all_post(
    table: Map<Seq<char>, Stored>,
    r: Result<Vec<Task>, DomainError>,
) -> bool {
    match r {
        Ok(tasks) => lists(table, views_of(tasks@)),
        Err(DomainError::Validation(_)) => exists|id: Seq<char>|
            #[trigger] task_at(table, id) matches Some(row) && !row.valid(),
        Err(DomainError::NotFound(_)) => false,
        Err(DomainError::Other(_)) => true,
    }
}

/// What creating `task` may do: add it as a new row, which takes an unused
/// identifier, or fail as infrastructure and change nothing.
pub open spec fn create_post(
    before: Map<Seq<char>, Stored>,
    task: TaskView,
    r: Result<(), DomainError>,
    after: Map<Seq<char>, Stored>,
) -> bool {
    match r {
        Ok(()) => !before.dom().contains(task.id) && after == with_task(before, task),
        Err(error) => error is Other && after == before,
    }
}

/// What updating with `task` may do: overwrite the row with its identifier
/// if there is one, or fail as infrastructure and change nothing.
pub open spec fn update_post(
    before: Map<Seq<char>, Stored>,
    task: TaskView,
    r: Result<(), DomainError>,
    after: Map<Seq<char>, Stored>,
) -> bool {
    match r {
        Ok(()) => after == with_update(before, task),
        Err(error) => error is Other && after == before,
    }
}

/// What deleting `id` may do: remove the row and tell whether there was
/// one, or fail as infrastructure and change nothing.
pub open spec fn delete_post(
    before: Map<Seq<char>, Stored>,
    id: Seq<char>,
    r: Result<bool, DomainError>,
    after: Map<Seq<char>, Stored>,
) -> bool {
    match r {
        Ok(removed) => removed == before.dom().contains(id) && after == before.remove(id),
        Err(error) => error is Other && after == before,
    }
}

/// Storage for tasks, whatever the technology. An implementation says what
/// it holds through `table`; every operation is held to that model.
pub trait TaskRepository: Send + Sync + 'static {
    /// The rows held, by identifier.
    spec fn table(&self) -> Map<Seq<char>, Stored>;

    /// The task stored under `id`, or nothing if there is none.
    fn find_by_id(&self, id: &TaskId) -> (r: Result<Option<Task>, DomainError>)
        ensures
            find_by_id_post(self.table(), id@, r),
    ;

    /// Every stored task, in ascending order of the identifier.
    fn find_all(&self) -> (r: Result<Vec<Task>, DomainError>)
        ensures
            find_all_post(self.table(), r),
    ;

    /// Stores `task` as a new row. An identifier that is taken is an
    /// infrastructure failure.
    fn create(&mut self, task: &Task) -> (r: Result<(), DomainError>)
        ensures
            create_post(old(self).table(), task@, r, final(self).table()),
    ;

    /// Overwrites body and status of the row that has the identifier of
    /// `task`. Where there is no such row, nothing changes and the call
    /// succeeds all the same.
    fn update(&mut self, task: &Task) -> (r: Result<(), DomainError>)
        ensures
            update_post(old(self).table(), task@, r, final(self).table()),
    ;

    /// Removes the row under `id`, and tells whether there was one.
    fn delete(&mut self, id: &TaskId) -> (r: Result<bool, DomainError>)
        ensures
            delete_post(old(self).table(), id@, r, final(self).table()),
    ;
}

} // verus!
