//! The relational repository, apart from the driver calls: the statements it
//! sends, and what it makes of the answers.

use crate::domain::entity::task::{Task, TaskBody, TaskId, TaskStatus, TaskView};
use crate::domain::error::DomainError;
use crate::infrastructure::repository::error::storage_failure;
use vstd::prelude::*;

verus! {

/// Inserts one task; the parameters are identifier, body and status.
pub const INSERT_TASK: &'static str = "INSERT INTO task (id, body, status) VALUES ($1, $2, $3)";

/// Reads every task in ascending order of the identifier.
pub const SELECT_ALL_TASKS: &'static str = "SELECT * FROM task ORDER BY 1";

/// Reads the task with a given identifier; the parameter is the identifier.
pub const SELECT_TASK: &'static str = "SELECT * FROM task WHERE id = $1";

/// Overwrites body and status of one task; the parameters are body, status
/// and identifier.
pub const UPDATE_TASK: &'static str = "UPDATE task SET body = $1, status = $2 WHERE id = $3";

/// Removes the task with a given identifier; the parameter is the identifier.
pub const DELETE_TASK: &'static str = "DELETE FROM task WHERE id = $1";

/// What a statement says, as plain text.
pub ghost struct StatementView {
    pub sql: Seq<char>,
    pub params: Seq<Seq<char>>,
}

/// A parameterized statement: its text, and the values bound to `$1`, `$2`,
/// ... in that order.
#[derive(Debug, PartialEq, Eq)]
pub struct Statement<'a> {
    pub sql: &'static str,
    pub params: Vec<&'a str>,
}

impl<'a> View for Statement<'a> {
    type V = StatementView;

    open spec fn view(&self) -> StatementView {
        StatementView { sql: self.sql@, params: self.params@.map_values(|p: &str| p@) }
    }
}

/// One row of the task table as storage returns it: unchecked text.
#[derive(Debug, PartialEq, Eq)]
pub struct TaskRow {
    pub id: String,
    pub body: String,
    pub status: String,
}

impl View for TaskRow {
    type V = TaskView;

    open spec fn view(&self) -> TaskView {
        TaskView { id: self.id@, body: self.body@, status: self.status@ }
    }
}

/// Whether `r` is what reading `row` must give: the task with the same
/// fields where all of them are valid, a validation failure otherwise.
pub open spec fn reads_as(row: TaskView, r: Result<Task, DomainError>) -> bool {
    if row.valid() {
        r matches Ok(task) && task@ == row
    } else {
        r matches Err(DomainError::Validation(_))
    }
}

/// Whether an item of a streamed answer yields a task: the driver delivered
/// the row, and every field of it is valid.
pub open spec fn readable(fetched: Result<TaskRow, sqlx::Error>) -> bool {
    fetched matches Ok(row) && row@.valid()
}

/// Whether `r` is what an item of a streamed answer must give: what reading
/// the row gives where the driver delivered one, and where it failed the
/// infrastructure failure that keeps the driver's failure as its cause.
pub open spec fn fetched_as(
    fetched: Result<TaskRow, sqlx::Error>,
    r: Result<Task, DomainError>,
) -> bool {
    match fetched {
        Ok(row) => reads_as(row@, r),
        Err(error) => r matches Err(failure) && storage_failure(failure, error),
    }
}

/// Whether `r` is what a whole streamed answer must give: every task in the
/// order of the rows where each item is readable, and otherwise the failure
/// of the first item that is not, with no task at all: a validation failure
/// for an invalid row, and for a failure of the driver the infrastructure
/// failure that keeps it as its cause.
pub open spec fn listed_as(
    fetched: Seq<Result<TaskRow, sqlx::Error>>,
    r: Result<Vec<Task>, DomainError>,
) -> bool {
    match r {
        Ok(tasks) => {
            &&& tasks@.len() == fetched.len()
            &&& forall|i: int|
                0 <= i < fetched.len() ==> readable(#[trigger] fetched[i]) && tasks@[i]@
                    == fetched[i]->Ok_0@
        },
        Err(error) => exists|k: int|
            {
                &&& 0 <= k < fetched.len()
                &&& forall|j: int| 0 <= j < k ==> readable(#[trigger] fetched[j])
                &&& !readable(#[trigger] fetched[k])
                &&& fetched[k] is Ok ==> error is Validation
                &&& fetched[k] is Err ==> storage_failure(error, fetched[k]->Err_0)
            },
    }
}

/// Whether `r` is what a lookup must make of the driver's answer: nothing
/// for no row, what reading the row gives for a row, and for a failure the
/// infrastructure failure that keeps it as its cause.
pub open spec fn found_as(
    answer: Result<Option<TaskRow>, sqlx::Error>,
    r: Result<Option<Task>, DomainError>,
) -> bool {
    match answer {
        Ok(None) => r matches Ok(None),
        Ok(Some(row)) => if row@.valid() {
            r matches Ok(Some(task)) && task@ == row@
        } else {
            r matches Err(DomainError::Validation(_))
        },
        Err(error) => r matches Err(failure) && storage_failure(failure, error),
    }
}

/// Whether `r` is what a write must make of the driver's answer: success
/// whatever the number of rows touched, and for a failure the
/// infrastructure failure that keeps it as its cause.
pub open spec fn written_as(answer: Result<u64, sqlx::Error>, r: Result<(), DomainError>) -> bool {
    match answer {
        Ok(_) => r is Ok,
        Err(error) => r matches Err(failure) && storage_failure(failure, error),
    }
}

/// Whether `r` is what a removal must make of the driver's answer: whether
/// any row was touched, and for a failure the infrastructure failure that
/// keeps it as its cause.
pub open spec fn removed_as(answer: Result<u64, sqlx::Error>, r: Result<bool, DomainError>) -> bool {
    match answer {
        Ok(rows) => r matches Ok(gone) && gone == (rows > 0),
        Err(error) => r matches Err(failure) && storage_failure(failure, error),
    }
}

/// The relational repository's logic. It holds no state: the connection
/// belongs to the caller.
pub struct InternalTaskRepository {}

impl InternalTaskRepository {
    /// The statement that stores `task` as a new row.
    pub fn create_statement<'a>(task: &'a Task) -> (statement: Statement<'a>)
        ensures
            statement@ == (StatementView {
                sql: INSERT_TASK@,
                params: seq![task.id@, task.body@, task.status@],
            }),
    {
        let mut params: Vec<&'a str> = Vec::new();
        params.push(task.id.as_str());
        params.push(task.body.as_str());
        params.push(task.status.as_str());
        let statement = Statement { sql: INSERT_TASK, params };
        assert(statement@.params =~= seq![task.id@, task.body@, task.status@]);
        statement
    }

    /// The statement that overwrites body and status of the row that has the
    /// identifier of `task`.
    pub fn update_statement<'a>(task: &'a Task) -> (statement: Statement<'a>)
        ensures
            statement@ == (StatementView {
                sql: UPDATE_TASK@,
                params: seq![task.body@, task.status@, task.id@],
            }),
    {
        let mut params: Vec<&'a str> = Vec::new();
        params.push(task.body.as_str());
        params.push(task.status.as_str());
        params.push(task.id.as_str());
        let statement = Statement { sql: UPDATE_TASK, params };
        assert(statement@.params =~= seq![task.body@, task.status@, task.id@]);
        statement
    }

    /// The statement that reads the row with identifier `id`.
    pub fn find_by_id_statement<'a>(id: &'a TaskId) -> (statement: Statement<'a>)
        ensures
            statement@ == (StatementView { sql: SELECT_TASK@, params: seq![id@] }),
    {
        let mut params: Vec<&'a str> = Vec::new();
        params.push(id.as_str());
        let statement = Statement { sql: SELECT_TASK, params };
        assert(statement@.params =~= seq![id@]);
        statement
    }

    /// The statement that reads every row, in ascending order of the
    /// identifier.
    pub fn find_all_statement() -> (statement: Statement<'static>)
        ensures
            statement@ == (StatementView { sql: SELECT_ALL_TASKS@, params: seq![] }),
    {
        let statement = Statement { sql: SELECT_ALL_TASKS, params: Vec::new() };
        assert(statement@.params =~= seq![]);
        statement
    }

    /// The statement that removes the row with identifier `id`.
    pub fn delete_statement<'a>(id: &'a TaskId) -> (statement: Statement<'a>)
        ensures
            statement@ == (StatementView { sql: DELETE_TASK@, params: seq![id@] }),
    {
        let mut params: Vec<&'a str> = Vec::new();
        params.push(id.as_str());
        let statement = Statement { sql: DELETE_TASK, params };
        assert(statement@.params =~= seq![id@]);
        statement
    }

    /// Turns a stored row into a task by validating each field anew. A row
    /// with an invalid field yields no task at all.
    pub fn task_from_row(row: TaskRow) -> (r: Result<Task, DomainError>)
        ensures
            reads_as(row@, r),
    {
        let id = match TaskId::new(row.id) {
            Ok(id) => id,
            Err(error) => { return Err(error); },
        };
        let body = match TaskBody::new(row.body) {
            Ok(body) => body,
            Err(error) => { return Err(error); },
        };
        let status = match TaskStatus::new(row.status) {
            Ok(status) => status,
            Err(error) => { return Err(error); },
        };
        Ok(Task::new(id, body, status))
    }

    /// What one item of a streamed answer becomes.
    pub fn task_from_fetched(fetched: Result<TaskRow, sqlx::Error>) -> (r: Result<
        Task,
        DomainError,
    >)
        ensures
            fetched_as(fetched, r),
    {
        match fetched {
            Ok(row) => Self::task_from_row(row),
            Err(error) => Err(DomainError::from(error)),
        }
    }

    /// Takes the next item of a streamed answer into `tasks`. On a failure
    /// `tasks` is left as it was, and the caller stops reading.
    pub fn collect(tasks: &mut Vec<Task>, fetched: Result<TaskRow, sqlx::Error>) -> (r: Result<
        (),
        DomainError,
    >)
        ensures
            match r {
                Ok(()) => {
                    &&& readable(fetched)
                    &&& final(tasks)@.len() == old(tasks)@.len() + 1
                    &&& final(tasks)@.drop_last() == old(tasks)@
                    &&& final(tasks)@.last()@ == fetched->Ok_0@
                },
                Err(error) => {
                    &&& !readable(fetched)
                    &&& final(tasks)@ == old(tasks)@
                    &&& fetched is Ok ==> error is Validation
                    &&& fetched is Err ==> storage_failure(error, fetched->Err_0)
                },
            },
    {
        match Self::task_from_fetched(fetched) {
            Ok(task) => {
                tasks.push(task);
                Ok(())
            },
            Err(error) => Err(error),
        }
    }

    /// What a listing makes of a whole streamed answer.
    pub fn listed(fetched: Vec<Result<TaskRow, sqlx::Error>>) -> (r: Result<
        Vec<Task>,
        DomainError,
    >)
        ensures
            listed_as(fetched@, r),
    {
        let ghost items = fetched@;
        let mut tasks: Vec<Task> = Vec::new();
        for item in it: fetched
            invariant
                it.seq() == items,
                tasks@.len() == it.index(),
                forall|i: int|
                    0 <= i < it.index() ==> readable(#[trigger] items[i]) && tasks@[i]@
                        == items[i]->Ok_0@,
        {
            match Self::collect(&mut tasks, item) {
                Ok(()) => {},
                Err(error) => {
                    return Err(error);
                },
            }
        }
        Ok(tasks)
    }

    /// What a write makes of the driver's answer: success whatever the number
    /// of rows touched, an infrastructure failure otherwise.
    pub fn written(answer: Result<u64, sqlx::Error>) -> (r: Result<(), DomainError>)
        ensures
            written_as(answer, r),
    {
        match answer {
            Ok(_) => Ok(()),
            Err(error) => Err(DomainError::from(error)),
        }
    }

    /// What a removal makes of the driver's answer: whether a row was
    /// removed, or an infrastructure failure.
    pub fn removed(answer: Result<u64, sqlx::Error>) -> (r: Result<bool, DomainError>)
        ensures
            removed_as(answer, r),
    {
        match answer {
            Ok(rows) => Ok(rows > 0),
            Err(error) => Err(DomainError::from(error)),
        }
    }

    /// What a lookup makes of the driver's answer. An absent row is a normal
    /// outcome, a row with an invalid field a validation failure, a driver
    /// failure an infrastructure failure.
    pub fn found(answer: Result<Option<TaskRow>, sqlx::Error>) -> (r: Result<
        Option<Task>,
        DomainError,
    >)
        ensures
            found_as(answer, r),
    {
        match answer {
            Ok(None) => Ok(None),
            Ok(Some(row)) => match Self::task_from_row(row) {
                Ok(task) => Ok(Some(task)),
                Err(error) => Err(error),
            },
            Err(error) => Err(DomainError::from(error)),
        }
    }
}

} // verus!
