use task_manager::domain::entity::task::{Task, TaskBody, TaskId, TaskStatus};
use task_manager::domain::error::DomainError;
use task_manager::infrastructure::repository::task_repository::{
    InternalTaskRepository, TaskRow, DELETE_TASK, INSERT_TASK, SELECT_ALL_TASKS, SELECT_TASK,
    UPDATE_TASK,
};

fn task(id: &str, body: &str, status: &str) -> Task {
    Task::new(
        TaskId::new(String::from(id)).unwrap(),
        TaskBody::new(String::from(body)).unwrap(),
        TaskStatus::new(String::from(status)).unwrap(),
    )
}

fn row(id: &str, body: &str, status: &str) -> TaskRow {
    TaskRow { id: String::from(id), body: String::from(body), status: String::from(status) }
}

#[test]
fn statement_texts() {
    assert_eq!(INSERT_TASK, "INSERT INTO task (id, body, status) VALUES ($1, $2, $3)");
    assert_eq!(SELECT_ALL_TASKS, "SELECT * FROM task ORDER BY 1");
    assert_eq!(SELECT_TASK, "SELECT * FROM task WHERE id = $1");
    assert_eq!(UPDATE_TASK, "UPDATE task SET body = $1, status = $2 WHERE id = $3");
    assert_eq!(DELETE_TASK, "DELETE FROM task WHERE id = $1");
}

#[test]
fn create_statement_binds_id_body_status() {
    let task = task("task-1", "description", "05");
    let statement = InternalTaskRepository::create_statement(&task);
    assert_eq!(statement.sql, INSERT_TASK);
    assert_eq!(statement.params, vec!["task-1", "description", "05"]);
}

#[test]
fn update_statement_binds_body_status_id() {
    let task = task("task-1", "y", "02");
    let statement = InternalTaskRepository::update_statement(&task);
    assert_eq!(statement.sql, UPDATE_TASK);
    assert_eq!(statement.params, vec!["y", "02", "task-1"]);
}

#[test]
fn find_by_id_statement_binds_the_id() {
    let id = TaskId::new(String::from("task-1")).unwrap();
    let statement = InternalTaskRepository::find_by_id_statement(&id);
    assert_eq!(statement.sql, SELECT_TASK);
    assert_eq!(statement.params, vec!["task-1"]);
}

#[test]
fn find_all_statement_binds_nothing() {
    let statement = InternalTaskRepository::find_all_statement();
    assert_eq!(statement.sql, SELECT_ALL_TASKS);
    assert!(statement.params.is_empty());
}

#[test]
fn delete_statement_binds_the_id() {
    let id = TaskId::new(String::from("task-1")).unwrap();
    let statement = InternalTaskRepository::delete_statement(&id);
    assert_eq!(statement.sql, DELETE_TASK);
    assert_eq!(statement.params, vec!["task-1"]);
}

#[test]
fn valid_row_becomes_a_task() {
    let mapped = InternalTaskRepository::task_from_row(row("task-1", "description", "05")).unwrap();
    assert_eq!(mapped, task("task-1", "description", "05"));
}

#[test]
fn row_with_long_status_is_a_validation_failure() {
    let outcome = InternalTaskRepository::task_from_row(row("task-1", "description", "005"));
    assert!(matches!(outcome, Err(DomainError::Validation(_))));
}

#[test]
fn row_with_blank_id_is_a_validation_failure() {
    let outcome = InternalTaskRepository::task_from_row(row(" ", "description", "05"));
    assert!(matches!(outcome, Err(DomainError::Validation(_))));
}

#[test]
fn row_with_empty_body_becomes_a_task() {
    let mapped = InternalTaskRepository::task_from_row(row("task-1", "", "")).unwrap();
    assert_eq!(mapped, task("task-1", "", ""));
}

#[test]
fn fetched_row_becomes_a_task() {
    let mapped = InternalTaskRepository::task_from_fetched(Ok(row("a", "b", "c"))).unwrap();
    assert_eq!(mapped, task("a", "b", "c"));
}

#[test]
fn fetched_invalid_row_is_a_validation_failure() {
    let outcome = InternalTaskRepository::task_from_fetched(Ok(row("a", "b", "ccc")));
    assert!(matches!(outcome, Err(DomainError::Validation(_))));
}

#[test]
fn failed_fetch_is_an_infrastructure_failure() {
    let outcome = InternalTaskRepository::task_from_fetched(Err(sqlx::Error::PoolTimedOut));
    assert!(matches!(outcome, Err(DomainError::Other(_))));
}

#[test]
fn absent_row_is_no_failure() {
    assert_eq!(InternalTaskRepository::found(Ok(None)).unwrap(), None);
}

#[test]
fn present_row_is_found() {
    let found = InternalTaskRepository::found(Ok(Some(row("task-1", "description", "05"))));
    assert_eq!(found.unwrap(), Some(task("task-1", "description", "05")));
}

#[test]
fn present_invalid_row_is_a_validation_failure() {
    let found = InternalTaskRepository::found(Ok(Some(row("task-1", "description", "done"))));
    assert!(matches!(found, Err(DomainError::Validation(_))));
}

#[test]
fn failed_lookup_is_an_infrastructure_failure() {
    let found = InternalTaskRepository::found(Err(sqlx::Error::PoolClosed));
    assert!(matches!(found, Err(DomainError::Other(_))));
}

#[test]
fn write_succeeds_whatever_the_row_count() {
    assert!(InternalTaskRepository::written(Ok(1)).is_ok());
    assert!(InternalTaskRepository::written(Ok(0)).is_ok());
}

#[test]
fn failed_write_is_an_infrastructure_failure() {
    let outcome = InternalTaskRepository::written(Err(sqlx::Error::WorkerCrashed));
    assert!(matches!(outcome, Err(DomainError::Other(_))));
}

#[test]
fn removal_reports_whether_a_row_went() {
    assert_eq!(InternalTaskRepository::removed(Ok(1)).unwrap(), true);
    assert_eq!(InternalTaskRepository::removed(Ok(0)).unwrap(), false);
    assert_eq!(InternalTaskRepository::removed(Ok(2)).unwrap(), true);
}

#[test]
fn failed_removal_is_an_infrastructure_failure() {
    let outcome = InternalTaskRepository::removed(Err(sqlx::Error::PoolClosed));
    assert!(matches!(outcome, Err(DomainError::Other(_))));
}

#[test]
fn collect_takes_a_valid_row() {
    let mut tasks = vec![task("a", "x", "01")];
    InternalTaskRepository::collect(&mut tasks, Ok(row("b", "y", "02"))).unwrap();
    assert_eq!(tasks, vec![task("a", "x", "01"), task("b", "y", "02")]);
}

#[test]
fn collect_leaves_the_tasks_alone_on_failure() {
    let mut tasks = vec![task("a", "x", "01")];
    let invalid = InternalTaskRepository::collect(&mut tasks, Ok(row("b", "y", "002")));
    assert!(matches!(invalid, Err(DomainError::Validation(_))));
    let failed = InternalTaskRepository::collect(&mut tasks, Err(sqlx::Error::RowNotFound));
    assert!(matches!(failed, Err(DomainError::Other(_))));
    assert_eq!(tasks, vec![task("a", "x", "01")]);
}

#[test]
fn listing_of_nothing_is_empty() {
    assert_eq!(InternalTaskRepository::listed(Vec::new()).unwrap(), Vec::new());
}

#[test]
fn listing_keeps_the_order_of_the_rows() {
    let fetched = vec![Ok(row("a", "x", "01")), Ok(row("b", "y", "02")), Ok(row("c", "z", "03"))];
    let tasks = InternalTaskRepository::listed(fetched).unwrap();
    assert_eq!(tasks, vec![task("a", "x", "01"), task("b", "y", "02"), task("c", "z", "03")]);
}

#[test]
fn listing_with_an_invalid_row_gives_no_task() {
    let fetched = vec![Ok(row("a", "x", "01")), Ok(row("b", "y", "002")), Ok(row("c", "z", "03"))];
    let outcome = InternalTaskRepository::listed(fetched);
    assert!(matches!(outcome, Err(DomainError::Validation(_))));
}

#[test]
fn listing_fails_as_its_first_bad_item_does() {
    let invalid_first = vec![Ok(row("a", "x", "001")), Err(sqlx::Error::PoolClosed)];
    assert!(matches!(
        InternalTaskRepository::listed(invalid_first),
        Err(DomainError::Validation(_))
    ));
    let failure_first = vec![Err(sqlx::Error::PoolClosed), Ok(row("a", "x", "001"))];
    assert!(matches!(InternalTaskRepository::listed(failure_first), Err(DomainError::Other(_))));
}
