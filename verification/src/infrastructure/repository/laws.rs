//! Why the relational repository keeps the repository contract: what is
//! supposed of the store behind each statement, and that the contract
//! follows from it.

use crate::domain::entity::task::{Task, TaskView};
use crate::domain::error::DomainError;
use crate::domain::repository::task_repository::{
    create_post, delete_post, find_all_post, find_by_id_post, lists, task_at, update_post, views_of,
    with_task, with_update, Stored,
};
use crate::infrastructure::repository::task_repository::{
    found_as, listed_as, readable, removed_as, written_as, TaskRow,
};
use vstd::prelude::*;

verus! {

/// The plain view of an optional row.
pub open spec fn row_view(row: Option<TaskRow>) -> Option<TaskView> {
    match row {
        Some(row) => Some(row@),
        None => None,
    }
}

/// The rows of a streamed answer that delivered every row, in order.
pub open spec fn rows_of(fetched: Seq<Result<TaskRow, sqlx::Error>>) -> Seq<TaskView> {
    fetched.map_values(|item: Result<TaskRow, sqlx::Error>| item->Ok_0@)
}

/// A store that holds `table` answers a lookup of `id`, where it answers at
/// all, with the row it holds under `id`.
pub open spec fn store_looks_up(
    table: Map<Seq<char>, Stored>,
    id: Seq<char>,
    answer: Result<Option<TaskRow>, sqlx::Error>,
) -> bool {
    answer matches Ok(row) ==> row_view(row) == task_at(table, id)
}

/// A store that holds `table` streams rows that it holds, and where it
/// delivers all of them, they are its rows in ascending order of the
/// identifier.
pub open spec fn store_lists(
    table: Map<Seq<char>, Stored>,
    fetched: Seq<Result<TaskRow, sqlx::Error>>,
) -> bool {
    &&& forall|i: int|
        0 <= i < fetched.len() && (#[trigger] fetched[i]) is Ok ==> task_at(
            table,
            fetched[i]->Ok_0@.id,
        ) == Some(fetched[i]->Ok_0@)
    &&& (forall|i: int| 0 <= i < fetched.len() ==> (#[trigger] fetched[i]) is Ok) ==> lists(
        table,
        rows_of(fetched),
    )
}

/// A store with a primary key on the identifier inserts `task` only under
/// an unused identifier, and a failed statement leaves it as it was.
pub open spec fn store_inserts(
    before: Map<Seq<char>, Stored>,
    task: TaskView,
    answer: Result<u64, sqlx::Error>,
    after: Map<Seq<char>, Stored>,
) -> bool {
    match answer {
        Ok(_) => !before.dom().contains(task.id) && after == with_task(before, task),
        Err(_) => after == before,
    }
}

/// A store overwrites the row with the identifier of `task` if it holds
/// one, and a failed statement leaves it as it was.
pub open spec fn store_updates(
    before: Map<Seq<char>, Stored>,
    task: TaskView,
    answer: Result<u64, sqlx::Error>,
    after: Map<Seq<char>, Stored>,
) -> bool {
    match answer {
        Ok(_) => after == with_update(before, task),
        Err(_) => after == before,
    }
}

/// A store removes the row under `id` and counts it, and a failed statement
/// leaves it as it was.
pub open spec fn store_deletes(
    before: Map<Seq<char>, Stored>,
    id: Seq<char>,
    answer: Result<u64, sqlx::Error>,
    after: Map<Seq<char>, Stored>,
) -> bool {
    match answer {
        Ok(rows) => (rows > 0) == before.dom().contains(id) && after == before.remove(id),
        Err(_) => after == before,
    }
}

/// What the relational lookup makes of the store's answer is what the
/// contract asks of a lookup.
pub proof fn law_lookup_keeps_contract(
    table: Map<Seq<char>, Stored>,
    id: Seq<char>,
    answer: Result<Option<TaskRow>, sqlx::Error>,
    r: Result<Option<Task>, DomainError>,
)
    requires
        store_looks_up(table, id, answer),
        found_as(answer, r),
    ensures
        find_by_id_post(table, id, r),
{
}

/// What the relational listing makes of the store's answer is what the
/// contract asks of a listing.
pub proof fn law_listing_keeps_contract(
    table: Map<Seq<char>, Stored>,
    fetched: Seq<Result<TaskRow, sqlx::Error>>,
    r: Result<Vec<Task>, DomainError>,
)
    requires
        store_lists(table, fetched),
        listed_as(fetched, r),
    ensures
        find_all_post(table, r),
{
    match r {
        Ok(tasks) => {
            assert forall|i: int| 0 <= i < fetched.len() implies (#[trigger] fetched[i]) is Ok by {
                assert(readable(fetched[i]));
            }
            assert(views_of(tasks@) =~= rows_of(fetched));
        },
        Err(error) => {
            let k = choose|k: int|
                {
                    &&& 0 <= k < fetched.len()
                    &&& forall|j: int| 0 <= j < k ==> readable(#[trigger] fetched[j])
                    &&& !readable(#[trigger] fetched[k])
                    &&& fetched[k] is Ok ==> error is Validation
                    &&& fetched[k] is Err ==> error is Other
                };
            if fetched[k] is Ok {
                let row = fetched[k]->Ok_0@;
                assert(task_at(table, row.id) == Some(row));
            }
        },
    }
}

/// What the relational creation makes of the store's answer is what the
/// contract asks of a creation.
pub proof fn law_creation_keeps_contract(
    before: Map<Seq<char>, Stored>,
    task: TaskView,
    answer: Result<u64, sqlx::Error>,
    after: Map<Seq<char>, Stored>,
    r: Result<(), DomainError>,
)
    requires
        store_inserts(before, task, answer, after),
        written_as(answer, r),
    ensures
        create_post(before, task, r, after),
{
}

/// What the relational update makes of the store's answer is what the
/// contract asks of an update.
pub proof fn law_update_keeps_contract(
    before: Map<Seq<char>, Stored>,
    task: TaskView,
    answer: Result<u64, sqlx::Error>,
    after: Map<Seq<char>, Stored>,
    r: Result<(), DomainError>,
)
    requires
        store_updates(before, task, answer, after),
        written_as(answer, r),
    ensures
        update_post(before, task, r, after),
{
}

/// What the relational removal makes of the store's answer is what the
/// contract asks of a removal.
pub proof fn law_removal_keeps_contract(
    before: Map<Seq<char>, Stored>,
    id: Seq<char>,
    answer: Result<u64, sqlx::Error>,
    after: Map<Seq<char>, Stored>,
    r: Result<bool, DomainError>,
)
    requires
        store_deletes(before, id, answer, after),
        removed_as(answer, r),
    ensures
        delete_post(before, id, r, after),
{
}

} // verus!
