//! A repository that keeps its tasks in memory, in ascending order of the
//! identifier.

use crate::domain::entity::task::{
    lemma_precedes_connected, lemma_precedes_irreflexive, lemma_precedes_transitive, precedes, Task,
    TaskId, TaskView,
};
use crate::domain::error::{prints, DomainError};
use crate::domain::repository::task_repository::{
    ascending, lists, stored, task_at, views_of, with_task, Stored, TaskRepository,
};
use vstd::prelude::*;

verus! {

/// Whether `rows` holds a row with identifier `id`.
spec fn holds(rows: Seq<TaskView>, id: Seq<char>) -> bool {
    exists|i: int| 0 <= i < rows.len() && #[trigger] rows[i].id == id
}

/// The place in `rows` of a row with identifier `id`.
spec fn place(rows: Seq<TaskView>, id: Seq<char>) -> int {
    choose|i: int| 0 <= i < rows.len() && #[trigger] rows[i].id == id
}

/// The table that `rows` stands for.
spec fn table_of(rows: Seq<TaskView>) -> Map<Seq<char>, Stored> {
    Map::new(|id: Seq<char>| holds(rows, id), |id: Seq<char>| stored(rows[place(rows, id)]))
}

/// In ascending rows every identifier has one place.
proof fn lemma_place(rows: Seq<TaskView>, i: int)
    requires
        ascending(rows),
        0 <= i < rows.len(),
    ensures
        holds(rows, rows[i].id),
        place(rows, rows[i].id) == i,
        task_at(table_of(rows), rows[i].id) == Some(rows[i]),
{
    let id = rows[i].id;
    let k = place(rows, id);
    lemma_precedes_irreflexive(id);
    if k < i {
        assert(precedes(rows[k].id, rows[i].id));
    } else if i < k {
        assert(precedes(rows[i].id, rows[k].id));
    }
}

/// Ascending rows list the table they stand for.
proof fn lemma_rows_list_table(rows: Seq<TaskView>)
    requires
        ascending(rows),
    ensures
        lists(table_of(rows), rows),
{
    assert forall|i: int| 0 <= i < rows.len() implies task_at(
        table_of(rows),
        (#[trigger] rows[i]).id,
    ) == Some(rows[i]) by {
        lemma_place(rows, i);
    }
}

/// Where the rows before `k` come before `id` and the row at `k` neither
/// comes before it nor has it, no row has it, and it comes before every row
/// from `k` on.
proof fn lemma_absent(rows: Seq<TaskView>, k: int, id: Seq<char>)
    requires
        ascending(rows),
        0 <= k <= rows.len(),
        forall|i: int| 0 <= i < k ==> precedes(#[trigger] rows[i].id, id),
        k < rows.len() ==> !precedes(rows[k].id, id) && rows[k].id != id,
    ensures
        !holds(rows, id),
        forall|i: int| k <= i < rows.len() ==> precedes(id, #[trigger] rows[i].id),
{
    lemma_precedes_irreflexive(id);
    assert forall|i: int| k <= i < rows.len() implies precedes(id, #[trigger] rows[i].id) by {
        lemma_precedes_connected(rows[k].id, id);
        if k < i {
            assert(precedes(rows[k].id, rows[i].id));
            lemma_precedes_transitive(id, rows[k].id, rows[i].id);
        }
    }
}

/// Putting a row in at its place keeps the order and adds it to the table.
proof fn lemma_insert(rows: Seq<TaskView>, k: int, task: TaskView)
    requires
        ascending(rows),
        0 <= k <= rows.len(),
        forall|i: int| 0 <= i < k ==> precedes(#[trigger] rows[i].id, task.id),
        forall|i: int| k <= i < rows.len() ==> precedes(task.id, #[trigger] rows[i].id),
    ensures
        ascending(rows.insert(k, task)),
        table_of(rows.insert(k, task)) == with_task(table_of(rows), task),
{
    let grown = rows.insert(k, task);
    assert forall|i: int, j: int| 0 <= i < j < grown.len() implies precedes(
        #[trigger] grown[i].id,
        #[trigger] grown[j].id,
    ) by {
        if j < k {
            assert(precedes(rows[i].id, rows[j].id));
        } else if j == k {
            assert(precedes(rows[i].id, task.id));
        } else if i < k {
            assert(precedes(rows[i].id, rows[j - 1].id));
        } else if i == k {
            assert(precedes(task.id, rows[j - 1].id));
        } else {
            assert(precedes(rows[i - 1].id, rows[j - 1].id));
        }
    }
    let left = table_of(grown);
    let right = with_task(table_of(rows), task);
    assert forall|id: Seq<char>| left.dom().contains(id) == right.dom().contains(id) by {
        if holds(grown, id) {
            let i = place(grown, id);
            if i < k {
                assert(rows[i].id == id);
            } else if i > k {
                assert(rows[i - 1].id == id);
            }
        }
        if holds(rows, id) {
            let i = place(rows, id);
            if i < k {
                assert(grown[i].id == id);
            } else {
                assert(grown[i + 1].id == id);
            }
        }
        if id == task.id {
            assert(grown[k].id == id);
        }
    }
    assert forall|id: Seq<char>| #[trigger] left.dom().contains(id) implies left[id] == right[id] by {
        let i = place(grown, id);
        lemma_place(grown, i);
        if i < k {
            lemma_place(rows, i);
            lemma_precedes_irreflexive(id);
        } else if i > k {
            lemma_place(rows, i - 1);
            lemma_precedes_irreflexive(id);
        }
    }
    assert(left =~= right);
}

/// Replacing a row by one with the same identifier keeps the order and
/// overwrites it in the table.
proof fn lemma_replace(rows: Seq<TaskView>, k: int, task: TaskView)
    requires
        ascending(rows),
        0 <= k < rows.len(),
        rows[k].id == task.id,
    ensures
        ascending(rows.update(k, task)),
        table_of(rows.update(k, task)) == with_task(table_of(rows), task),
{
    let changed = rows.update(k, task);
    assert forall|i: int, j: int| 0 <= i < j < changed.len() implies precedes(
        #[trigger] changed[i].id,
        #[trigger] changed[j].id,
    ) by {
        assert(precedes(rows[i].id, rows[j].id));
    }
    let left = table_of(changed);
    let right = with_task(table_of(rows), task);
    assert forall|id: Seq<char>| left.dom().contains(id) == right.dom().contains(id) by {
        if holds(changed, id) {
            let i = place(changed, id);
            assert(rows[i].id == id);
        }
        if holds(rows, id) {
            let i = place(rows, id);
            assert(changed[i].id == id);
        }
        if id == task.id {
            assert(changed[k].id == id);
        }
    }
    assert forall|id: Seq<char>| #[trigger] left.dom().contains(id) implies left[id] == right[id] by {
        let i = place(changed, id);
        lemma_place(changed, i);
        lemma_place(rows, i);
        lemma_place(rows, k);
    }
    assert(left =~= right);
}

/// Taking a row out keeps the order and removes it from the table.
proof fn lemma_remove(rows: Seq<TaskView>, k: int)
    requires
        ascending(rows),
        0 <= k < rows.len(),
    ensures
        ascending(rows.remove(k)),
        table_of(rows.remove(k)) == table_of(rows).remove(rows[k].id),
{
    let shrunk = rows.remove(k);
    let gone = rows[k].id;
    lemma_precedes_irreflexive(gone);
    assert forall|i: int, j: int| 0 <= i < j < shrunk.len() implies precedes(
        #[trigger] shrunk[i].id,
        #[trigger] shrunk[j].id,
    ) by {
        if j < k {
            assert(precedes(rows[i].id, rows[j].id));
        } else if i < k {
            assert(precedes(rows[i].id, rows[j + 1].id));
        } else {
            assert(precedes(rows[i + 1].id, rows[j + 1].id));
        }
    }
    let left = table_of(shrunk);
    let right = table_of(rows).remove(gone);
    assert forall|id: Seq<char>| left.dom().contains(id) == right.dom().contains(id) by {
        if holds(shrunk, id) {
            let i = place(shrunk, id);
            if i < k {
                assert(rows[i].id == id);
                assert(precedes(rows[i].id, rows[k].id));
            } else {
                assert(rows[i + 1].id == id);
                assert(precedes(rows[k].id, rows[i + 1].id));
            }
        }
        if holds(rows, id) && id != gone {
            let i = place(rows, id);
            if i < k {
                assert(shrunk[i].id == id);
            } else {
                assert(shrunk[i - 1].id == id);
            }
        }
    }
    assert forall|id: Seq<char>| #[trigger] left.dom().contains(id) implies left[id] == right[id] by {
        let i = place(shrunk, id);
        lemma_place(shrunk, i);
        if i < k {
            lemma_place(rows, i);
        } else {
            lemma_place(rows, i + 1);
        }
    }
    assert(left =~= right);
}

/// What a creation under a taken identifier gives as its reason.
pub const DUPLICATE_KEY: &'static str = "duplicate key value violates unique constraint";

/// Whether `cause` prints `message` and nothing else.
pub open spec fn says(cause: anyhow::Error, message: Seq<char>) -> bool {
    forall|text: String| #[trigger] prints(cause, text) <==> text@ == message
}

/// Wraps a reason in `anyhow::Error::msg`, which keeps it as the message of
/// the failure. What is claimed of the result is that it prints the reason:
/// the plain `Display` of `anyhow::Error` writes the message it was made of.
#[verifier::external_body]
fn failure(reason: &'static str) -> (cause: anyhow::Error)
    ensures
        says(cause, reason@),
{
    anyhow::Error::msg(reason)
}

/// Tasks held in memory. No two have the same identifier.
#[derive(Debug)]
pub struct MemoryTaskRepository {
    tasks: Vec<Task>,
}

impl MemoryTaskRepository {
    #[verifier::type_invariant]
    spec fn well_formed(self) -> bool {
        ascending(views_of(self.tasks@))
    }

    /// A repository that holds nothing.
    pub fn new() -> (r: Self)
        ensures
            r.table() == Map::<Seq<char>, Stored>::empty(),
    {
        let r = MemoryTaskRepository { tasks: Vec::new() };
        assert(r.table() =~= Map::<Seq<char>, Stored>::empty());
        r
    }

    /// Hands out the tasks to be changed, and holds none until they are put
    /// back.
    fn take(&mut self) -> (tasks: Vec<Task>)
        ensures
            tasks == old(self).tasks,
    {
        let mut tasks: Vec<Task> = Vec::new();
        core::mem::swap(&mut self.tasks, &mut tasks);
        tasks
    }

    /// The first place whose row does not come before `id`.
    fn seek(&self, id: &TaskId) -> (k: usize)
        ensures
            k <= self.tasks@.len(),
            forall|i: int| 0 <= i < k ==> precedes(#[trigger] self.tasks@[i].id@, id@),
            k < self.tasks@.len() ==> !precedes(self.tasks@[k as int].id@, id@),
    {
        let mut k: usize = 0;
        while k < self.tasks.len() && self.tasks[k].id.precedes(id)
            invariant
                k <= self.tasks@.len(),
                forall|i: int| 0 <= i < k ==> precedes(#[trigger] self.tasks@[i].id@, id@),
            decreases self.tasks@.len() - k,
        {
            k = k + 1;
        }
        k
    }

    /// Whether the row at place `k`, the one that `seek` gave for `id`, has
    /// that identifier; that is, whether `id` is held at all.
    fn held_at(&self, k: usize, id: &TaskId) -> (r: bool)
        requires
            ascending(views_of(self.tasks@)),
            k <= self.tasks@.len(),
            forall|i: int| 0 <= i < k ==> precedes(#[trigger] self.tasks@[i].id@, id@),
            k < self.tasks@.len() ==> !precedes(self.tasks@[k as int].id@, id@),
        ensures
            r == self.table().dom().contains(id@),
            r ==> k < self.tasks@.len() && self.tasks@[k as int].id@ == id@,
            !r ==> forall|i: int|
                k <= i < self.tasks@.len() ==> precedes(id@, #[trigger] self.tasks@[i].id@),
    {
        let r = k < self.tasks.len() && self.tasks[k].id.same(id);
        proof {
            let rows = views_of(self.tasks@);
            if r {
                assert(rows[k as int].id == id@);
            } else {
                assert forall|i: int| 0 <= i < k implies precedes(#[trigger] rows[i].id, id@) by {
                    assert(precedes(self.tasks@[i].id@, id@));
                }
                lemma_absent(rows, k as int, id@);
                assert forall|i: int| k <= i < self.tasks@.len() implies precedes(
                    id@,
                    #[trigger] self.tasks@[i].id@,
                ) by {
                    assert(precedes(id@, rows[i].id));
                }
            }
        }
        r
    }
}

impl TaskRepository for MemoryTaskRepository {
    closed spec fn table(&self) -> Map<Seq<char>, Stored> {
        table_of(views_of(self.tasks@))
    }

    /// Never fails.
    fn find_by_id(&self, id: &TaskId) -> (r: Result<Option<Task>, DomainError>)
        ensures
            r is Ok,
    {
        proof {
            use_type_invariant(self);
        }
        let k = self.seek(id);
        if self.held_at(k, id) {
            let task = self.tasks[k].clone();
            proof {
                lemma_place(views_of(self.tasks@), k as int);
            }
            Ok(Some(task))
        } else {
            Ok(None)
        }
    }

    /// Never fails.
    fn find_all(&self) -> (r: Result<Vec<Task>, DomainError>)
        ensures
            r is Ok,
    {
        proof {
            use_type_invariant(self);
        }
        let mut tasks: Vec<Task> = Vec::new();
        let mut i: usize = 0;
        while i < self.tasks.len()
            invariant
                i <= self.tasks@.len(),
                tasks@.len() == i,
                forall|j: int| 0 <= j < i ==> (#[trigger] tasks@[j])@ == self.tasks@[j]@,
            decreases self.tasks@.len() - i,
        {
            tasks.push(self.tasks[i].clone());
            i = i + 1;
        }
        proof {
            assert(views_of(tasks@) =~= views_of(self.tasks@));
            lemma_rows_list_table(views_of(self.tasks@));
        }
        Ok(tasks)
    }

    /// Fails exactly when the identifier is taken, and then gives
    /// `DUPLICATE_KEY` as the reason.
    fn create(&mut self, task: &Task) -> (r: Result<(), DomainError>)
        ensures
            r is Ok <==> !old(self).table().dom().contains(task.id@),
            r matches Err(DomainError::Other(cause)) ==> says(cause, DUPLICATE_KEY@),
    {
        proof {
            use_type_invariant(&*self);
        }
        let k = self.seek(&task.id);
        if self.held_at(k, &task.id) {
            Err(DomainError::Other(failure(DUPLICATE_KEY)))
        } else {
            let ghost rows = views_of(self.tasks@);
            proof {
                assert forall|i: int| 0 <= i < k implies precedes(#[trigger] rows[i].id, task.id@) by {
                    assert(precedes(self.tasks@[i].id@, task.id@));
                }
                assert forall|i: int| k <= i < rows.len() implies precedes(
                    task.id@,
                    #[trigger] rows[i].id,
                ) by {
                    assert(precedes(task.id@, self.tasks@[i].id@));
                }
                lemma_insert(rows, k as int, task@);
            }
            let copy = task.clone();
            proof {
                assert(views_of(self.tasks@.insert(k as int, copy)) =~= rows.insert(k as int, task@));
            }
            let mut tasks = self.take();
            tasks.insert(k, copy);
            self.tasks = tasks;
            Ok(())
        }
    }

    /// Never fails.
    fn update(&mut self, task: &Task) -> (r: Result<(), DomainError>)
        ensures
            r is Ok,
    {
        proof {
            use_type_invariant(&*self);
        }
        let k = self.seek(&task.id);
        if self.held_at(k, &task.id) {
            let ghost rows = views_of(self.tasks@);
            let copy = task.clone();
            proof {
                lemma_replace(rows, k as int, task@);
                assert(views_of(self.tasks@.update(k as int, copy)) =~= rows.update(k as int, task@));
            }
            let mut tasks = self.take();
            tasks.set(k, copy);
            self.tasks = tasks;
        }
        Ok(())
    }

    /// Never fails.
    fn delete(&mut self, id: &TaskId) -> (r: Result<bool, DomainError>)
        ensures
            r is Ok,
    {
        proof {
            use_type_invariant(&*self);
        }
        let k = self.seek(id);
        if self.held_at(k, id) {
            let ghost rows = views_of(self.tasks@);
            proof {
                lemma_remove(rows, k as int);
                assert(views_of(self.tasks@.remove(k as int)) =~= rows.remove(k as int));
            }
            let mut tasks = self.take();
            let _ = tasks.remove(k);
            self.tasks = tasks;
            Ok(true)
        } else {
            proof {
                assert(self.table().remove(id@) =~= self.table());
            }
            Ok(false)
        }
    }
}

} // verus!
