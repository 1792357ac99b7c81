//! What follows from the repository contract for every implementation of it.

use crate::domain::entity::task::{
    lemma_precedes_irreflexive, lemma_precedes_transitive, precedes, Task, TaskView,
};
use crate::domain::error::DomainError;
use crate::domain::repository::task_repository::{
    ascending, create_post, delete_post, find_all_post, find_by_id_post, lists, task_at, update_post,
    view_of, views_of, with_task, Stored,
};
use vstd::prelude::*;

verus! {

/// A task that was created is found under its identifier, equal to the one
/// that was created.
pub proof fn law_create_then_find(
    before: Map<Seq<char>, Stored>,
    task: TaskView,
    created: Result<(), DomainError>,
    after: Map<Seq<char>, Stored>,
    found: Result<Option<Task>, DomainError>,
)
    requires
        create_post(before, task, created, after),
        created is Ok,
        find_by_id_post(after, task.id, found),
        found is Ok,
    ensures
        view_of(found->Ok_0) == Some(task),
{
}

/// Two lookups of one identifier with no change between them answer alike.
pub proof fn law_find_twice(
    table: Map<Seq<char>, Stored>,
    id: Seq<char>,
    first: Result<Option<Task>, DomainError>,
    second: Result<Option<Task>, DomainError>,
)
    requires
        find_by_id_post(table, id, first),
        find_by_id_post(table, id, second),
        first is Ok,
        second is Ok,
    ensures
        view_of(first->Ok_0) == view_of(second->Ok_0),
{
}

/// After a task was created and then updated, a lookup finds the fields of
/// the update, not those it was created with.
pub proof fn law_create_update_find(
    before: Map<Seq<char>, Stored>,
    task: TaskView,
    created: Result<(), DomainError>,
    between: Map<Seq<char>, Stored>,
    change: TaskView,
    updated: Result<(), DomainError>,
    after: Map<Seq<char>, Stored>,
    found: Result<Option<Task>, DomainError>,
)
    requires
        create_post(before, task, created, between),
        created is Ok,
        change.id == task.id,
        update_post(between, change, updated, after),
        updated is Ok,
        find_by_id_post(after, task.id, found),
        found is Ok,
    ensures
        view_of(found->Ok_0) == Some(change),
{
}

/// Deleting a stored identifier reports a removal, and a lookup then finds
/// nothing.
pub proof fn law_delete_then_find(
    before: Map<Seq<char>, Stored>,
    id: Seq<char>,
    deleted: Result<bool, DomainError>,
    after: Map<Seq<char>, Stored>,
    found: Result<Option<Task>, DomainError>,
)
    requires
        before.dom().contains(id),
        delete_post(before, id, deleted, after),
        deleted is Ok,
        find_by_id_post(after, id, found),
        found is Ok,
    ensures
        deleted->Ok_0 == true,
        found->Ok_0 is None,
{
}

/// Deleting an identifier that is not stored reports no removal and changes
/// nothing.
pub proof fn law_delete_absent(
    before: Map<Seq<char>, Stored>,
    id: Seq<char>,
    deleted: Result<bool, DomainError>,
    after: Map<Seq<char>, Stored>,
)
    requires
        !before.dom().contains(id),
        delete_post(before, id, deleted, after),
        deleted is Ok,
    ensures
        deleted->Ok_0 == false,
        after == before,
{
    assert(before.remove(id) =~= before);
}

/// A listing ascends by identifier.
pub proof fn law_listing_ascends(table: Map<Seq<char>, Stored>, listed: Result<Vec<Task>, DomainError>)
    requires
        find_all_post(table, listed),
        listed is Ok,
    ensures
        ascending(views_of(listed->Ok_0@)),
{
}

/// A table has one listing only.
pub proof fn lemma_listing_unique(
    table: Map<Seq<char>, Stored>,
    one: Seq<TaskView>,
    other: Seq<TaskView>,
)
    requires
        lists(table, one),
        lists(table, other),
    ensures
        one == other,
    decreases one.len(),
{
    if one.len() == 0 {
        if other.len() > 0 {
            assert(table.dom().contains(other[0].id));
        }
        assert(one =~= other);
    } else {
        let a = one[0];
        assert(table.dom().contains(a.id));
        let j = choose|j: int| 0 <= j < other.len() && other[j].id == a.id;
        let b = other[0];
        assert(table.dom().contains(b.id));
        let i = choose|i: int| 0 <= i < one.len() && one[i].id == b.id;
        if i > 0 && j > 0 {
            assert(precedes(one[0].id, one[i].id));
            assert(precedes(other[0].id, other[j].id));
            lemma_precedes_transitive(a.id, b.id, a.id);
            lemma_precedes_irreflexive(a.id);
        }
        assert(a.id == b.id);
        assert(a == b);
        let rest = table.remove(a.id);
        lemma_rest_listed(table, one);
        lemma_rest_listed(table, other);
        lemma_listing_unique(rest, one.drop_first(), other.drop_first());
        assert(one =~= seq![a] + one.drop_first());
        assert(other =~= seq![b] + other.drop_first());
    }
}

proof fn lemma_rest_listed(table: Map<Seq<char>, Stored>, tasks: Seq<TaskView>)
    requires
        lists(table, tasks),
        tasks.len() > 0,
    ensures
        lists(table.remove(tasks[0].id), tasks.drop_first()),
{
    let first = tasks[0].id;
    let rest = table.remove(first);
    let tail = tasks.drop_first();
    lemma_precedes_irreflexive(first);
    assert forall|i: int, j: int| 0 <= i < j < tail.len() implies precedes(
        #[trigger] tail[i].id,
        #[trigger] tail[j].id,
    ) by {
        assert(precedes(tasks[i + 1].id, tasks[j + 1].id));
    }
    assert forall|i: int| 0 <= i < tail.len() implies task_at(rest, (#[trigger] tail[i]).id)
        == Some(tail[i]) by {
        assert(precedes(tasks[0].id, tasks[i + 1].id));
        assert(task_at(table, tasks[i + 1].id) == Some(tasks[i + 1]));
    }
    assert forall|id: Seq<char>| #[trigger] rest.dom().contains(id) implies exists|i: int|
        0 <= i < tail.len() && #[trigger] tail[i].id == id by {
        assert(table.dom().contains(id));
        let k = choose|k: int| 0 <= k < tasks.len() && tasks[k].id == id;
        assert(k > 0);
        assert(tail[k - 1].id == id);
    }
}

/// A listing does not depend on the order in which the rows were created:
/// two tables that hold the same rows are listed alike, and creating two
/// tasks in either order gives the same table.
pub proof fn law_listing_ignores_insertion_order(
    table: Map<Seq<char>, Stored>,
    a: TaskView,
    b: TaskView,
    one: Result<Vec<Task>, DomainError>,
    other: Result<Vec<Task>, DomainError>,
)
    requires
        a.id != b.id,
        find_all_post(with_task(with_task(table, a), b), one),
        find_all_post(with_task(with_task(table, b), a), other),
        one is Ok,
        other is Ok,
    ensures
        with_task(with_task(table, a), b) == with_task(with_task(table, b), a),
        views_of(one->Ok_0@) == views_of(other->Ok_0@),
{
    assert(with_task(with_task(table, a), b) =~= with_task(with_task(table, b), a));
    lemma_listing_unique(
        with_task(with_task(table, a), b),
        views_of(one->Ok_0@),
        views_of(other->Ok_0@),
    );
}

} // verus!
