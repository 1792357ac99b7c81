//! The use cases on tasks.

use crate::domain::repository::task_repository::TaskRepository;
use vstd::prelude::*;

verus! {

/// The use cases on tasks, over whatever repository they are given.
pub struct UseCase<R: TaskRepository> {
    repository: R,
}

impl<R: TaskRepository> UseCase<R> {
    /// The repository that the use cases work on.
    pub closed spec fn repository(&self) -> R {
        self.repository
    }

    /// The use cases over `repository`.
    pub fn new(repository: R) -> (r: Self)
        ensures
            r.repository() == repository,
    {
        Self { repository }
    }
}

} // verus!
