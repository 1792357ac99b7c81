//! What the domain asks of storage.

pub mod laws;
pub mod task_repository;
