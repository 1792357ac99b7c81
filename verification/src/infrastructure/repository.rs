//! Repositories over concrete storage.

pub mod error;
pub mod laws;
pub mod memory_task_repository;
pub mod task_repository;
