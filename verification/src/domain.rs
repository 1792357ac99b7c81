//! The domain layer: entities, the error taxonomy and the repository contract.

pub mod entity;
pub mod error;
pub mod repository;
