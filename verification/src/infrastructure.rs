//! The infrastructure layer: what stands between the domain and storage.

pub mod repository;
