//! Tasks and their storage.
//!
//! `domain` holds the validated value objects, the task made of them, the
//! error taxonomy, and the repository contract: five operations held to a
//! model of what storage holds, with the laws that follow from it.
//!
//! `infrastructure` holds two repositories. The relational one is given here
//! without its driver calls: the statements it sends and what it makes of
//! each answer, with the proof that this keeps the contract over a store
//! that behaves as a table with a primary key. The other keeps its tasks in
//! memory and implements the contract in full.
//!
//! Taken on trust are the calls into `validator` and `anyhow`. Those that
//! build a value stand behind private functions that say what is claimed of
//! it. `to_string` on `validator::ValidationErrors` and on `anyhow::Error`
//! is called directly, under the specification that `vstd` gives it, which
//! names the text and claims nothing of it.

pub mod domain;
pub mod infrastructure;
pub mod use_case;
