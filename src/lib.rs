//! An in-memory task record store: creation with monotonically increasing
//! identifiers, lookup, field updates, deletion and filtered queries, each
//! operation stated against a mathematical model of the store.

pub mod laws;
pub mod store;
pub mod task;

pub use store::{StoreView, TaskStore};
pub use task::{Task, TaskError};
