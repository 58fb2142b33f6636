//! A small task tracker: an ordered list of tasks with unique positive ids,
//! the operations that add, complete, remove and list them, and the decisions
//! of the load and save routines that keep the list in a single file.

pub mod text;
pub mod task;
pub mod listing;
pub mod store;
