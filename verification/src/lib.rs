//! A personal task list: tasks are added, edited, completed, deleted,
//! searched and rendered as lines of text.

pub mod command;
pub mod laws;
pub mod list;
pub mod task;
pub mod text;
