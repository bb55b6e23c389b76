//! Parsing of task lists written in the todo.txt convention.
//!
//! A file is a list of tasks, one on each line. A line is a list of tokens
//! with blanks between them, and a token is a project (`+name`), a context
//! (`@name`), a due date (`due:2020-07-22`), a threshold date
//! (`t:2020-07-22`), a recurrence (`rec:+1w`) or, where none of these fits,
//! plain text.

pub mod chars;
pub mod common;
pub mod grammar;
pub mod join;
pub mod laws;
pub mod model;
pub mod number;
pub mod parser;
pub mod render;
pub mod roundtrip;
pub mod split;
pub mod text;
