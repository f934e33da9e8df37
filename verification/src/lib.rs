//! Tasks kept in a plain text file that a person can read and edit.
//!
//! A task has a name, a status and a free text. `tasks` holds the task, the
//! list of tasks and the reader and writer of the file's text; `grammar`
//! says what a text holds and how a list is written; `roundtrip` proves that
//! what was written is read back unchanged. `editor`, `selection` and
//! `navbar` hold what the three parts of a screen for tasks know and do.

pub mod editor;
pub mod grammar;
pub mod iterator;
pub mod lines;
pub mod navbar;
pub mod parser;
pub mod roundtrip;
pub mod scan;
pub mod selection;
pub mod tasks;
pub mod text;
