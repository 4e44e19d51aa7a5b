//! A to-do list manager: named lists of pending and completed tasks, the
//! operations on them, and the JSON document that persists them.
//!
//! Every operation states what it returns and how it changes the store, and
//! the statements are proved. What is assumed of `serde_json` stands in
//! [`json`]; what is assumed of `str::trim` and `str::parse`, in [`entry`].

pub mod document;
pub mod entry;
pub mod json;
pub mod list;
pub mod store;

pub use document::{LoadError, SaveError};
pub use entry::{choice_number, entry_command, entry_text, parse_choice, parse_command, Command};
pub use list::TodoList;
pub use store::{SelectError, StoreError, TodoManager};
