//! What the library does, said from outside.
//!
//! The other modules describe each operation by a model that goes on step by step. The laws here
//! do without: they tell of an operation by what it is given, the words of the commands that it
//! runs, the files that it touches, the replies, and the fields of what it ends with.

pub mod abandon;
pub mod changes;
pub mod create;
pub mod data;
pub mod delete;
pub mod list;
pub mod merge;
pub mod registry;
pub mod runs;
pub mod storage;
pub mod switch;
pub mod text;
pub mod words;
