//! The command interpretation core of a small interactive shell: parsing a
//! line into a command, searching the directories of a search path, and
//! deciding what each command does.
pub mod command;
pub mod laws;
pub mod search;
pub mod shell;
pub mod text;
