//! A small project launcher: a catalog of named project paths, a
//! filter-as-you-type selection over it, and the decisions of the
//! interactive loop that opens the chosen project in an editor.

pub mod app;
pub mod cli;
pub mod format;
pub mod json;
pub mod layout;
pub mod projects;
pub mod shell;
pub mod text;
