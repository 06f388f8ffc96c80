//! Core of a directory-listing utility: entry kinds, permission text,
//! the sort engine and the formatter, over plain metadata values.

pub mod kind;
pub mod perms;
pub mod size;
pub mod text;
pub mod entry;
pub mod sort;
pub mod config;
pub mod listing;
pub mod columns;
pub mod render;
pub mod timefmt;
