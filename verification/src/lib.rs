//! Inventory of the web endpoints that a tree of controller source files
//! declares: every mapping annotation becomes an HTTP verb and a path.

pub mod args;
pub mod entry;
pub mod file;
pub mod line;
pub mod pattern;
pub mod report;
pub mod text;
pub mod tree;
pub mod verb;
pub mod walker;
