//! Parsing and comparing files whose lines list a line number and the names found on it.
pub mod check;
pub mod laws;
pub mod line_names;
pub mod opt;
pub mod parse;
pub mod text;
