//! Birthday display library: loads person records from rows of a
//! `last,first,dd.mm.yyyy,gender,[url]` file, derives the subset whose
//! birthday falls on the current date, and applies photo-fetch results.

pub mod date;
pub mod display;
pub mod error_wrapper;
pub mod loader;
pub mod parse;
pub mod person;
pub mod text;
