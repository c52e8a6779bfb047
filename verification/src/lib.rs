//! A small calendar library: named calendars, one of them the default, and
//! the events that belong to them, kept as rows of one flat table.
//!
//! The table lives in memory, in a [`database::Store`]; reading it from a
//! file and writing it back is left to the program that uses the library.
//! Every operation has a contract over the table as a sequence of rows
//! ([`table`]), and [`laws`] proves what the operations amount to when they
//! are taken together.
pub mod calendar;
pub mod cali_error;
pub mod database;
pub mod event;
pub mod filters;
pub mod identifier;
pub mod laws;
pub mod parser;
pub mod place;
pub mod row;
pub mod table;
pub mod text;
pub mod time;
