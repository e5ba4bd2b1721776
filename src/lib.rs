//! Column projection and name cleaning for printer and copier usage reports.
//!
//! The library works on an in-memory [`table::Table`] of text cells: it checks that
//! the five columns of the report are present, keeps only those columns in a
//! fixed order, and removes the bracket characters from the `Name` column.
//! Reading and writing the CSV files is left to the caller.
pub mod brackets;
pub mod error;
pub mod laws;
pub mod pipeline;
pub mod table;
