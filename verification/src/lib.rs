//! Conversion rules between relational tables and spreadsheet worksheets.
//!
//! Exporting lays every table of a database out as one worksheet: the
//! column names in row 0, then one row for each table row, every value
//! as text ([`export`]). Importing turns every worksheet of a workbook
//! into the statements that create and fill one table: column names from
//! the header with repeated names replaced ([`header`]), one insertion
//! for each row with its 1-based row number ([`import`]), all inside one
//! transaction ([`transaction`]).
//!
//! The crate holds the rules only. Opening files, running statements and
//! writing cells is left to the caller, which hands in what it read and
//! performs what comes back.

pub mod cli;
pub mod decimal;
pub mod export;
pub mod header;
pub mod import;
pub mod range;
pub mod sql;
pub mod text;
pub mod transaction;
