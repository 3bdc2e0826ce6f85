//! The backing store of a desktop multi-tool: notes, invoices, a
//! portfolio, code snippets, command templates and one settings row,
//! each kept in its own table of a local SQLite database.
//!
//! Records travel between the caller and the database as plain values;
//! the invoice line items are rendered to and read from the JSON text
//! their column stores by a codec of this crate.

pub mod json;
pub mod records;
pub mod rows;
pub mod store;
pub mod text;
