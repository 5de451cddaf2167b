//! Queries over tables of text fields: a projection of columns plus a
//! conjunction of comparison filters, checked against the table's inferred
//! column types and evaluated row by row.
//!
//! - [`Rows`] and [`LoadedCSV`] hold a table and infer the type of each column.
//! - [`parse_query`] turns query text into a [`Query`].
//! - [`LoadedCSV::execute_query`] compiles a query against the table's schema
//!   and returns a [`QueryOutput`] that yields the matching rows.

pub mod compiled;
pub mod output;
pub mod parser;
pub mod query;
pub mod table;

pub use compiled::{CompiledExpr, CompiledFilter, CompiledQuery};
pub use output::{LoadedCSV, QueryOutput};
pub use parser::parse_query;
pub use query::{Expected, Expr, Filter, Query, QueryError, Test};
pub use table::{infer_or_keep, ColumnType, Rows};
