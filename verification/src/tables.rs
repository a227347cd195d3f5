//! The table engine: simple tables, grid tables, and tables given as
//! comma-separated values or as nested lists.

pub mod cell;
pub mod data;
pub mod grid;
pub mod list;
pub mod simple;

pub use crate::tables::data::convert_csv_table;
pub use crate::tables::grid::{convert_grid_table, is_grid_table};
pub use crate::tables::list::convert_list_table;
pub use crate::tables::simple::{convert_simple_table, is_simple_table};
