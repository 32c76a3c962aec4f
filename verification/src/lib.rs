//! Merging bills of materials.
//!
//! A bill of materials comes as a grid of cells. `header` finds the row that
//! names the columns and reads the column mapping from it, `rows` reads the
//! rows below it into lines, with `value` for the values written in
//! engineering shorthand and `category` for the category of a component,
//! and `merge` folds the lines of the same part into one. `stats` counts the
//! parts, `notation` and `report` lay them out as a sheet, and `parser` runs
//! the whole from grid to parts.

pub mod category;
pub mod header;
pub mod items;
pub mod merge;
pub mod notation;
pub mod parser;
pub mod report;
pub mod rows;
pub mod stats;
pub mod text;
pub mod value;
