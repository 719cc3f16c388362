//! Compares the live schema of two SQLite connections and renders every
//! structural discrepancy (tables, columns, indices, index-column order)
//! as a unified-diff-style text report.

pub mod catalog;
pub mod compare;
pub mod diffs;
pub mod distinct;
pub mod laws;
pub mod order;
pub mod records;
pub mod schema;
pub mod text;
