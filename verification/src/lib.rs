//! A table over an object store: how query filters are pushed down to a listing,
//! how listed entries become rows and batches of rows, and how rows are written back.

pub mod batch;
pub mod columns;
pub mod conditions;
pub mod error;
pub mod expr;
pub mod laws;
pub mod plan;
pub mod rows;
pub mod scan;
pub mod schema;
pub mod sink;
pub mod source;
pub mod text;
pub mod value;
