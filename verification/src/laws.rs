//! What holds of the table as a whole.

pub mod answers;
pub mod batches;
pub mod filters;
pub mod inserts;
pub mod listings;
pub mod order;
pub mod plans;
pub mod pushdown;
pub mod reads;
pub mod scans;
pub mod steps;
pub mod tables;
pub mod views;
pub mod writes;
