//! The records of the store and the values that are read back from it.

pub mod belief;
pub mod claim;
pub mod records;
