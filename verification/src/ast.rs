//! The syntax tree the middle end consumes.

pub mod symbol;
pub mod types;
