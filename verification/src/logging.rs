//! Log items, their console styling, and the logger that hands them on.

pub mod common;
pub mod logger;
