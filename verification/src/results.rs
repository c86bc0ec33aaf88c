//! The result handler's extraction of events from action results.

pub mod result_handler;
