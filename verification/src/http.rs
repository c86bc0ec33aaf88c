//! HTTP as the node speaks it: one request or response per connection, a
//! header block of at most one buffer, and an optional body.

pub mod client;
pub mod common;
pub mod server;
