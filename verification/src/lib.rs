//! The control ring of a single controller node: events become commands,
//! commands become actions, actions produce results, and the operations in a
//! result raise new events. Around the ring stand the name directory, the
//! worker pool that bounds concurrent actions, the HTTP framing of triggers
//! and outbound calls, and the log items every stage emits.
//!
//! The library holds the decisions of every stage and proves what they
//! return. Threads, sockets and the JSON coding of messages belong to the
//! program around it: where a stage needs the outside world, its function
//! is cut into steps, and each step takes what the outside world answered.

pub mod channel;
pub mod common;
pub mod events;
pub mod http;
pub mod io;
pub mod logging;
pub mod orchestrating;
pub mod results;
pub mod ring;
pub mod text;
pub mod text_map;
pub mod url;
