//! Reconstruction of prompt sessions from line-delimited assistant event logs.
//!
//! A session log is a file of newline-separated JSON event records. This
//! library decodes each record into a typed event, runs a single-pass state
//! machine that groups assistant activity under the genuine user prompt that
//! precedes it, and merges the sessions of many files into one list sorted
//! newest-first by timestamp.

pub mod accumulator;
pub mod aggregate;
pub mod decode;
pub mod event;
pub mod json;
pub mod laws;
pub mod order;
pub mod path_encode;
pub mod session;
pub mod strings;
pub mod types;
