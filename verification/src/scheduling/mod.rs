//! Choosing the worker that serves a request.

pub mod candidates;
pub mod config;
pub mod formula;
pub mod laws;
pub mod lowest;
pub mod selector;
pub mod softmax;
pub mod tie_break;
pub mod types;
pub mod workers;
