//! A request-templating runner: request definitions with `$name` placeholders,
//! hooks that run other requests and pick fields out of their JSON results,
//! and a time-limited cache for those results.
//!
//! The definitions of a file are read by `LazyReq::from_file`. A request of
//! them is run by a `Run`: a machine that does no input or output itself.
//! Each `Run::step` takes what happened outside as an `Event` and answers
//! with the `Action` it needs next: a cache entry to read or write, a file
//! or a download to fetch, the resolved request to send. The caller does
//! that and steps again, until the action is `Finished` or `Failed`.

pub mod cache;
pub mod config;
pub mod decimal;
pub mod engine;
pub mod error;
pub mod hex;
pub mod hooks;
pub mod json;
pub mod lazyreq;
pub mod loader;
pub mod machine;
pub mod multipart;
pub mod plain;
pub mod request;
pub mod scanner;
pub mod steps;
pub mod store;
pub mod text;
pub mod timest;
