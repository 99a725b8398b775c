//! A minimal static-file HTTP server core: request-line parsing, the
//! per-connection protocol, the listener protocol and the job queue of the
//! worker pool, each with a verified contract.

pub mod text;
pub mod types;
pub mod server;
pub mod parser;
pub mod response;
pub mod resource;
pub mod handler;
pub mod thread_pool;
pub mod listener;
