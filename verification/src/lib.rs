//! Carrying a light-wallet gRPC connection over a mixnet, transparently to both ends.
//!
//! Two processes, each a byte pipe:
//!
//! ```text
//! wallet --TCP--> [lwd-mixnet-client] --mixnet--> [lwd-mixnet-server] --TCP--> lightwalletd
//! ```
//!
//! This crate holds the decisions those processes make: how a half reports its startup, when a
//! spliced connection has stopped answering, how stream attempts are grouped into rounds, and how
//! the observability endpoint answers. The waiting and the I/O live with the callers.

pub mod health;
pub mod splice;
pub mod dial;
pub mod endpoint;
pub mod measure;
pub mod operations;
