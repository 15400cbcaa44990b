//! Verified core of a loopback TCP port scanner.
//!
//! The crate holds the logic of the scanner: validation of the requested
//! port range and the dispatcher state machine that hands out probe tasks
//! under a concurrency ceiling and aggregates their outcomes. The network
//! probes themselves, the progress display and the process glue live in an
//! unverified front end that drives this library.

pub mod args;
pub mod dispatch;
