//! Backtrace reconstruction for TriCore targets: trap-table classification,
//! symbol-resolution caching and ordering of the reconstructed frames.
pub mod addr2line;
pub mod backtrace;
pub mod breakpoint;
pub mod connection;
pub mod snapshot;
pub mod trap_info;
