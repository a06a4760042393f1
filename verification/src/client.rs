//! The clients of the three dialects and the error they share.
pub mod error;
pub mod log_service;
pub mod roa;
pub mod rpc;
