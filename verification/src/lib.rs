//! Request signing for the Aliyun OpenAPI gateway.
//!
//! The crate turns a request (method, action or path, query, headers, body)
//! into the canonical string of its dialect, signs it with HMAC-SHA1 and
//! describes the signed request that a transport has to send.
pub mod canonical;
pub mod client;
pub mod encode;
pub mod endpoint;
pub mod header_sign;
pub mod headers;
pub mod moment;
pub mod order;
pub mod outside;
pub mod params;
pub mod plain_call;
pub mod query_sign;
pub mod request;
pub mod roa;
pub mod rpc;
pub mod sign;
pub mod text;

pub use crate::roa::Client as ROAClient;
pub use crate::rpc::Client as RPClient;
