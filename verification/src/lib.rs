//! Synchronous resource-registry and bridging layer for an anonymity-network
//! client: handle registries for circuits and byte streams, deterministic
//! stream-identifier generation, HTTP request planning and response framing.

pub mod errors;
pub mod http;
pub mod ident;
pub mod json;
pub mod registry;
pub mod session;
