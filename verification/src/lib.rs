//! Server-side request-dispatch core of a message-bus RPC framework:
//! objects addressed by hierarchical paths, grouped into named interfaces
//! exposing methods, with a per-call context and a checkout/return protocol
//! that makes handler invocation reentrant.

pub mod context;
pub mod crossroads;
pub mod registry;
pub mod error;
pub mod laws;
pub mod message;
pub mod order;
