//! The RHPv2 wire protocol: framing, messages and the base client.

pub mod client;
pub mod codec;
pub mod errors;
pub mod framing;
pub mod json;
pub mod laws;
pub mod messages;

