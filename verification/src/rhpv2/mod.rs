//! The full client: connection set-up, inbound calls and datagrams.

pub mod client;
pub mod laws;

pub use crate::rhp::client::{BufferingSink, NullSink, OpenResult, RhpError, RhpEventSink};
pub use crate::rhp::errors::errcode_to_errno;
pub use crate::rhp::messages::STATUS_CONNECTED;
pub use client::{AcceptInfo, ConnPhase, RhpClient};
