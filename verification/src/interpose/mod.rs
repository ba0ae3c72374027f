//! Decisions behind the socket calls that are served for AX.25 sockets.
//!
//! An AX.25 socket is one end of a socket pair. What each call does to the state
//! of its socket, which requests it makes and what it returns is decided here;
//! the file descriptors themselves are handled around it.

pub mod addr;
pub mod calls;
pub mod dgram;
pub mod laws;
pub mod link;
pub mod sink;
pub mod state;
