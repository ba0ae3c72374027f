//! Verified core of a user-space AX.25 socket stack.

pub mod errno;
pub mod interpose;
pub mod libax25;
pub mod rhp;
pub mod rhpv2;
pub mod text;
