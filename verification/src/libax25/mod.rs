//! Address and configuration helpers.

pub mod addr;
pub mod config;
pub mod laws;
pub mod rose;
