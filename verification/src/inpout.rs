//! The port driver: its functions, what is sent to it, and how it is
//! brought up.

pub mod interface;
pub mod loader;
