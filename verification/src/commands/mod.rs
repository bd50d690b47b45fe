//! The pure parts of the commands that the user interface invokes.

pub mod java;
pub mod server;
