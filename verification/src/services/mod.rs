//! Core services: an in-memory file system, the server in front of it, the service
//! directory, and a demo.

pub mod memfs;
pub mod pong;
pub mod registry;
pub mod selftest;
pub mod server;
pub mod vfs;
