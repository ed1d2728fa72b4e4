//! Networking: the sockets of the TCP/IP stack, and the echo service.

pub mod echo;
pub mod model;
pub mod socket_laws;
pub mod sockets;
pub mod stack;
