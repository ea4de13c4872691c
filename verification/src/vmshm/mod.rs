//! Memory windows that a virtual machine shares through a vmshm broker.

pub mod attach;
pub mod course;
pub mod error;
pub mod guest_memory;
pub mod handshake;
pub mod laws;
pub mod region;
