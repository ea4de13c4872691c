//! Shared-memory windows and GPU interrupts for a virtual machine monitor.

pub mod gpu_bindings;
pub mod gpu_passthrough;
pub mod little_endian;
pub mod number;
pub mod pmthor;
pub mod vmm_config;
pub mod vmshm;
