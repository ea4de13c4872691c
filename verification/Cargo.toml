[package]
name = "vmm"
version = "0.1.0"
edition = "2021"
publish = false

[dependencies]
displaydoc = "=0.2.7"
kvm-bindings = "=0.11.1"
kvm-ioctls = "=0.21.0"
libc = "=0.2.191"
log = "=0.4.35"
serde = { version = "=1.0.229", features = ["derive"] }
thiserror = "=2.0.21"
vm-memory = { version = "=0.16.2", features = ["backend-mmap", "backend-bitmap"] }
vmm-sys-util = "=0.12.1"
