//! Errors of the vmshm attachment.

use vstd::prelude::*;

verus! {

/// Declares [`std::io::Error`]: an operating-system or I/O failure that is carried unopened.
#[verifier::external_type_specification]
#[verifier::external_body]
pub struct ExIoError(std::io::Error);

/// Declares [`vm_memory::mmap::MmapRegionError`]: a failed mapping that is carried unopened.
#[verifier::external_type_specification]
#[verifier::external_body]
pub struct ExMmapRegionError(vm_memory::mmap::MmapRegionError);

/// Declares [`kvm_ioctls::Error`]: the error number of a KVM ioctl that is carried unopened.
#[verifier::external_type_specification]
#[verifier::external_body]
pub struct ExKvmError(kvm_ioctls::Error);

/// Errors returned while attaching vmshm broker-backed memory.
#[derive(Debug)]
pub enum VmshmError {
    /// The participant name is empty.
    EmptyName,
    /// The participant name has this many bytes, too many for its length field.
    NameTooLong(usize),
    /// The broker socket cannot be connected to.
    Connect {
        /// Broker socket path.
        socket_path: String,
        /// Underlying I/O error.
        source: std::io::Error,
    },
    /// The handshake request cannot be written.
    WriteRequest(std::io::Error),
    /// The handshake reply cannot be received.
    RecvReply(std::io::Error),
    /// The reply has this many bytes in place of [`REPLY_LEN`](super::handshake::REPLY_LEN).
    ShortReply(usize),
    /// The reply carries no memfd.
    MissingFd,
    /// The reply starts with this magic.
    BadMagic(u32),
    /// The reply is of this version.
    BadVersion(u16),
    /// The broker rejected the handshake with this status.
    BrokerStatus(u16),
    /// The broker returned an empty memory window.
    EmptyWindow,
    /// This window size is not guest-page aligned.
    WindowSizeNotAligned(u64),
    /// This guest physical address is not guest-page aligned.
    GuestAddressNotAligned(u64),
    /// The window does not have the size that the configuration expects.
    SizeMismatch {
        /// Expected window size.
        expected: u64,
        /// Actual broker window size.
        actual: u64,
    },
    /// The window overlaps guest RAM.
    OverlapsGuestMemory {
        /// Window base.
        base: u64,
        /// Exclusive window end.
        end: u64,
    },
    /// This KVM slot belongs to guest RAM.
    SlotCollidesWithGuestMemory(u32),
    /// This KVM slot is taken by another window.
    DuplicateSlot(u32),
    /// A memory range overflows the guest physical address space.
    AddressOverflow,
    /// A window of this size cannot be mapped on this host.
    WindowTooLarge(u64),
    /// The memfd cannot be mapped.
    Mmap(vm_memory::mmap::MmapRegionError),
    /// KVM rejected the memory slot.
    SetUserMemoryRegion(kvm_ioctls::Error),
}

} // verus!
