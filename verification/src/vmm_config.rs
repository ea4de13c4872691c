//! Configuration for broker-backed shared memory windows.

use crate::number;
use vstd::prelude::*;

verus! {

/// Role sent to the vmshm broker during the handshake.
#[derive(Clone, Copy, Debug, PartialEq, Eq, Structural)]
pub enum VmshmRoleConfig {
    /// Client participant.
    Client,
    /// Proxy participant.
    Proxy,
}

impl VmshmRoleConfig {
    /// The number that stands for the role in a handshake request.
    pub open spec fn wire(self) -> u16 {
        match self {
            VmshmRoleConfig::Client => 1,
            VmshmRoleConfig::Proxy => 2,
        }
    }

    /// Returns the number that stands for the role in a handshake request.
    pub fn as_wire(self) -> (wire: u16)
        ensures
            wire == self.wire(),
    {
        match self {
            VmshmRoleConfig::Client => 1,
            VmshmRoleConfig::Proxy => 2,
        }
    }
}

/// Optional interrupt notification setup for a vmshm communication window.
#[derive(Clone, Copy, Debug, PartialEq, Eq, Structural)]
pub struct VmshmNotifyConfig {
    /// Doorbell MMIO address. Guest writes here to signal its kick eventfd.
    pub doorbell_addr: u64,
    /// Doorbell MMIO size exposed in the guest device tree.
    pub doorbell_size: u64,
    /// KVM GSI used by irqfd and exposed to the guest FDT node.
    pub irq: u32,
}

/// Configuration for one vmshm shared memory window.
#[derive(Debug, PartialEq, Eq)]
pub struct VmshmDeviceConfig {
    /// Unix domain socket exposed by the vmshm broker domain.
    pub socket_path: String,
    /// Participant name sent to the broker.
    pub name: String,
    /// Participant role sent to the broker.
    pub role: VmshmRoleConfig,
    /// Guest physical address where this shared window is mapped.
    pub guest_phys_addr: u64,
    /// Explicit KVM memory slot used for this shared window.
    pub slot: u32,
    /// Optional expected memfd size. If set, broker replies of another size are rejected.
    pub expected_size: Option<u64>,
    /// Optional FDT node name. Defaults to `vmshm@<guest_phys_addr>`.
    pub fdt_node_name: Option<String>,
    /// Optional FDT compatible string. Defaults to `vmshm`.
    pub fdt_compatible: Option<String>,
    /// Optional client security identity exposed to guest vmshm drivers.
    pub client_vmid: Option<u32>,
    /// Optional ioeventfd/irqfd notification channel for comm windows.
    pub notify: Option<VmshmNotifyConfig>,
}

impl Clone for VmshmDeviceConfig {
    fn clone(&self) -> (copy: Self)
        ensures
            copy == *self,
    {
        VmshmDeviceConfig {
            socket_path: self.socket_path.clone(),
            name: self.name.clone(),
            role: self.role,
            guest_phys_addr: self.guest_phys_addr,
            slot: self.slot,
            expected_size: self.expected_size,
            fdt_node_name: self.fdt_node_name.clone(),
            fdt_compatible: self.fdt_compatible.clone(),
            client_vmid: self.client_vmid,
            notify: self.notify,
        }
    }
}

/// The doorbell size of a notification channel whose configuration gives none.
pub const DEFAULT_DOORBELL_SIZE: u64 = 4096;

/// Returns the doorbell size of a notification channel whose configuration gives none.
pub fn default_doorbell_size() -> (size: u64)
    ensures
        size == DEFAULT_DOORBELL_SIZE,
        read_doorbell_size(None) == Ok::<u64, number::InvalidU64>(size),
{
    DEFAULT_DOORBELL_SIZE
}

/// Whether `value` is what [`default_doorbell_size`] returns, so that it need not be written.
pub fn is_default_doorbell_size(value: &u64) -> (is_default: bool)
    ensures
        is_default == (*value == DEFAULT_DOORBELL_SIZE),
        is_default == (written_doorbell_size(*value) is None),
{
    *value == default_doorbell_size()
}

/// What a configuration file says of a doorbell size: nothing if it is the default, else its
/// hexadecimal string.
pub open spec fn written_doorbell_size(size: u64) -> Option<Seq<char>> {
    if size == DEFAULT_DOORBELL_SIZE {
        None
    } else {
        Some(number::hex_string(size))
    }
}

/// The doorbell size that is read from what a configuration file says.
pub open spec fn read_doorbell_size(written: Option<Seq<char>>) -> Result<u64, number::InvalidU64> {
    match written {
        Some(text) => number::string_value(text),
        None => Ok(DEFAULT_DOORBELL_SIZE),
    }
}

/// A doorbell size is read back from what is written of it, also where that is nothing.
pub proof fn law_doorbell_size_read_back(size: u64)
    ensures
        read_doorbell_size(written_doorbell_size(size)) == Ok::<u64, number::InvalidU64>(size),
{
    number::law_hex_string_read_back(size);
}

/// A client asks the broker as number one and a proxy as number two.
pub proof fn law_roles_on_the_wire(role: VmshmRoleConfig)
    ensures
        role.wire() == 1 <==> role is Client,
        role.wire() == 2 <==> role is Proxy,
{
}

/// Nothing is written of a doorbell size exactly if it is one page, and one page is what is read
/// where nothing is written.
pub proof fn law_doorbell_size_left_out(size: u64)
    ensures
        written_doorbell_size(size) is None <==> size == 0x1000,
        read_doorbell_size(None) == Ok::<u64, number::InvalidU64>(0x1000),
{
}

} // verus!
