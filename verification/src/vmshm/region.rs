//! A window in the guest physical address space.

use super::error::VmshmError;
use super::guest_memory;
use super::guest_memory::GuestRam;
use crate::vmm_config::VmshmDeviceConfig;
use vstd::prelude::*;

verus! {

/// Device-tree information for a registered vmshm memory window.
#[derive(Clone, Copy, Debug)]
pub struct VmshmFdtInfo {
    /// Guest physical base address.
    pub guest_phys_addr: u64,
    /// Window size in bytes.
    pub size: u64,
}

/// A window that the broker granted and that is mapped on the host.
#[derive(Debug)]
pub struct VmshmRegion {
    /// The configuration of the window.
    pub config: VmshmDeviceConfig,
    /// Host virtual address of the mapping.
    pub host_addr: u64,
    /// Window size in bytes.
    pub window_size: u64,
    /// Flags of the window.
    pub flags: u32,
    /// Generation of the window.
    pub generation: u64,
}

/// A memory slot as KVM is told of it.
#[derive(Clone, Copy, Debug, PartialEq, Eq, Structural)]
pub struct UserMemoryRegion {
    /// Number of the slot.
    pub slot: u32,
    /// Flags of the slot.
    pub flags: u32,
    /// Guest physical base address.
    pub guest_phys_addr: u64,
    /// Size in bytes.
    pub memory_size: u64,
    /// Host virtual address of the backing memory.
    pub userspace_addr: u64,
}

impl VmshmRegion {
    /// Returns where the device tree places the window.
    pub fn fdt_info(&self) -> (info: VmshmFdtInfo)
        ensures
            info == self.spec_fdt_info(),
            info.guest_phys_addr == self.config.guest_phys_addr,
            info.size == self.window_size,
    {
        VmshmFdtInfo { guest_phys_addr: self.config.guest_phys_addr, size: self.window_size }
    }

    /// Where the device tree places the window.
    pub open spec fn spec_fdt_info(self) -> VmshmFdtInfo {
        VmshmFdtInfo { guest_phys_addr: self.config.guest_phys_addr, size: self.window_size }
    }

    /// The memory slot of the window.
    pub open spec fn user_memory(self) -> UserMemoryRegion {
        UserMemoryRegion {
            slot: self.config.slot,
            flags: 0,
            guest_phys_addr: self.config.guest_phys_addr,
            memory_size: self.window_size,
            userspace_addr: self.host_addr,
        }
    }
}

/// Returns the memory slot under which KVM is to know the window.
pub fn register_region(region: &VmshmRegion) -> (slot: UserMemoryRegion)
    ensures
        slot == region.user_memory(),
        slot.slot == region.config.slot,
        slot.flags == 0,
        slot.guest_phys_addr == region.config.guest_phys_addr,
        slot.memory_size == region.window_size,
        slot.userspace_addr == region.host_addr,
{
    UserMemoryRegion {
        slot: region.config.slot,
        flags: 0,
        guest_phys_addr: region.config.guest_phys_addr,
        memory_size: region.window_size,
        userspace_addr: region.host_addr,
    }
}

/// Whether `addr` lies in the range from `base` up to, not including, `end`.
pub open spec fn in_range(addr: int, base: int, end: int) -> bool {
    base <= addr < end
}

/// Whether each of the two ranges starts before the other ends.
pub open spec fn overlap(left_base: int, left_end: int, right_base: int, right_end: int) -> bool {
    left_base < right_end && right_base < left_end
}

/// Returns whether each of the two ranges starts before the other ends.
pub fn ranges_overlap(left_base: u64, left_end: u64, right_base: u64, right_end: u64) -> (answer:
    bool)
    ensures
        answer == overlap(
            left_base as int,
            left_end as int,
            right_base as int,
            right_end as int,
        ),
{
    left_base < right_end && right_base < left_end
}

/// Two ranges share an address if and only if they overlap and neither of them is empty.
pub proof fn law_overlap_is_common_address(
    left_base: u64,
    left_end: u64,
    right_base: u64,
    right_end: u64,
)
    ensures
        (exists|addr: int| #[trigger]
            in_range(addr, left_base as int, left_end as int) && in_range(
                addr,
                right_base as int,
                right_end as int,
            )) <==> overlap(
            left_base as int,
            left_end as int,
            right_base as int,
            right_end as int,
        ) && left_base < left_end && right_base < right_end,
{
    if overlap(left_base as int, left_end as int, right_base as int, right_end as int) && left_base
        < left_end && right_base < right_end {
        let addr = if left_base < right_base {
            right_base as int
        } else {
            left_base as int
        };
        assert(in_range(addr, left_base as int, left_end as int));
        assert(in_range(addr, right_base as int, right_end as int));
    }
}

/// It does not matter which of two ranges is named first.
pub proof fn law_overlap_symmetric(
    left_base: u64,
    left_end: u64,
    right_base: u64,
    right_end: u64,
)
    ensures
        overlap(left_base as int, left_end as int, right_base as int, right_end as int)
            == overlap(right_base as int, right_end as int, left_base as int, left_end as int),
{
}

/// How many KVM slots guest RAM takes, as far as a slot number can say.
pub open spec fn ram_slots(ram: Seq<(u64, u64)>) -> int {
    if ram.len() <= u32::MAX {
        ram.len() as int
    } else {
        u32::MAX as int
    }
}

/// Whether a region of guest RAM ends within the address space and the range from `base` to
/// `end` does not overlap it.
pub open spec fn clear_of(ram_region: (u64, u64), base: int, end: int) -> bool {
    &&& ram_region.0 + ram_region.1 <= u64::MAX
    &&& !overlap(base, end, ram_region.0 as int, ram_region.0 + ram_region.1)
}

/// What guest RAM says to a window from `base` to `end`: the first region that is in the way
/// decides.
pub open spec fn ram_verdict(ram: Seq<(u64, u64)>, base: u64, end: u64) -> Result<(), VmshmError>
    decreases ram.len(),
{
    if ram.len() == 0 {
        Ok(())
    } else if ram[0].0 + ram[0].1 > u64::MAX {
        Err(VmshmError::AddressOverflow)
    } else if overlap(base as int, end as int, ram[0].0 as int, ram[0].0 + ram[0].1) {
        Err(VmshmError::OverlapsGuestMemory { base, end })
    } else {
        ram_verdict(ram.drop_first(), base, end)
    }
}

/// Whether a window can stand beside guest RAM and the slots that are taken.
pub open spec fn region_acceptable(
    ram: Seq<(u64, u64)>,
    region: VmshmRegion,
    used_slots: Seq<u32>,
) -> bool {
    let base = region.config.guest_phys_addr;
    let end = base + region.window_size;
    &&& end <= u64::MAX
    &&& ram_slots(ram) <= region.config.slot
    &&& !used_slots.contains(region.config.slot)
    &&& forall|i: int| 0 <= i < ram.len() ==> clear_of(#[trigger] ram[i], base as int, end)
}

/// What [`validate_region`] says of a window: the first of its checks that fails decides.
pub open spec fn region_verdict(
    ram: Seq<(u64, u64)>,
    region: VmshmRegion,
    used_slots: Seq<u32>,
) -> Result<(), VmshmError> {
    let base = region.config.guest_phys_addr;
    let end = base + region.window_size;
    if end > u64::MAX {
        Err(VmshmError::AddressOverflow)
    } else if region.config.slot < ram_slots(ram) {
        Err(VmshmError::SlotCollidesWithGuestMemory(region.config.slot))
    } else if used_slots.contains(region.config.slot) {
        Err(VmshmError::DuplicateSlot(region.config.slot))
    } else {
        ram_verdict(ram, base, end as u64)
    }
}

/// Guest RAM accepts a window exactly where every region is clear of it.
proof fn lemma_ram_verdict(ram: Seq<(u64, u64)>, base: u64, end: u64)
    ensures
        ram_verdict(ram, base, end) is Ok <==> forall|i: int|
            0 <= i < ram.len() ==> clear_of(#[trigger] ram[i], base as int, end as int),
    decreases ram.len(),
{
    if ram.len() > 0 {
        let rest = ram.drop_first();
        lemma_ram_verdict(rest, base, end);
        if forall|i: int| 0 <= i < ram.len() ==> clear_of(#[trigger] ram[i], base as int, end as int) {
            assert forall|i: int| 0 <= i < rest.len() implies clear_of(
                #[trigger] rest[i],
                base as int,
                end as int,
            ) by {
                assert(rest[i] == ram[i + 1]);
            }
        }
        if ram_verdict(ram, base, end) is Ok {
            assert forall|i: int| 0 <= i < ram.len() implies clear_of(
                #[trigger] ram[i],
                base as int,
                end as int,
            ) by {
                if i > 0 {
                    assert(rest[i - 1] == ram[i]);
                }
            }
        }
    }
}

/// A window passes all checks exactly where it can stand beside guest RAM and the slots that
/// are taken.
pub proof fn law_region_accepted(ram: Seq<(u64, u64)>, region: VmshmRegion, used_slots: Seq<u32>)
    ensures
        region_verdict(ram, region, used_slots) is Ok <==> region_acceptable(
            ram,
            region,
            used_slots,
        ),
{
    let base = region.config.guest_phys_addr;
    if base + region.window_size <= u64::MAX {
        lemma_ram_verdict(ram, base, (base + region.window_size) as u64);
    }
}

/// The window is refused for guest RAM by the first region, in the order of the list, that is
/// not clear of it.
pub proof fn law_first_region_decides(ram: Seq<(u64, u64)>, base: u64, end: u64, i: int)
    requires
        0 <= i < ram.len(),
        !clear_of(ram[i], base as int, end as int),
        forall|j: int| 0 <= j < i ==> clear_of(#[trigger] ram[j], base as int, end as int),
    ensures
        ram_verdict(ram, base, end) == if ram[i].0 + ram[i].1 > u64::MAX {
            Err::<(), _>(VmshmError::AddressOverflow)
        } else {
            Err::<(), _>(VmshmError::OverlapsGuestMemory { base, end })
        },
    decreases ram.len(),
{
    if i > 0 {
        assert(clear_of(ram[0], base as int, end as int));
        let rest = ram.drop_first();
        assert forall|j: int| 0 <= j < i - 1 implies clear_of(
            #[trigger] rest[j],
            base as int,
            end as int,
        ) by {
            assert(rest[j] == ram[j + 1]);
        }
        law_first_region_decides(rest, base, end, i - 1);
    }
}

/// A window that is accepted shares no address with guest RAM.
pub proof fn law_accepted_window_clear_of_ram(
    ram: Seq<(u64, u64)>,
    region: VmshmRegion,
    used_slots: Seq<u32>,
    addr: int,
    i: int,
)
    requires
        region_verdict(ram, region, used_slots) is Ok,
        0 <= i < ram.len(),
        in_range(
            addr,
            region.config.guest_phys_addr as int,
            region.config.guest_phys_addr + region.window_size,
        ),
    ensures
        !in_range(addr, ram[i].0 as int, ram[i].0 + ram[i].1),
{
    let base = region.config.guest_phys_addr;
    law_region_accepted(ram, region, used_slots);
    assert(clear_of(ram[i], base as int, base + region.window_size));
}

/// A window that is accepted has a slot behind those of guest RAM, as long as the regions of
/// guest RAM can be counted in a slot number.
pub proof fn law_accepted_slot_behind_ram(
    ram: Seq<(u64, u64)>,
    region: VmshmRegion,
    used_slots: Seq<u32>,
)
    requires
        region_verdict(ram, region, used_slots) is Ok,
        ram.len() <= u32::MAX,
    ensures
        ram.len() <= region.config.slot,
{
}

/// Checks that a window can stand beside guest RAM and the slots that are taken.
pub fn validate_region(
    guest_memory: &GuestRam,
    region: &VmshmRegion,
    used_slots: &[u32],
) -> (verdict: Result<(), VmshmError>)
    ensures
        verdict == region_verdict(
            guest_memory::guest_regions(*guest_memory),
            *region,
            used_slots@,
        ),
        verdict is Ok <==> region_acceptable(
            guest_memory::guest_regions(*guest_memory),
            *region,
            used_slots@,
        ),
{
    let ranges: Vec<(u64, u64)> = guest_memory::region_ranges(guest_memory);
    validate_region_beside(ranges.as_slice(), region, used_slots)
}

/// Checks that a window can stand beside the regions of guest RAM that `ram` lists, each as its
/// start address and its length, and the slots that are taken.
pub fn validate_region_beside(
    ram: &[(u64, u64)],
    region: &VmshmRegion,
    used_slots: &[u32],
) -> (verdict: Result<(), VmshmError>)
    ensures
        verdict == region_verdict(ram@, *region, used_slots@),
        verdict is Ok <==> region_acceptable(ram@, *region, used_slots@),
{
    let base: u64 = region.config.guest_phys_addr;
    let end: u64 = match base.checked_add(region.window_size) {
        Some(end) => end,
        None => {
            return Err(VmshmError::AddressOverflow);
        },
    };
    proof {
        law_region_accepted(ram@, *region, used_slots@);
    }
    let count: usize = ram.len();
    let guest_memory_slots: u32 = if count > u32::MAX as usize {
        u32::MAX
    } else {
        count as u32
    };

    if region.config.slot < guest_memory_slots {
        return Err(VmshmError::SlotCollidesWithGuestMemory(region.config.slot));
    }
    if slot_in(used_slots, region.config.slot) {
        return Err(VmshmError::DuplicateSlot(region.config.slot));
    }
    let mut at: usize = 0;
    assert(ram@.skip(0) =~= ram@);
    while at < count
        invariant
            count == ram@.len(),
            at <= count,
            ram_verdict(ram@.skip(at as int), base, end) == ram_verdict(ram@, base, end),
            base == region.config.guest_phys_addr,
            end == base + region.window_size,
            region_verdict(ram@, *region, used_slots@) == ram_verdict(ram@, base, end),
            region_verdict(ram@, *region, used_slots@) is Ok <==> region_acceptable(
                ram@,
                *region,
                used_slots@,
            ),
        decreases count - at,
    {
        let (guest_base, guest_len): (u64, u64) = ram[at];
        assert(ram@.skip(at as int)[0] == (guest_base, guest_len));
        assert(ram@.skip(at as int).drop_first() =~= ram@.skip(at + 1));
        let guest_end: u64 = match guest_base.checked_add(guest_len) {
            Some(guest_end) => guest_end,
            None => {
                return Err(VmshmError::AddressOverflow);
            },
        };
        if ranges_overlap(base, end, guest_base, guest_end) {
            return Err(VmshmError::OverlapsGuestMemory { base, end });
        }
        at = at + 1;
    }
    Ok(())
}

/// Whether `slot` is among `used_slots`.
fn slot_in(used_slots: &[u32], slot: u32) -> (found: bool)
    ensures
        found == used_slots@.contains(slot),
{
    let count: usize = used_slots.len();
    let mut at: usize = 0;
    while at < count
        invariant
            count == used_slots@.len(),
            at <= count,
            forall|j: int| 0 <= j < at ==> #[trigger] used_slots@[j] != slot,
        decreases count - at,
    {
        if used_slots[at] == slot {
            return true;
        }
        at = at + 1;
    }
    false
}

/// KVM is told of the whole window: it maps all of the host memory behind the window to the
/// guest address and under the slot that the configuration says, and the device tree tells the
/// guest of exactly that memory.
pub proof fn law_slot_is_whole_window(region: VmshmRegion)
    ensures
        ({
            let slot = region.user_memory();
            &&& slot.slot == region.config.slot
            &&& slot.flags == 0
            &&& slot.guest_phys_addr == region.config.guest_phys_addr
            &&& slot.memory_size == region.window_size
            &&& slot.userspace_addr == region.host_addr
            &&& region.spec_fdt_info().guest_phys_addr == slot.guest_phys_addr
            &&& region.spec_fdt_info().size == slot.memory_size
        }),
{
}

/// Two ranges do not overlap exactly if one of them ends before the other starts.
pub proof fn law_no_overlap_is_order(left_base: int, left_end: int, right_base: int, right_end: int)
    ensures
        overlap(left_base, left_end, right_base, right_end) <==> !(left_end <= right_base
            || right_end <= left_base),
{
}

/// A window is taken exactly if it ends within the address space, its slot lies behind those of
/// guest RAM and is not taken, and every region of guest RAM ends before it or starts behind it.
/// It is refused for the first of these that does not hold, and the regions of guest RAM are
/// asked in their order.
pub proof fn law_region_judged(ram: Seq<(u64, u64)>, region: VmshmRegion, used_slots: Seq<u32>)
    ensures
        ({
            let slot = region.config.slot;
            let base = region.config.guest_phys_addr as int;
            let end = base + region.window_size;
            let fits = end <= 0xffff_ffff_ffff_ffff;
            let behind = fits && (slot >= ram.len() || slot == 0xffff_ffff);
            let is_free = behind && forall|j: int|
                0 <= j < used_slots.len() ==> #[trigger] used_slots[j] != slot;
            match region_verdict(ram, region, used_slots) {
                Ok(_) => is_free && forall|i: int|
                    0 <= i < ram.len() ==> (#[trigger] ram[i]).0 + ram[i].1
                        <= 0xffff_ffff_ffff_ffff && (end <= ram[i].0 || ram[i].0 + ram[i].1
                        <= base),
                Err(VmshmError::SlotCollidesWithGuestMemory(told)) => fits && !behind && told
                    == slot,
                Err(VmshmError::DuplicateSlot(told)) => behind && !is_free && told == slot,
                Err(VmshmError::OverlapsGuestMemory { base: told_base, end: told_end }) => {
                    &&& is_free
                    &&& told_base == base
                    &&& told_end == end
                    &&& exists|i: int|
                        {
                            &&& 0 <= i < ram.len()
                            &&& (#[trigger] ram[i]).0 + ram[i].1 <= 0xffff_ffff_ffff_ffff
                            &&& base < ram[i].0 + ram[i].1 && ram[i].0 < end
                            &&& forall|j: int|
                                0 <= j < i ==> (#[trigger] ram[j]).0 + ram[j].1
                                    <= 0xffff_ffff_ffff_ffff && (end <= ram[j].0 || ram[j].0
                                    + ram[j].1 <= base)
                        }
                },
                Err(VmshmError::AddressOverflow) => !fits || (is_free && exists|i: int|
                    {
                        &&& 0 <= i < ram.len()
                        &&& (#[trigger] ram[i]).0 + ram[i].1 > 0xffff_ffff_ffff_ffff
                        &&& forall|j: int|
                            0 <= j < i ==> (#[trigger] ram[j]).0 + ram[j].1
                                <= 0xffff_ffff_ffff_ffff && (end <= ram[j].0 || ram[j].0 + ram[j].1
                                <= base)
                    }),
                Err(_) => false,
            }
        }),
{
    let slot = region.config.slot;
    let base = region.config.guest_phys_addr;
    let end = base + region.window_size;
    law_region_accepted(ram, region, used_slots);
    if used_slots.contains(slot) {
        let j = choose|j: int| 0 <= j < used_slots.len() && used_slots[j] == slot;
        assert(used_slots[j] == slot);
    } else {
        assert forall|j: int| 0 <= j < used_slots.len() implies #[trigger] used_slots[j] != slot by {
            assert(used_slots.contains(used_slots[j]));
        }
    }
    if region_verdict(ram, region, used_slots) is Ok {
        assert forall|i: int| 0 <= i < ram.len() implies (#[trigger] ram[i]).0 + ram[i].1
            <= u64::MAX && (end <= ram[i].0 || ram[i].0 + ram[i].1 <= base) by {
            assert(clear_of(ram[i], base as int, end));
        }
    } else if end <= u64::MAX && ram_slots(ram) <= slot && !used_slots.contains(slot) {
        let i = lemma_first_in_the_way(ram, base, end as u64);
        law_first_region_decides(ram, base, end as u64, i);
        assert forall|j: int| 0 <= j < i implies (#[trigger] ram[j]).0 + ram[j].1 <= u64::MAX && (
        end <= ram[j].0 || ram[j].0 + ram[j].1 <= base) by {
            assert(clear_of(ram[j], base as int, end));
        }
        assert(ram[i].0 + ram[i].1 > u64::MAX || (base < ram[i].0 + ram[i].1 && ram[i].0 < end));
    }
}

/// Where guest RAM refuses a window, there is a first region that is in the way.
proof fn lemma_first_in_the_way(ram: Seq<(u64, u64)>, base: u64, end: u64) -> (i: int)
    requires
        ram_verdict(ram, base, end) is Err,
    ensures
        0 <= i < ram.len(),
        !clear_of(ram[i], base as int, end as int),
        forall|j: int| 0 <= j < i ==> clear_of(#[trigger] ram[j], base as int, end as int),
    decreases ram.len(),
{
    if !clear_of(ram[0], base as int, end as int) {
        0
    } else {
        let rest = ram.drop_first();
        let i = lemma_first_in_the_way(rest, base, end);
        assert forall|j: int| 0 <= j < i + 1 implies clear_of(
            #[trigger] ram[j],
            base as int,
            end as int,
        ) by {
            if j > 0 {
                assert(rest[j - 1] == ram[j]);
            }
        }
        i + 1
    }
}

} // verus!
