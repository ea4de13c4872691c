use vm_memory::bitmap::AtomicBitmap;
use vm_memory::mmap::MmapRegionBuilder;
use vm_memory::{GuestAddress, GuestMemoryMmap, GuestRegionMmap};
use vmm::vmm_config::{VmshmDeviceConfig, VmshmRoleConfig};
use vmm::vmshm::error::VmshmError;
use vmm::vmshm::guest_memory::GuestRam;
use vmm::vmshm::region::{
    ranges_overlap, register_region, validate_region, validate_region_beside, UserMemoryRegion,
    VmshmRegion,
};

fn ram(ranges: &[(u64, usize)]) -> GuestRam {
    let mut regions = Vec::new();
    for (start, len) in ranges {
        let mapping = MmapRegionBuilder::new_with_bitmap(*len, None::<AtomicBitmap>)
            .build()
            .unwrap();
        regions.push(GuestRegionMmap::new(mapping, GuestAddress(*start)).unwrap());
    }
    GuestMemoryMmap::from_regions(regions).unwrap()
}

fn region(base: u64, size: u64, slot: u32) -> VmshmRegion {
    VmshmRegion {
        config: VmshmDeviceConfig {
            socket_path: "/run/broker.sock".to_string(),
            name: "vm0".to_string(),
            role: VmshmRoleConfig::Client,
            guest_phys_addr: base,
            slot,
            expected_size: None,
            fdt_node_name: None,
            fdt_compatible: None,
            client_vmid: None,
            notify: None,
        },
        host_addr: 0x7f00_0000_0000,
        window_size: size,
        flags: 3,
        generation: 9,
    }
}

#[test]
fn ranges_that_overlap() {
    assert!(ranges_overlap(0, 10, 5, 15));
    assert!(ranges_overlap(5, 15, 0, 10));
    assert!(ranges_overlap(0, 10, 2, 3));
    assert!(ranges_overlap(2, 3, 0, 10));
    assert!(ranges_overlap(4, 8, 4, 8));
    assert!(!ranges_overlap(0, 10, 10, 20));
    assert!(!ranges_overlap(10, 20, 0, 10));
    assert!(!ranges_overlap(0, 1, u64::MAX - 1, u64::MAX));
}

#[test]
fn an_empty_range_inside_another_counts_as_overlapping() {
    assert!(ranges_overlap(5, 5, 0, 10));
    assert!(!ranges_overlap(5, 5, 5, 5));
    assert!(!ranges_overlap(0, 0, 0, 10));
}

#[test]
fn device_tree_information() {
    let info = region(0xd000_0000, 0x2000, 7).fdt_info();
    assert_eq!(info.guest_phys_addr, 0xd000_0000);
    assert_eq!(info.size, 0x2000);
}

#[test]
fn memory_slot_of_a_window() {
    assert_eq!(
        register_region(&region(0xd000_0000, 0x2000, 7)),
        UserMemoryRegion {
            slot: 7,
            flags: 0,
            guest_phys_addr: 0xd000_0000,
            memory_size: 0x2000,
            userspace_addr: 0x7f00_0000_0000,
        }
    );
}

#[test]
fn windows_beside_mapped_guest_memory() {
    let memory = ram(&[(0, 0x4000), (0x10_0000, 0x2000)]);
    assert!(validate_region(&memory, &region(0x4000, 0x1000, 2), &[]).is_ok());
    assert!(validate_region(&memory, &region(0x10_2000, 0x1000, 9), &[2, 3]).is_ok());
    assert!(matches!(
        validate_region(&memory, &region(0x3000, 0x1000, 2), &[]),
        Err(VmshmError::OverlapsGuestMemory { base: 0x3000, end: 0x4000 })
    ));
    assert!(matches!(
        validate_region(&memory, &region(0xf_f000, 0x2000, 2), &[]),
        Err(VmshmError::OverlapsGuestMemory { base: 0xf_f000, end: 0x10_1000 })
    ));
    assert!(matches!(
        validate_region(&memory, &region(0x8000, 0x1000, 1), &[]),
        Err(VmshmError::SlotCollidesWithGuestMemory(1))
    ));
    assert!(matches!(
        validate_region(&memory, &region(0x8000, 0x1000, 4), &[3, 4]),
        Err(VmshmError::DuplicateSlot(4))
    ));
    assert!(matches!(
        validate_region(&memory, &region(0xffff_ffff_ffff_f000, 0x1000, 4), &[]),
        Err(VmshmError::AddressOverflow)
    ));
}

#[test]
fn the_first_failing_region_check_decides() {
    let far = region(0xffff_ffff_ffff_f000, 0x1000, 0);
    assert!(matches!(
        validate_region_beside(&[(0, 0x1000)], &far, &[0]),
        Err(VmshmError::AddressOverflow)
    ));
    let low = region(0, 0x1000, 0);
    assert!(matches!(
        validate_region_beside(&[(0, 0x1000)], &low, &[0]),
        Err(VmshmError::SlotCollidesWithGuestMemory(0))
    ));
    let used = region(0, 0x1000, 1);
    assert!(matches!(
        validate_region_beside(&[(0, 0x1000)], &used, &[1]),
        Err(VmshmError::DuplicateSlot(1))
    ));
    assert!(matches!(
        validate_region_beside(&[(0, 0x1000)], &used, &[2]),
        Err(VmshmError::OverlapsGuestMemory { base: 0, end: 0x1000 })
    ));
}

#[test]
fn guest_regions_are_judged_in_order() {
    let window = region(0x1000, 0x1000, 5);
    assert!(matches!(
        validate_region_beside(&[(u64::MAX, 1), (0x1000, 1)], &window, &[]),
        Err(VmshmError::AddressOverflow)
    ));
    assert!(matches!(
        validate_region_beside(&[(0x1000, 1), (u64::MAX, 1)], &window, &[]),
        Err(VmshmError::OverlapsGuestMemory { base: 0x1000, end: 0x2000 })
    ));
    assert!(validate_region_beside(&[(0, 0x1000), (0x2000, 0x1000)], &window, &[]).is_ok());
    assert!(validate_region_beside(&[], &region(0, 0, 0), &[]).is_ok());
}
