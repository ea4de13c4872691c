//! The guest RAM that a window has to stay clear of.

use vm_memory::bitmap::AtomicBitmap;
use vm_memory::{Address, GuestMemory, GuestMemoryRegion};
use vstd::prelude::*;

verus! {

/// Declares [`vm_memory::GuestMemoryMmap`]: guest RAM as a list of mapped regions.
#[verifier::external_type_specification]
#[verifier::external_body]
#[verifier::reject_recursive_types(B)]
pub struct ExGuestMemoryMmap<B>(vm_memory::GuestMemoryMmap<B>);

/// Declares [`AtomicBitmap`]: the dirty-page bitmap that a region may have.
#[verifier::external_type_specification]
#[verifier::external_body]
pub struct ExAtomicBitmap(AtomicBitmap);

/// Guest RAM, with optional dirty-page tracking.
pub type GuestRam = vm_memory::GuestMemoryMmap<Option<AtomicBitmap>>;

/// The regions of guest RAM in the order in which [`GuestMemory::iter`] hands them out, each as
/// its start address and its length in bytes.
pub uninterp spec fn guest_regions(guest_memory: GuestRam) -> Seq<(u64, u64)>;

/// Walks guest RAM with [`GuestMemory::iter`] and reads of each region its
/// [`start_addr`](GuestMemoryRegion::start_addr) and its [`len`](GuestMemoryRegion::len).
///
/// Trusted: the walk hands out every region once, always in the same order, and nothing that
/// the regions hold changes their number, their addresses or their lengths.
#[verifier::external_body]
pub(crate) fn region_ranges(guest_memory: &GuestRam) -> (ranges: Vec<(u64, u64)>)
    ensures
        ranges@ == guest_regions(*guest_memory),
{
    guest_memory.iter().map(|region| (region.start_addr().raw_value(), region.len())).collect()
}

} // verus!
