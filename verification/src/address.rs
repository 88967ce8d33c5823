//! Sv39 addresses and page numbers.
//!
//! The kernel runs on RV64, so machine words are modelled as `u64`.

use vstd::prelude::*;

verus! {

/// Size of a page in bytes.
pub const PAGE_SIZE: u64 = 0x1000;

/// Number of low address bits that index into a page.
pub const PAGE_SIZE_BITS: u64 = 0xc;

/// Offset between a kernel virtual address and the physical address it maps to.
pub const KERNEL_MAP_OFFSET: u64 = 0xffff_ffff_0000_0000;

/// Kernel page numbers start this many pages above the physical page they map.
pub const KERNEL_PAGE_OFFSET: u64 = 0xffff_ffff_0000_0;

/// Page table entries per page table.
pub const ENTRIES_PER_TABLE: u64 = 512;

#[derive(Clone, Copy, PartialEq, Eq, Structural, Debug)]
pub struct PhysicalAddress(pub u64);

#[derive(Clone, Copy, PartialEq, Eq, Structural, Debug)]
pub struct VirtualAddress(pub u64);

#[derive(Clone, Copy, PartialEq, Eq, Structural, Debug)]
pub struct PhysicalPageNumber(pub u64);

#[derive(Clone, Copy, PartialEq, Eq, Structural, Debug)]
pub struct VirtualPageNumber(pub u64);

/// The index into the page table of level `level` (0 is the root) that
/// translating the virtual page `vpn` reads.
pub open spec fn level_index(vpn: u64, level: int) -> u64 {
    if level == 0 {
        (vpn / 0x40000) % 512
    } else if level == 1 {
        (vpn / 0x200) % 512
    } else {
        vpn % 512
    }
}

impl PhysicalPageNumber {
    /// The physical page number zero.
    pub fn default() -> (p: Self)
        ensures
            p.0 == 0,
    {
        PhysicalPageNumber(0)
    }

    /// The physical page that the kernel maps at virtual page `vpn`.
    pub fn from_kernel_vpn(vpn: VirtualPageNumber) -> (p: Self)
        requires
            vpn.0 >= KERNEL_PAGE_OFFSET,
        ensures
            p.0 == vpn.0 - KERNEL_PAGE_OFFSET,
    {
        PhysicalPageNumber(vpn.0 - KERNEL_PAGE_OFFSET)
    }
}

impl PhysicalAddress {
    /// Start address of physical page `ppn`.
    pub fn from_page_number(ppn: PhysicalPageNumber) -> (a: Self)
        requires
            ppn.0 * PAGE_SIZE <= u64::MAX,
        ensures
            a.0 == ppn.0 * PAGE_SIZE,
    {
        PhysicalAddress(ppn.0 * PAGE_SIZE)
    }
}

impl VirtualAddress {
    /// Start address of virtual page `vpn`.
    pub fn from_page_number(vpn: VirtualPageNumber) -> (a: Self)
        requires
            vpn.0 * PAGE_SIZE <= u64::MAX,
        ensures
            a.0 == vpn.0 * PAGE_SIZE,
    {
        VirtualAddress(vpn.0 * PAGE_SIZE)
    }
}

impl VirtualPageNumber {
    /// The page that holds `address`.
    pub fn floor(address: VirtualAddress) -> (p: Self)
        ensures
            p.0 == address.0 / PAGE_SIZE,
    {
        VirtualPageNumber(address.0 / PAGE_SIZE)
    }

    /// The first page that starts at or after `address`.
    pub fn ceil(address: VirtualAddress) -> (p: Self)
        ensures
            p.0 == address.0 / PAGE_SIZE + if address.0 % PAGE_SIZE == 0 { 0int } else { 1int },
    {
        if address.0 % PAGE_SIZE == 0 {
            VirtualPageNumber(address.0 / PAGE_SIZE)
        } else {
            VirtualPageNumber(address.0 / PAGE_SIZE + 1)
        }
    }

    /// The three page-table indices, root level first, of this page.
    pub fn levels(&self) -> (r: [u64; 3])
        ensures
            forall|l: int| 0 <= l < 3 ==> #[trigger] r@[l] == level_index(self.0, l),
            forall|l: int| 0 <= l < 3 ==> #[trigger] r@[l] < 512,
    {
        let v = self.0;
        let a = (v >> 18u64) & 0x1ff;
        let b = (v >> 9u64) & 0x1ff;
        let c = v & 0x1ff;
        assert(a == (v / 0x40000) % 512) by (bit_vector)
            requires a == (v >> 18u64) & 0x1ff;
        assert(b == (v / 0x200) % 512) by (bit_vector)
            requires b == (v >> 9u64) & 0x1ff;
        assert(c == v % 512) by (bit_vector)
            requires c == v & 0x1ff;
        [a, b, c]
    }
}

/// A half-open range of values.
#[derive(Clone, Copy, PartialEq, Eq, Structural, Debug)]
pub struct Range<T> {
    pub start: T,
    pub end: T,
}

} // verus!
