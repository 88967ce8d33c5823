//! Segments: contiguous virtual ranges mapped the same way with the same flags.

use vstd::prelude::*;
use crate::address::{
    PhysicalPageNumber, Range, VirtualAddress, VirtualPageNumber, KERNEL_MAP_OFFSET,
    KERNEL_PAGE_OFFSET, PAGE_SIZE,
};
use crate::page_table_entry::Flags;

verus! {

/// How virtual memory is mapped into physical memory.
///
/// `Linear`: each page maps to the physical page at a fixed offset below it,
/// the way the kernel sees physical memory.
///
/// `Framed`: each page gets a physical frame of its own.
#[derive(Clone, Copy, PartialEq, Eq, Structural, Debug)]
pub enum MapType {
    Linear,
    Framed,
}

/// A contiguous virtual memory range whose pages are mapped the same way,
/// with the same access flags.
#[derive(Clone, Copy, Debug)]
pub struct Segment {
    pub map_type: MapType,
    pub range: Range<VirtualAddress>,
    pub flags: Flags,
}

/// First page of the range `start..end` of addresses.
pub open spec fn first_page(start: u64) -> u64 {
    start / PAGE_SIZE
}

/// One past the last page of the range `start..end` of addresses.
pub open spec fn end_page(end: u64) -> u64 {
    (end / PAGE_SIZE + if end % PAGE_SIZE == 0 { 0int } else { 1int }) as u64
}

impl Segment {
    /// The pages the segment touches.
    pub open spec fn pages(self) -> (u64, u64) {
        (first_page(self.range.start.0), end_page(self.range.end.0))
    }

    /// The virtual pages that hold some address of the segment.
    pub fn page_range(&self) -> (r: Range<VirtualPageNumber>)
        ensures
            r.start.0 == first_page(self.range.start.0),
            r.end.0 == end_page(self.range.end.0),
    {
        Range {
            start: VirtualPageNumber::floor(self.range.start),
            end: VirtualPageNumber::ceil(self.range.end),
        }
    }

    /// For a linear segment, the physical pages it maps, in order; for a
    /// framed segment, whose frames are chosen when it is mapped, nothing.
    pub fn iter_mapped(&self) -> (r: Option<Vec<PhysicalPageNumber>>)
        requires
            self.map_type == MapType::Linear ==> self.range.start.0 >= KERNEL_MAP_OFFSET,
        ensures
            self.map_type == MapType::Framed ==> r is None,
            self.map_type == MapType::Linear ==> r is Some && {
                let (s, e) = self.pages();
                let v = r->0@;
                &&& v.len() == if s <= e { e - s } else { 0 }
                &&& forall|i: int| 0 <= i < v.len() ==> #[trigger] v[i].0 == s + i - KERNEL_PAGE_OFFSET
            },
    {
        match self.map_type {
            MapType::Linear => {
                let range = self.page_range();
                let mut pages: Vec<PhysicalPageNumber> = Vec::new();
                let mut vpn = range.start.0;
                assert(vpn >= KERNEL_PAGE_OFFSET);
                while vpn < range.end.0
                    invariant
                        range.start.0 <= vpn,
                        range.start.0 >= KERNEL_PAGE_OFFSET,
                        vpn <= range.end.0 || vpn == range.start.0,
                        pages@.len() == vpn - range.start.0,
                        forall|i: int| 0 <= i < pages@.len() ==> #[trigger] pages@[i].0 == range.start.0 + i - KERNEL_PAGE_OFFSET,
                    decreases range.end.0 - vpn,
                {
                    pages.push(PhysicalPageNumber::from_kernel_vpn(VirtualPageNumber(vpn)));
                    vpn = vpn + 1;
                }
                Some(pages)
            },
            MapType::Framed => None,
        }
    }
}

} // verus!
