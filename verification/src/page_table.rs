//! Page tables: one page of 512 entries, and the tracker that owns the
//! frame a page table lives in.

use vstd::prelude::*;
use crate::address::PhysicalPageNumber;
use crate::frame::FrameTracker;
use crate::page_table_entry::PageTableEntry;

verus! {

/// A page table: the 512 entries stored in one physical page.
pub struct PageTable {
    pub entries: Vec<PageTableEntry>,
}

/// All 512 entries zero.
pub open spec fn zero_entries() -> Seq<PageTableEntry> {
    Seq::new(512, |i: int| PageTableEntry(0))
}

impl PageTable {
    /// Clears every entry.
    pub fn zero_init(&mut self)
        ensures
            final(self).entries@ == zero_entries(),
    {
        let mut entries: Vec<PageTableEntry> = Vec::new();
        let mut i: usize = 0;
        while i < 512
            invariant
                i <= 512,
                entries@ == Seq::new(i as nat, |k: int| PageTableEntry(0)),
            decreases 512 - i,
        {
            entries.push(PageTableEntry::default());
            i = i + 1;
            assert(entries@ =~= Seq::new(i as nat, |k: int| PageTableEntry(0)));
        }
        self.entries = entries;
    }
}

/// Owns the frame that a page table lives in, together with the table.
pub struct PageTableTracker {
    pub frame: FrameTracker,
    pub table: PageTable,
}

impl PageTableTracker {
    /// Takes `frame` as a page table and clears all its entries.
    pub fn new(frame: FrameTracker) -> (t: Self)
        ensures
            t.frame == frame,
            t.table.entries@ == zero_entries(),
    {
        let mut table = PageTable { entries: Vec::new() };
        table.zero_init();
        PageTableTracker { frame, table }
    }

    /// The physical page the table lives in.
    pub fn page_number(&self) -> (p: PhysicalPageNumber)
        ensures
            p == self.frame.0,
    {
        self.frame.page_number()
    }
}

} // verus!
