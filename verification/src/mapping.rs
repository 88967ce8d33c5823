//! A Sv39 address space: the tree of page tables and the frames it maps.

use vstd::prelude::*;
use std::collections::VecDeque;
use crate::address::{
    level_index, PhysicalPageNumber, Range, VirtualAddress, VirtualPageNumber, KERNEL_MAP_OFFSET,
    KERNEL_PAGE_OFFSET, PAGE_SIZE,
};
use crate::frame::{FrameAllocator, FrameTracker, MemoryResult, PHYSICAL_PAGE_LIMIT};
use crate::page_table::{zero_entries, PageTable, PageTableTracker};
use crate::page_table_entry::{entry_word, law_new_entry_round_trip, valid_flags, Flags, PageTableEntry, FLAG_V, MAX_PAGE_NUMBER};
use crate::segment::{end_page, first_page, MapType, Segment};

verus! {

/// Whether the virtual pages `v` and `w` use the same three page-table
/// indices, so that Sv39 translates them through the same leaf entry.
pub open spec fn same_slot(v: u64, w: u64) -> bool {
    &&& level_index(v, 0) == level_index(w, 0)
    &&& level_index(v, 1) == level_index(w, 1)
    &&& level_index(v, 2) == level_index(w, 2)
}

/// The entry that `PageTableEntry::new(page_number, flags)` builds.
pub open spec fn new_entry(page_number: Option<PhysicalPageNumber>, flags: Flags) -> PageTableEntry {
    PageTableEntry(entry_word(
        valid_flags(flags.bits, page_number is Some),
        if page_number is Some { page_number.unwrap().0 } else { 0 },
    ))
}

/// Bytes to store at a kernel virtual address once a mapping is in place.
pub struct MemoryWrite {
    pub address: VirtualAddress,
    pub data: Vec<u8>,
}

/// Byte `k` of virtual page `page` of a segment covering `start..end` and
/// initialised from `data`: the matching byte of `data` inside the segment,
/// zero outside it.
pub open spec fn page_content(start: u64, end: u64, data: Seq<u8>, page: u64, k: int) -> u8 {
    let a = page * PAGE_SIZE + k;
    if start <= a < end { data[a - start] } else { 0 }
}

/// The contents of page `page` of a segment covering `range`, initialised
/// from `init_data`.
pub fn page_data(range: Range<VirtualAddress>, page: VirtualPageNumber, init_data: &[u8]) -> (r: Vec<u8>)
    requires
        range.start.0 <= range.end.0,
        init_data@.len() >= range.end.0 - range.start.0,
        page.0 * PAGE_SIZE < range.end.0,
    ensures
        r@.len() == PAGE_SIZE,
        forall|k: int| 0 <= k < PAGE_SIZE ==> #[trigger] r@[k]
            == page_content(range.start.0, range.end.0, init_data@, page.0, k),
{
    let page_address = page.0 * PAGE_SIZE;
    let start: u64 = if range.start.0 > page_address { range.start.0 - page_address } else { 0 };
    let stop: u64 = if PAGE_SIZE < range.end.0 - page_address { PAGE_SIZE } else { range.end.0 - page_address };
    let mut data: Vec<u8> = Vec::new();
    let mut k: u64 = 0;
    while k < PAGE_SIZE
        invariant
            k <= PAGE_SIZE,
            page_address == page.0 * PAGE_SIZE,
            page_address < range.end.0,
            range.start.0 <= range.end.0,
            init_data@.len() >= range.end.0 - range.start.0,
            start == if range.start.0 > page_address { range.start.0 - page_address } else { 0 },
            stop == if PAGE_SIZE < range.end.0 - page_address { PAGE_SIZE as int } else { range.end.0 - page_address },
            data@.len() == k,
            forall|j: int| 0 <= j < k ==> #[trigger] data@[j]
                == page_content(range.start.0, range.end.0, init_data@, page.0, j),
        decreases PAGE_SIZE - k,
    {
        let b: u8 = if start <= k && k < stop {
            init_data[(page_address + k - range.start.0) as usize]
        } else {
            0
        };
        data.push(b);
        k = k + 1;
    }
    data
}

/// No two of the virtual pages `s..e` share a leaf entry.
pub open spec fn distinct_slots(s: u64, e: u64) -> bool {
    forall|p: u64, q: u64| s <= p < e && s <= q < e && p != q ==> !#[trigger] same_slot(p, q)
}

/// First virtual page of the top 512 GiB of the address space, where the
/// kernel lives; below 2^52 its pages all use different leaf entries.
pub const KERNEL_WINDOW_PAGE: u64 = 0xf_ffff_f800_0000;

/// Pages of the kernel window never share a leaf entry.
pub proof fn lemma_window_slots_distinct(p: u64, q: u64)
    requires
        KERNEL_WINDOW_PAGE <= p < 0x10_0000_0000_0000,
        KERNEL_WINDOW_PAGE <= q < 0x10_0000_0000_0000,
        p != q,
    ensures
        !same_slot(p, q),
{
    assert(!((p / 0x40000) % 512 == (q / 0x40000) % 512 && (p / 0x200) % 512 == (q / 0x200) % 512
        && p % 512 == q % 512)) by (bit_vector)
        requires
            0xf_ffff_f800_0000u64 <= p < 0x10_0000_0000_0000u64,
            0xf_ffff_f800_0000u64 <= q < 0x10_0000_0000_0000u64,
            p != q;
}

/// Fewer than 2^27 consecutive pages never share a leaf entry.
pub proof fn lemma_near_slots_distinct(p: u64, q: u64)
    requires
        p < q,
        q - p < 0x800_0000,
    ensures
        !same_slot(p, q),
{
    assert(!((p / 0x40000) % 512 == (q / 0x40000) % 512 && (p / 0x200) % 512 == (q / 0x200) % 512
        && p % 512 == q % 512)) by (bit_vector)
        requires
            p < q,
            q - p < 0x800_0000u64;
}

/// Whether pages `v` and `w` are translated through the same leaf table:
/// their walks take the same root entry and the same second-level entry.
pub open spec fn same_leaf_table(v: u64, w: u64) -> bool {
    level_index(v, 0) == level_index(w, 0) && level_index(v, 1) == level_index(w, 1)
}

/// `x`, but at most one.
pub open spec fn at_most_one(x: int) -> int {
    if x < 1 { x } else { 1 }
}

/// The tables that `v`'s walk lacks in `o` once the walk to `vpn` has been
/// completed down to depth `level`.
spec fn missing_progress(o: Mapping, vpn: u64, level: int, v: u64) -> int {
    if level >= 2 && same_leaf_table(v, vpn) {
        0
    } else if level >= 1 && level_index(v, 0) == level_index(vpn, 0) {
        at_most_one(o.missing_tables(v))
    } else {
        o.missing_tables(v)
    }
}

/// Page tables that page `v`'s walk lacks once the pages `s..p` are mapped
/// into an address space whose walks lack `missing` tables: none when one
/// of the pages uses `v`'s leaf table, at most one when one of them uses
/// `v`'s root entry, and as many as before otherwise.
pub open spec fn missing_after(missing: spec_fn(u64) -> int, s: u64, p: u64, v: u64) -> int {
    if exists|q: u64| s <= q < p && #[trigger] same_leaf_table(v, q) {
        0
    } else if exists|q: u64| s <= q < p && #[trigger] level_index(q, 0) == level_index(v, 0) {
        at_most_one(missing(v))
    } else {
        missing(v)
    }
}

/// The tables each walk lacks in `m`.
pub open spec fn missing_of(m: Mapping) -> spec_fn(u64) -> int {
    |v: u64| m.missing_tables(v)
}

/// Page tables that page `v`'s walk lacks once the pages `s..p` are mapped into `m`.
pub open spec fn tables_missing_after(m: Mapping, s: u64, p: u64, v: u64) -> int {
    missing_after(missing_of(m), s, p, v)
}

/// Frames that mapping the pages `s..p`, in order, takes from an address
/// space whose walks lack `missing` tables: the page tables each page's walk
/// lacks by then, and a frame per page for a framed segment.
pub open spec fn frames_needed_from(missing: spec_fn(u64) -> int, s: u64, p: u64, framed: bool) -> int
    decreases p - s,
{
    if p <= s {
        0
    } else {
        frames_needed_from(missing, s, (p - 1) as u64, framed) + (if framed { 1int } else { 0int })
            + missing_after(missing, s, (p - 1) as u64, (p - 1) as u64)
    }
}

/// Frames that mapping the pages `s..p` into `m`, in order, takes.
pub open spec fn frames_needed(m: Mapping, s: u64, p: u64, framed: bool) -> int {
    frames_needed_from(missing_of(m), s, p, framed)
}

/// What mapping one more page, `p`, does to the tables a page lacks.
proof fn lemma_missing_after_step(missing: spec_fn(u64) -> int, s: u64, p: u64, v: u64)
    requires
        s <= p < u64::MAX,
    ensures
        missing_after(missing, s, (p + 1) as u64, v) == if same_leaf_table(v, p) {
            0
        } else if level_index(v, 0) == level_index(p, 0) {
            at_most_one(missing_after(missing, s, p, v))
        } else {
            missing_after(missing, s, p, v)
        },
{
    let p1 = (p + 1) as u64;
    let leaf_before = exists|q: u64| s <= q < p && #[trigger] same_leaf_table(v, q);
    let leaf_after = exists|q: u64| s <= q < p1 && #[trigger] same_leaf_table(v, q);
    let root_before = exists|q: u64| s <= q < p && #[trigger] level_index(q, 0) == level_index(v, 0);
    let root_after = exists|q: u64| s <= q < p1 && #[trigger] level_index(q, 0) == level_index(v, 0);
    if leaf_before {
        let q = choose|q: u64| s <= q < p && #[trigger] same_leaf_table(v, q);
        assert(s <= q < p1 && same_leaf_table(v, q));
    }
    if leaf_after && !same_leaf_table(v, p) {
        let q = choose|q: u64| s <= q < p1 && #[trigger] same_leaf_table(v, q);
        assert(s <= q < p && same_leaf_table(v, q));
    }
    if same_leaf_table(v, p) {
        assert(s <= p < p1 && same_leaf_table(v, p));
    }
    if root_before {
        let q = choose|q: u64| s <= q < p && #[trigger] level_index(q, 0) == level_index(v, 0);
        assert(s <= q < p1 && level_index(q, 0) == level_index(v, 0));
    }
    if root_after && level_index(v, 0) != level_index(p, 0) {
        let q = choose|q: u64| s <= q < p1 && #[trigger] level_index(q, 0) == level_index(v, 0);
        assert(s <= q < p && level_index(q, 0) == level_index(v, 0));
    }
    if level_index(v, 0) == level_index(p, 0) {
        assert(s <= p < p1 && level_index(p, 0) == level_index(v, 0));
    }
    if leaf_before {
        let q = choose|q: u64| s <= q < p && #[trigger] same_leaf_table(v, q);
        assert(s <= q < p && level_index(q, 0) == level_index(v, 0));
    }
}

/// What mapping one more page, `p`, into `m` does to the tables a page lacks.
proof fn lemma_tables_missing_step(m: Mapping, s: u64, p: u64, v: u64)
    requires
        s <= p < u64::MAX,
    ensures
        tables_missing_after(m, s, (p + 1) as u64, v) == if same_leaf_table(v, p) {
            0
        } else if level_index(v, 0) == level_index(p, 0) {
            at_most_one(tables_missing_after(m, s, p, v))
        } else {
            tables_missing_after(m, s, p, v)
        },
{
    lemma_missing_after_step(missing_of(m), s, p, v);
}

/// A walk lacks no fewer than zero tables, whatever the range mapped.
proof fn lemma_tables_missing_nonnegative(m: Mapping)
    ensures
        forall|v: u64| 0 <= #[trigger] m.missing_tables(v),
        forall|v: u64| 0 <= #[trigger] missing_of(m)(v),
{
}

/// Mapping more pages never takes fewer frames, nor fewer than none.
pub proof fn lemma_frames_needed_from_monotone(missing: spec_fn(u64) -> int, s: u64, p: u64, q: u64, framed: bool)
    requires
        p <= q,
        forall|v: u64| 0 <= #[trigger] missing(v),
    ensures
        frames_needed_from(missing, s, p, framed) <= frames_needed_from(missing, s, q, framed),
        0 <= frames_needed_from(missing, s, q, framed),
    decreases q - p,
{
    if p < q {
        lemma_frames_needed_from_monotone(missing, s, p, (q - 1) as u64, framed);
        let w = (q - 1) as u64;
        assert(0 <= missing(w));
    } else {
        lemma_frames_needed_from_nonnegative(missing, s, q, framed);
    }
}

/// Mapping pages takes no fewer than zero frames.
pub proof fn lemma_frames_needed_from_nonnegative(missing: spec_fn(u64) -> int, s: u64, q: u64, framed: bool)
    requires
        forall|v: u64| 0 <= #[trigger] missing(v),
    ensures
        0 <= frames_needed_from(missing, s, q, framed),
    decreases q - s,
{
    if s < q {
        lemma_frames_needed_from_nonnegative(missing, s, (q - 1) as u64, framed);
        let w = (q - 1) as u64;
        assert(0 <= missing(w));
    }
}

/// Mapping more pages into `m` never takes fewer frames.
proof fn lemma_frames_needed_monotone(m: Mapping, s: u64, p: u64, q: u64, framed: bool)
    requires
        s <= p <= q,
        forall|v: u64| 0 <= #[trigger] m.missing_tables(v),
    ensures
        frames_needed(m, s, p, framed) <= frames_needed(m, s, q, framed),
{
    lemma_tables_missing_nonnegative(m);
    lemma_frames_needed_from_monotone(missing_of(m), s, p, q, framed);
}

/// Number of pages in the page range `s..e`.
pub open spec fn page_count(s: u64, e: u64) -> int {
    if s <= e { e - s } else { 0 }
}

/// What framed page `page` of `segment` holds once mapped: its share of
/// `init_data`, or zeros.
pub open spec fn framed_content(segment: Segment, init_data: Option<Seq<u8>>, page: u64, k: int) -> u8 {
    match init_data {
        Some(d) => page_content(segment.range.start.0, segment.range.end.0, d, page, k),
        None => 0,
    }
}

/// Kernel virtual address at which the kernel reaches physical page `ppn`.
pub open spec fn kernel_address_of(ppn: u64) -> u64 {
    (ppn * PAGE_SIZE + KERNEL_MAP_OFFSET) as u64
}

/// A Sv39 address space.
///
/// `page_tables` holds every page table of the tree, the root first;
/// `mapped_pairs` the frames allocated for framed pages, with their page.
pub struct Mapping {
    page_tables: Vec<PageTableTracker>,
    root_ppn: PhysicalPageNumber,
    mapped_pairs: VecDeque<(VirtualPageNumber, FrameTracker)>,
    /// Position in `page_tables` of the table living in each physical page.
    table_of: Ghost<Map<u64, int>>,
    /// Depth of each table in the tree; the root is at depth 0.
    level_of: Ghost<Seq<int>>,
}

/// Whether frame `p` is one of the first `n` framed pages of `pairs` that
/// lie in the virtual pages `s..e`.
pub open spec fn released(pairs: Seq<(VirtualPageNumber, FrameTracker)>, s: u64, e: u64, n: int, p: u64) -> bool {
    exists|i: int| 0 <= i < n && s <= pairs[i].0.0 < e && #[trigger] pairs[i].1.0.0 == p
}

impl Mapping {
    pub closed spec fn table_count(&self) -> nat {
        self.page_tables@.len()
    }

    pub closed spec fn table_ppn(&self, t: int) -> u64 {
        self.page_tables@[t].frame.0.0
    }

    pub closed spec fn entry(&self, t: int, i: int) -> PageTableEntry {
        self.page_tables@[t].table.entries@[i]
    }

    /// The table that entry `i` of table `t` points to.
    pub closed spec fn child(&self, t: int, i: int) -> int {
        self.table_of@[self.entry(t, i).page_number_view()]
    }

    /// The second-level table on the way to `vpn`, if the root entry is set.
    pub closed spec fn walk1(&self, vpn: u64) -> Option<int> {
        if self.entry(0, level_index(vpn, 0) as int).0 == 0 {
            None
        } else {
            Some(self.child(0, level_index(vpn, 0) as int))
        }
    }

    /// The leaf table on the way to `vpn`, if both entries on the way are set.
    pub closed spec fn walk2(&self, vpn: u64) -> Option<int> {
        match self.walk1(vpn) {
            None => None,
            Some(t1) => if self.entry(t1, level_index(vpn, 1) as int).0 == 0 {
                None
            } else {
                Some(self.child(t1, level_index(vpn, 1) as int))
            },
        }
    }

    /// The leaf entry that translates virtual page `vpn`; the zero entry where
    /// the walk stops early.
    pub closed spec fn translate(&self, vpn: u64) -> PageTableEntry {
        match self.walk2(vpn) {
            Some(t2) => self.entry(t2, level_index(vpn, 2) as int),
            None => PageTableEntry(0),
        }
    }

    /// Physical page of the root table.
    pub closed spec fn root(&self) -> u64 {
        self.root_ppn.0
    }

    /// Pages and frames of the framed pages, in the order they were mapped.
    pub closed spec fn mapped(&self) -> Seq<(VirtualPageNumber, FrameTracker)> {
        self.mapped_pairs@
    }

    /// Every physical frame the address space holds: its page tables and its
    /// framed pages.
    pub closed spec fn frames(&self) -> Set<u64> {
        Set::new(|p: u64|
            self.table_of@.contains_key(p)
            || exists|k: int| 0 <= k < self.mapped_pairs@.len() && #[trigger] self.mapped_pairs@[k].1.0.0 == p)
    }

    pub closed spec fn wf(&self) -> bool {
        let n = self.page_tables@.len() as int;
        &&& n >= 1
        &&& self.level_of@.len() == n
        &&& self.table_ppn(0) == self.root_ppn.0
        &&& self.level_of@[0] == 0
        &&& forall|t: int| 0 <= t < n ==> {
            &&& (#[trigger] self.page_tables@[t]).table.entries@.len() == 512
            &&& 0 <= self.level_of@[t] <= 2
            &&& self.table_of@.contains_key(self.table_ppn(t))
            &&& self.table_of@[self.table_ppn(t)] == t
            &&& self.table_ppn(t) < PHYSICAL_PAGE_LIMIT
        }
        &&& forall|p: u64| #[trigger] self.table_of@.contains_key(p) ==> {
            &&& 0 <= self.table_of@[p] < n
            &&& self.table_ppn(self.table_of@[p]) == p
        }
        &&& forall|t: int, i: int| 0 <= t < n && 0 <= i < 512 && self.level_of@[t] < 2
            && (#[trigger] self.entry(t, i)).0 != 0 ==> {
            &&& self.table_of@.contains_key(self.entry(t, i).page_number_view())
            &&& self.level_of@[self.child(t, i)] == self.level_of@[t] + 1
        }
        &&& forall|t1: int, i1: int, t2: int, i2: int|
            0 <= t1 < n && 0 <= i1 < 512 && 0 <= t2 < n && 0 <= i2 < 512
            && self.level_of@[t1] < 2 && self.level_of@[t2] < 2
            && (#[trigger] self.entry(t1, i1)).0 != 0 && (#[trigger] self.entry(t2, i2)).0 != 0
            && self.entry(t1, i1).page_number_view() == self.entry(t2, i2).page_number_view()
            ==> t1 == t2 && i1 == i2
        &&& forall|k: int| 0 <= k < self.mapped_pairs@.len() ==> {
            &&& !self.table_of@.contains_key((#[trigger] self.mapped_pairs@[k]).1.0.0)
            &&& self.mapped_pairs@[k].1.0.0 < PHYSICAL_PAGE_LIMIT
        }
        &&& forall|k1: int, k2: int| 0 <= k1 < k2 < self.mapped_pairs@.len()
            ==> (#[trigger] self.mapped_pairs@[k1]).1.0.0 != (#[trigger] self.mapped_pairs@[k2]).1.0.0
    }


    /// How many page tables the walk to `vpn` still lacks.
    pub closed spec fn missing_tables(&self, vpn: u64) -> int {
        match self.walk1(vpn) {
            None => 2,
            Some(t1) => if self.entry(t1, level_index(vpn, 1) as int).0 == 0 { 1 } else { 0 },
        }
    }

    /// Whether entry `i` of table `t` is the leaf entry that translates `vpn`.
    pub closed spec fn is_leaf_of(&self, vpn: u64, t: int, i: int) -> bool {
        &&& 0 <= t < self.table_count()
        &&& self.walk2(vpn) == Some(t)
        &&& i == level_index(vpn, 2)
    }

    /// The frames that `new` holds and `old` did not are exactly those that
    /// `new_alloc` hands out and `old_alloc` did not.
    pub open spec fn grew_from(new: &Mapping, new_alloc: &FrameAllocator, old: &Mapping, old_alloc: &FrameAllocator) -> bool {
        &&& new_alloc.managed() == old_alloc.managed()
        &&& forall|p: u64| #[trigger] old.frames().contains(p) ==> new.frames().contains(p)
        &&& forall|p: u64| #[trigger] new_alloc.allocated().contains(p)
            <==> old_alloc.allocated().contains(p) || (new.frames().contains(p) && !old.frames().contains(p))
        &&& forall|p: u64| #[trigger] new.frames().contains(p) && !old.frames().contains(p)
            ==> !old_alloc.allocated().contains(p)
    }


    /// None of the virtual pages `s..e` is mapped.
    pub open spec fn pages_free(&self, s: u64, e: u64) -> bool {
        forall|q: u64| s <= q < e ==> (#[trigger] self.translate(q)).0 == 0
    }

    /// Every page that shares no leaf entry with a page of `s..e` translates
    /// as it does in `old`.
    pub open spec fn unchanged_outside(&self, old: &Mapping, s: u64, e: u64) -> bool {
        forall|v: u64| (forall|q: u64| s <= q < e ==> !#[trigger] same_slot(v, q))
            ==> #[trigger] self.translate(v) == old.translate(v)
    }

    /// The address space is well formed and every frame it holds is handed
    /// out by `allocator`.
    pub open spec fn owned_by(&self, allocator: &FrameAllocator) -> bool {
        &&& self.wf()
        &&& allocator.wf()
        &&& forall|p: u64| #[trigger] self.frames().contains(p) ==> allocator.allocated().contains(p)
    }


    /// Adds `frame`, cleared, as a new table at depth `level`. Nothing points
    /// to it yet, so no translation changes.
    fn push_table(&mut self, frame: FrameTracker, Ghost(level): Ghost<int>)
        requires
            old(self).wf(),
            !old(self).frames().contains(frame.0.0),
            frame.0.0 < PHYSICAL_PAGE_LIMIT,
            1 <= level <= 2,
        ensures
            final(self).wf(),
            final(self).table_count() == old(self).table_count() + 1,
            final(self).table_of@ == old(self).table_of@.insert(frame.0.0, old(self).table_count() as int),
            final(self).level_of@ == old(self).level_of@.push(level),
            final(self).frames() == old(self).frames().insert(frame.0.0),
            final(self).root() == old(self).root(),
            final(self).mapped() == old(self).mapped(),
            forall|t: int, i: int| 0 <= t < old(self).table_count() ==> #[trigger] final(self).entry(t, i) == old(self).entry(t, i),
            forall|t: int| 0 <= t < old(self).table_count() ==> #[trigger] final(self).table_ppn(t) == old(self).table_ppn(t),
            forall|i: int| 0 <= i < 512 ==> #[trigger] final(self).entry(old(self).table_count() as int, i).0 == 0,
            final(self).table_ppn(old(self).table_count() as int) == frame.0.0,
            forall|vpn: u64| #[trigger] final(self).translate(vpn) == old(self).translate(vpn),
            forall|vpn: u64| #[trigger] final(self).walk1(vpn) == old(self).walk1(vpn),
            forall|vpn: u64| #[trigger] final(self).walk2(vpn) == old(self).walk2(vpn),
            forall|vpn: u64| #[trigger] final(self).missing_tables(vpn) == old(self).missing_tables(vpn),
    {
        let ghost p = frame.0.0;
        let ghost n = self.page_tables@.len() as int;
        proof {
            assert(!self.table_of@.contains_key(p)) by {
                if self.table_of@.contains_key(p) {
                    assert(self.frames().contains(p));
                }
            }
        }
        self.page_tables.push(PageTableTracker::new(frame));
        proof {
            self.table_of@ = self.table_of@.insert(p, n);
            self.level_of@ = self.level_of@.push(level);
        }
        proof {
            let o = old(self);
            assert forall|t: int, i: int| 0 <= t < n implies #[trigger] self.entry(t, i) == o.entry(t, i) by {
                assert(self.page_tables@[t] == o.page_tables@[t]);
            }
            assert forall|i: int| 0 <= i < 512 implies #[trigger] self.entry(n, i).0 == 0 by {
                assert(self.page_tables@[n].table.entries@ == zero_entries());
            }
            assert forall|t: int, i: int| 0 <= t < n + 1 && 0 <= i < 512 && self.level_of@[t] < 2
                && (#[trigger] self.entry(t, i)).0 != 0 implies {
                &&& self.table_of@.contains_key(self.entry(t, i).page_number_view())
                &&& self.level_of@[self.child(t, i)] == self.level_of@[t] + 1
            } by {
                assert(t < n);
                assert(o.entry(t, i).0 != 0);
                assert(o.table_of@.contains_key(o.entry(t, i).page_number_view()));
                assert(o.entry(t, i).page_number_view() != p);
            }
            assert forall|q: u64| #[trigger] self.frames().contains(q) <==> o.frames().insert(p).contains(q) by {
                if self.frames().contains(q) && q != p && !self.table_of@.contains_key(q) {
                    let k = choose|k: int| 0 <= k < self.mapped_pairs@.len() && #[trigger] self.mapped_pairs@[k].1.0.0 == q;
                    assert(o.mapped_pairs@[k].1.0.0 == q);
                }
                if o.frames().contains(q) && !o.table_of@.contains_key(q) {
                    let k = choose|k: int| 0 <= k < o.mapped_pairs@.len() && #[trigger] o.mapped_pairs@[k].1.0.0 == q;
                    assert(self.mapped_pairs@[k].1.0.0 == q);
                }
            }
            assert(self.frames() =~= o.frames().insert(p));
            assert forall|vpn: u64| #[trigger] self.walk1(vpn) == o.walk1(vpn) by {
                let i0 = level_index(vpn, 0) as int;
                if o.entry(0, i0).0 != 0 {
                    assert(o.table_of@.contains_key(o.entry(0, i0).page_number_view()));
                }
            }
            assert forall|vpn: u64| #[trigger] self.walk2(vpn) == o.walk2(vpn) by {
                assert(self.walk1(vpn) == o.walk1(vpn));
                if let Some(t1) = o.walk1(vpn) {
                    let i0 = level_index(vpn, 0) as int;
                    let i1 = level_index(vpn, 1) as int;
                    assert(o.table_of@.contains_key(o.entry(0, i0).page_number_view()));
                    assert(o.level_of@[t1] == 1);
                    if o.entry(t1, i1).0 != 0 {
                        assert(o.table_of@.contains_key(o.entry(t1, i1).page_number_view()));
                    }
                }
            }
            assert forall|vpn: u64| #[trigger] self.missing_tables(vpn) == o.missing_tables(vpn) by {
                assert(self.walk1(vpn) == o.walk1(vpn));
                if let Some(t1) = o.walk1(vpn) {
                    let i0 = level_index(vpn, 0) as int;
                    assert(o.table_of@.contains_key(o.entry(0, i0).page_number_view()));
                    assert(0 <= t1 < n);
                }
            }
            assert forall|vpn: u64| #[trigger] self.translate(vpn) == o.translate(vpn) by {
                assert(self.walk2(vpn) == o.walk2(vpn));
                if let Some(t2) = o.walk2(vpn) {
                    let i0 = level_index(vpn, 0) as int;
                    let i1 = level_index(vpn, 1) as int;
                    let t1 = o.walk1(vpn)->0;
                    assert(o.table_of@.contains_key(o.entry(0, i0).page_number_view()));
                    assert(o.table_of@.contains_key(o.entry(t1, i1).page_number_view()));
                    assert(0 <= t2 < n);
                }
            }
        }
    }


    /// Points the empty entry `i` of table `t` at table `c`, which is one level
    /// deeper, cleared, and not pointed to yet. Every walk that now reaches `c`
    /// stopped at the empty entry before, and `c` is all zero, so no
    /// translation changes.
    fn set_child(&mut self, t: usize, i: usize, c: usize)
        requires
            old(self).wf(),
            t < old(self).table_count(),
            c < old(self).table_count(),
            i < 512,
            old(self).level_of@[t as int] < 2,
            old(self).level_of@[c as int] == old(self).level_of@[t as int] + 1,
            old(self).entry(t as int, i as int).0 == 0,
            forall|j: int| 0 <= j < 512 ==> #[trigger] old(self).entry(c as int, j).0 == 0,
            forall|t2: int, i2: int| 0 <= t2 < old(self).table_count() && 0 <= i2 < 512
                && old(self).level_of@[t2] < 2 && (#[trigger] old(self).entry(t2, i2)).0 != 0
                ==> old(self).entry(t2, i2).page_number_view() != old(self).table_ppn(c as int),
        ensures
            final(self).wf(),
            final(self).table_count() == old(self).table_count(),
            final(self).table_of@ == old(self).table_of@,
            final(self).level_of@ == old(self).level_of@,
            final(self).frames() == old(self).frames(),
            final(self).root() == old(self).root(),
            final(self).mapped() == old(self).mapped(),
            final(self).entry(t as int, i as int).0 != 0,
            final(self).child(t as int, i as int) == c,
            forall|t2: int, i2: int| 0 <= t2 < old(self).table_count() && 0 <= i2 < 512 && !(t2 == t && i2 == i)
                ==> #[trigger] final(self).entry(t2, i2) == old(self).entry(t2, i2),
            forall|t2: int| 0 <= t2 < old(self).table_count() ==> #[trigger] final(self).table_ppn(t2) == old(self).table_ppn(t2),
            forall|vpn: u64| #[trigger] final(self).translate(vpn) == old(self).translate(vpn),
            t == 0 ==> forall|v: u64| #[trigger] final(self).missing_tables(v)
                == if level_index(v, 0) == i { 1int } else { old(self).missing_tables(v) },
            t != 0 ==> forall|v: u64| #[trigger] final(self).missing_tables(v)
                == if old(self).walk1(v) == Some(t as int) && level_index(v, 1) == i { 0int } else { old(self).missing_tables(v) },
            t != 0 ==> forall|v: u64| #[trigger] final(self).walk1(v) == old(self).walk1(v),
    {
        let ppn = self.page_tables[c].frame.page_number();
        let mut e = self.page_tables[t].table.entries[i];
        e.update_page_number(Some(ppn));
        let ghost o = *old(self);
        proof {
            assert(e.flags_view() == 1u8) by {
                let w0 = o.entry(t as int, i as int).0;
                assert(((w0 & 0xff) as u8) == 0u8) by (bit_vector)
                    requires w0 == 0;
                assert((0u8 | 1u8) == 1u8) by (bit_vector);
            }
            let w = e.0;
            assert(w != 0) by (bit_vector)
                requires (w & 0xff) as u8 == 1u8;
        }
        self.page_tables[t].table.entries[i] = e;
        proof {
            let p = o.table_ppn(c as int);
            let n = o.table_count() as int;
            assert(e.page_number_view() == p);
            assert forall|t2: int, i2: int| 0 <= t2 < n && 0 <= i2 < 512 && !(t2 == t && i2 == i)
                implies #[trigger] self.entry(t2, i2) == o.entry(t2, i2) by {
                if t2 == t {
                    assert(self.page_tables@[t2].table.entries@[i2] == o.page_tables@[t2].table.entries@[i2]);
                } else {
                    assert(self.page_tables@[t2] == o.page_tables@[t2]);
                }
            }
            assert forall|t2: int| 0 <= t2 < n implies #[trigger] self.table_ppn(t2) == o.table_ppn(t2) by {
                if t2 != t {
                    assert(self.page_tables@[t2] == o.page_tables@[t2]);
                }
            }
            assert(self.entry(t as int, i as int) == e);
            assert(self.child(t as int, i as int) == c);
            assert forall|t2: int| 0 <= t2 < n implies (#[trigger] self.page_tables@[t2]).table.entries@.len() == 512 by {
                if t2 != t {
                    assert(self.page_tables@[t2] == o.page_tables@[t2]);
                }
                assert(o.page_tables@[t2].table.entries@.len() == 512);
            }
            assert forall|q: u64| #[trigger] self.frames().contains(q) <==> o.frames().contains(q) by {
                if self.frames().contains(q) && !self.table_of@.contains_key(q) {
                    let k = choose|k: int| 0 <= k < self.mapped_pairs@.len() && #[trigger] self.mapped_pairs@[k].1.0.0 == q;
                    assert(o.mapped_pairs@[k].1.0.0 == q);
                }
                if o.frames().contains(q) && !o.table_of@.contains_key(q) {
                    let k = choose|k: int| 0 <= k < o.mapped_pairs@.len() && #[trigger] o.mapped_pairs@[k].1.0.0 == q;
                    assert(self.mapped_pairs@[k].1.0.0 == q);
                }
            }
            assert(self.frames() =~= o.frames());
            assert forall|t1: int, i1: int, t2: int, i2: int|
                0 <= t1 < n && 0 <= i1 < 512 && 0 <= t2 < n && 0 <= i2 < 512
                && self.level_of@[t1] < 2 && self.level_of@[t2] < 2
                && (#[trigger] self.entry(t1, i1)).0 != 0 && (#[trigger] self.entry(t2, i2)).0 != 0
                && self.entry(t1, i1).page_number_view() == self.entry(t2, i2).page_number_view()
                implies t1 == t2 && i1 == i2 by {
                if t1 == t && i1 == i {
                    if !(t2 == t && i2 == i) {
                        assert(o.entry(t2, i2).page_number_view() != p);
                    }
                } else if t2 == t && i2 == i {
                    assert(o.entry(t1, i1).page_number_view() != p);
                } else {
                    assert(o.entry(t1, i1) == self.entry(t1, i1));
                    assert(o.entry(t2, i2) == self.entry(t2, i2));
                }
            }
            assert(c != t);
            assert(o.level_of@[0] == 0);
            if t == 0 {
                assert forall|v: u64| #[trigger] self.missing_tables(v)
                    == if level_index(v, 0) == i { 1int } else { o.missing_tables(v) } by {
                    let i0 = level_index(v, 0) as int;
                    let i1 = level_index(v, 1) as int;
                    assert(0 <= i0 < 512 && 0 <= i1 < 512);
                    if i0 == i {
                        assert(self.walk1(v) == Some(c as int));
                        assert(self.entry(c as int, i1) == o.entry(c as int, i1));
                        assert(o.entry(c as int, i1).0 == 0);
                    } else {
                        assert(self.entry(0, i0) == o.entry(0, i0));
                        assert(self.walk1(v) == o.walk1(v));
                        if let Some(t1) = o.walk1(v) {
                            assert(o.table_of@.contains_key(o.entry(0, i0).page_number_view()));
                            assert(o.level_of@[t1] == 1);
                            assert(self.entry(t1, i1) == o.entry(t1, i1));
                        }
                    }
                }
            } else {
                assert forall|v: u64| #[trigger] self.walk1(v) == o.walk1(v) by {
                    let i0 = level_index(v, 0) as int;
                    assert(0 <= i0 < 512);
                    assert(self.entry(0, i0) == o.entry(0, i0));
                }
                assert forall|v: u64| #[trigger] self.missing_tables(v)
                    == if o.walk1(v) == Some(t as int) && level_index(v, 1) == i { 0int } else { o.missing_tables(v) } by {
                    let i0 = level_index(v, 0) as int;
                    let i1 = level_index(v, 1) as int;
                    assert(0 <= i0 < 512 && 0 <= i1 < 512);
                    assert(self.entry(0, i0) == o.entry(0, i0));
                    assert(self.walk1(v) == o.walk1(v));
                    if let Some(t1) = o.walk1(v) {
                        assert(o.table_of@.contains_key(o.entry(0, i0).page_number_view()));
                        if !(t1 == t && i1 == i) {
                            assert(self.entry(t1, i1) == o.entry(t1, i1));
                        }
                    }
                }
            }
            assert forall|vpn: u64| #[trigger] self.translate(vpn) == o.translate(vpn) by {
                let i0 = level_index(vpn, 0) as int;
                let i1 = level_index(vpn, 1) as int;
                let i2 = level_index(vpn, 2) as int;
                assert(0 <= i0 < 512 && 0 <= i1 < 512 && 0 <= i2 < 512);
                assert(o.entry(c as int, i1).0 == 0);
                assert(o.entry(c as int, i2).0 == 0);
                if t == 0 && i0 == i {
                    // The walk used to stop at the root entry; now it reaches `c`, which is empty.
                    assert(o.walk1(vpn) is None);
                    assert(self.walk1(vpn) == Some(c as int));
                    assert(self.entry(c as int, i1) == o.entry(c as int, i1));
                    assert(self.walk2(vpn) is None);
                } else {
                    assert(self.entry(0, i0) == o.entry(0, i0));
                    assert(self.walk1(vpn) == o.walk1(vpn));
                    if let Some(t1) = o.walk1(vpn) {
                        assert(o.table_of@.contains_key(o.entry(0, i0).page_number_view()));
                        assert(o.level_of@[t1] == 1);
                        if t1 == t && i1 == i {
                            assert(o.walk2(vpn) is None);
                            assert(self.walk2(vpn) == Some(c as int));
                            assert(self.entry(c as int, i2) == o.entry(c as int, i2));
                        } else {
                            assert(self.entry(t1, i1) == o.entry(t1, i1));
                            assert(self.walk2(vpn) == o.walk2(vpn));
                            if let Some(t2) = o.walk2(vpn) {
                                assert(o.table_of@.contains_key(o.entry(t1, i1).page_number_view()));
                                assert(o.level_of@[t2] == 2);
                                assert(self.entry(t2, i2) == o.entry(t2, i2));
                            }
                        }
                    }
                }
            }
        }
    }


    /// The leaf entry that translates `vpn`, as (table position, entry
    /// index). Page tables missing on the way are allocated and linked in;
    /// this fails when the allocator runs out first. No translation changes
    /// either way.
    pub fn find_entry(&mut self, allocator: &mut FrameAllocator, vpn: VirtualPageNumber) -> (r: MemoryResult<(usize, usize)>)
        requires
            old(self).owned_by(old(allocator)),
        ensures
            final(self).owned_by(final(allocator)),
            Mapping::grew_from(final(self), final(allocator), old(self), old(allocator)),
            forall|v: u64| #[trigger] final(self).translate(v) == old(self).translate(v),
            final(self).root() == old(self).root(),
            final(self).mapped() == old(self).mapped(),
            r is Err <==> old(allocator).available() < old(self).missing_tables(vpn.0),
            r is Err ==> final(allocator).available() == 0,
            r is Ok ==> final(self).is_leaf_of(vpn.0, r->Ok_0.0 as int, r->Ok_0.1 as int),
            r is Ok ==> final(allocator).available() == old(allocator).available() - old(self).missing_tables(vpn.0),
            old(self).missing_tables(vpn.0) == 0 ==> r is Ok && *final(self) == *old(self)
                && *final(allocator) == *old(allocator),
            r is Ok ==> forall|v: u64| #[trigger] final(self).missing_tables(v)
                == if same_leaf_table(v, vpn.0) {
                    0
                } else if level_index(v, 0) == level_index(vpn.0, 0) {
                    at_most_one(old(self).missing_tables(v))
                } else {
                    old(self).missing_tables(v)
                },
    {
        let levels = vpn.levels();
        let mut t: usize = 0;
        let mut level: usize = 0;
        let ghost created: int = 0;
        proof {
            assert(self.level_of@[0] == 0);
        }
        while level < 2
            invariant
                self.owned_by(allocator),
                Mapping::grew_from(self, allocator, old(self), old(allocator)),
                forall|v: u64| #[trigger] self.translate(v) == old(self).translate(v),
                self.root() == old(self).root(),
                self.mapped() == old(self).mapped(),
                forall|l: int| 0 <= l < 3 ==> #[trigger] levels@[l] == level_index(vpn.0, l),
                forall|l: int| 0 <= l < 3 ==> #[trigger] levels@[l] < 512,
                level <= 2,
                t < self.table_count(),
                self.level_of@[t as int] == level,
                level == 0 ==> t == 0,
                level == 1 ==> self.walk1(vpn.0) == Some(t as int),
                level == 2 ==> self.walk2(vpn.0) == Some(t as int),
                allocator.available() == old(allocator).available() - created,
                self.missing_tables(vpn.0) == old(self).missing_tables(vpn.0) - created,
                0 <= created,
                created == 0 ==> *self == *old(self) && *allocator == *old(allocator),
                forall|v: u64| #[trigger] self.missing_tables(v) == missing_progress(*old(self), vpn.0, level as int, v),
            decreases 2 - level,
        {
            let idx = levels[level] as usize;
            let pte = self.page_tables[t].table.entries[idx];
            if pte.is_empty() {
                proof {
                    assert(self.missing_tables(vpn.0) > 0);
                }
                let ghost before = *self;
                let ghost alloc_before = *allocator;
                let frame = match allocator.allocate() {
                    Ok(f) => f,
                    Err(e) => {
                        return Err(e);
                    },
                };
                proof {
                    if before.frames().contains(frame.0.0) {
                        assert(alloc_before.allocated().contains(frame.0.0));
                    }
                }
                self.push_table(frame, Ghost((level + 1) as int));
                let c = self.page_tables.len() - 1;
                proof {
                    let p = self.table_ppn(c as int);
                    assert forall|t2: int, i2: int| 0 <= t2 < self.table_count() && 0 <= i2 < 512
                        && self.level_of@[t2] < 2 && (#[trigger] self.entry(t2, i2)).0 != 0
                        implies self.entry(t2, i2).page_number_view() != p by {
                        if t2 < before.table_count() {
                            assert(before.entry(t2, i2) == self.entry(t2, i2));
                            assert(before.table_of@.contains_key(before.entry(t2, i2).page_number_view()));
                            assert(before.frames().contains(before.entry(t2, i2).page_number_view()));
                        }
                    }
                }
                self.set_child(t, idx, c);
                proof {
                    let mid = *self;
                    assert forall|p: u64| #[trigger] allocator.allocated().contains(p)
                        <==> old(allocator).allocated().contains(p) || (self.frames().contains(p) && !old(self).frames().contains(p)) by {
                        if p == frame.0.0 {
                            assert(self.frames().contains(p));
                            if old(self).frames().contains(p) {
                                assert(before.frames().contains(p));
                            }
                        }
                    }
                    assert forall|p: u64| #[trigger] self.frames().contains(p) implies allocator.allocated().contains(p) by {
                        if p != frame.0.0 {
                            assert(before.frames().contains(p));
                        }
                    }
                    assert forall|p: u64| #[trigger] old(self).frames().contains(p) implies self.frames().contains(p) by {
                        assert(before.frames().contains(p));
                    }
                    assert(self.entry(c as int, levels@[1] as int).0 == 0);
                    if level == 0 {
                        assert(before.walk1(vpn.0) is None);
                        assert(self.walk1(vpn.0) == Some(c as int));
                        assert forall|v: u64| #[trigger] self.missing_tables(v)
                            == missing_progress(*old(self), vpn.0, 1, v) by {
                            if level_index(v, 0) == level_index(vpn.0, 0) {
                                assert(before.walk1(v) is None);
                                assert(before.missing_tables(v) == 2);
                            }
                        }
                    } else {
                        assert(before.walk1(vpn.0) == Some(t as int));
                        assert(self.entry(0, levels@[0] as int) == before.entry(0, levels@[0] as int));
                        assert(self.walk1(vpn.0) == Some(t as int));
                        assert(t != 0);
                        assert forall|v: u64| #[trigger] self.missing_tables(v)
                            == missing_progress(*old(self), vpn.0, 2, v) by {
                            if before.walk1(v) == Some(t as int) {
                                lemma_walk1_injective(before, v, vpn.0);
                            }
                            if level_index(v, 0) == level_index(vpn.0, 0) {
                                assert(before.walk1(v) == before.walk1(vpn.0));
                            }
                        }
                    }
                    created = created + 1;
                }
            }
            let pte = self.page_tables[t].table.entries[idx];
            proof {
                assert(self.table_of@.contains_key(pte.page_number_view()));
            }
            let next = self.find_table(pte.page_number());
            proof {
                assert(self.level_of@[next as int] == level + 1);
                if level == 1 {
                    assert(self.missing_tables(vpn.0) == 0);
                }
                assert forall|v: u64| #[trigger] self.missing_tables(v)
                    == missing_progress(*old(self), vpn.0, level + 1, v) by {
                    if level == 0 && level_index(v, 0) == level_index(vpn.0, 0) {
                        assert(self.walk1(v) == self.walk1(vpn.0));
                    }
                    if level == 1 && same_leaf_table(v, vpn.0) {
                        assert(self.walk1(v) == self.walk1(vpn.0));
                        assert(self.missing_tables(v) == self.missing_tables(vpn.0));
                    }
                }
            }
            t = next;
            level = level + 1;
        }
        proof {
            allocator.lemma_available_nonnegative();
        }
        Ok((t, levels[2] as usize))
    }


    /// Replaces the leaf entry `i` of the leaf table `t`. Exactly the pages
    /// translated through that entry change.
    fn set_leaf(&mut self, t: usize, i: usize, e: PageTableEntry, Ghost(vpn): Ghost<u64>)
        requires
            old(self).wf(),
            old(self).is_leaf_of(vpn, t as int, i as int),
        ensures
            final(self).wf(),
            final(self).table_count() == old(self).table_count(),
            final(self).frames() == old(self).frames(),
            final(self).root() == old(self).root(),
            final(self).mapped() == old(self).mapped(),
            forall|v: u64| #[trigger] final(self).translate(v)
                == if same_slot(v, vpn) { e } else { old(self).translate(v) },
            forall|v: u64| #[trigger] final(self).missing_tables(v) == old(self).missing_tables(v),
    {
        let ghost o = *self;
        proof {
            let t1 = o.walk1(vpn)->0;
            let i0 = level_index(vpn, 0) as int;
            assert(o.table_of@.contains_key(o.entry(0, i0).page_number_view()));
            assert(o.level_of@[t1] == 1);
            assert(o.level_of@[t as int] == 2);
        }
        self.page_tables[t].table.entries[i] = e;
        proof {
            let n = o.table_count() as int;
            assert forall|t2: int, i2: int| 0 <= t2 < n && 0 <= i2 < 512 && !(t2 == t && i2 == i)
                implies #[trigger] self.entry(t2, i2) == o.entry(t2, i2) by {
                if t2 == t {
                    assert(self.page_tables@[t2].table.entries@[i2] == o.page_tables@[t2].table.entries@[i2]);
                } else {
                    assert(self.page_tables@[t2] == o.page_tables@[t2]);
                }
            }
            assert forall|t2: int| 0 <= t2 < n implies #[trigger] self.table_ppn(t2) == o.table_ppn(t2) by {
                if t2 != t {
                    assert(self.page_tables@[t2] == o.page_tables@[t2]);
                }
            }
            assert forall|t2: int| 0 <= t2 < n implies (#[trigger] self.page_tables@[t2]).table.entries@.len() == 512 by {
                if t2 != t {
                    assert(self.page_tables@[t2] == o.page_tables@[t2]);
                }
                assert(o.page_tables@[t2].table.entries@.len() == 512);
            }
            assert forall|t2: int, i2: int| 0 <= t2 < n && 0 <= i2 < 512 && self.level_of@[t2] < 2
                implies #[trigger] self.entry(t2, i2) == o.entry(t2, i2) by {
                assert(t2 != t);
            }
            assert forall|q: u64| #[trigger] self.frames().contains(q) <==> o.frames().contains(q) by {
                if self.frames().contains(q) && !self.table_of@.contains_key(q) {
                    let k = choose|k: int| 0 <= k < self.mapped_pairs@.len() && #[trigger] self.mapped_pairs@[k].1.0.0 == q;
                    assert(o.mapped_pairs@[k].1.0.0 == q);
                }
                if o.frames().contains(q) && !o.table_of@.contains_key(q) {
                    let k = choose|k: int| 0 <= k < o.mapped_pairs@.len() && #[trigger] o.mapped_pairs@[k].1.0.0 == q;
                    assert(self.mapped_pairs@[k].1.0.0 == q);
                }
            }
            assert(self.frames() =~= o.frames());
            assert forall|v: u64| #[trigger] self.missing_tables(v) == o.missing_tables(v) by {
                let i0 = level_index(v, 0) as int;
                let i1 = level_index(v, 1) as int;
                assert(0 <= i0 < 512 && 0 <= i1 < 512);
                assert(self.entry(0, i0) == o.entry(0, i0));
                assert(self.walk1(v) == o.walk1(v));
                if let Some(t1) = o.walk1(v) {
                    assert(o.table_of@.contains_key(o.entry(0, i0).page_number_view()));
                    assert(o.level_of@[t1] == 1);
                    assert(self.entry(t1, i1) == o.entry(t1, i1));
                }
            }
            assert forall|v: u64| #[trigger] self.translate(v)
                == if same_slot(v, vpn) { e } else { o.translate(v) } by {
                let i0 = level_index(v, 0) as int;
                let i1 = level_index(v, 1) as int;
                let i2 = level_index(v, 2) as int;
                assert(0 <= i0 < 512 && 0 <= i1 < 512 && 0 <= i2 < 512);
                assert(self.entry(0, i0) == o.entry(0, i0));
                assert(self.walk1(v) == o.walk1(v));
                if let Some(t1) = o.walk1(v) {
                    assert(o.table_of@.contains_key(o.entry(0, i0).page_number_view()));
                    assert(o.level_of@[t1] == 1);
                    assert(self.entry(t1, i1) == o.entry(t1, i1));
                }
                assert(self.walk2(v) == o.walk2(v));
                if let Some(t2) = o.walk2(v) {
                    let t1 = o.walk1(v)->0;
                    assert(o.table_of@.contains_key(o.entry(t1, i1).page_number_view()));
                    if t2 == t && i2 == i {
                        // Both walks end in the same leaf table: by the tree shape they took
                        // the same entries on the way.
                        let u1 = o.walk1(vpn)->0;
                        let j0 = level_index(vpn, 0) as int;
                        let j1 = level_index(vpn, 1) as int;
                        assert(o.table_of@.contains_key(o.entry(0, j0).page_number_view()));
                        assert(o.table_of@.contains_key(o.entry(u1, j1).page_number_view()));
                        assert(o.level_of@[u1] == 1);
                        assert(o.table_ppn(t2) == o.entry(t1, i1).page_number_view());
                        assert(o.table_ppn(t2) == o.entry(u1, j1).page_number_view());
                        assert(t1 == u1 && i1 == j1);
                        assert(o.table_ppn(t1) == o.entry(0, i0).page_number_view());
                        assert(o.table_ppn(u1) == o.entry(0, j0).page_number_view());
                        assert(i0 == j0);
                        assert(same_slot(v, vpn));
                    } else {
                        assert(self.entry(t2, i2) == o.entry(t2, i2));
                        if same_slot(v, vpn) {
                            assert(o.walk2(v) == o.walk2(vpn));
                        }
                    }
                } else {
                    if same_slot(v, vpn) {
                        assert(o.walk2(v) == o.walk2(vpn));
                    }
                }
            }
        }
    }

    /// Maps the virtual page `vpn`, which must not be mapped yet, to the
    /// physical page `ppn` with `flags`; without a page number the entry is
    /// left invalid with page number zero. Fails, changing no translation,
    /// when page tables are needed and the allocator runs out.
    fn map_one(
        &mut self,
        allocator: &mut FrameAllocator,
        vpn: VirtualPageNumber,
        ppn: Option<PhysicalPageNumber>,
        flags: Flags,
    ) -> (r: MemoryResult<()>)
        requires
            old(self).owned_by(old(allocator)),
            old(self).translate(vpn.0).0 == 0,
            ppn is Some ==> ppn.unwrap().0 <= MAX_PAGE_NUMBER,
        ensures
            final(self).owned_by(final(allocator)),
            Mapping::grew_from(final(self), final(allocator), old(self), old(allocator)),
            final(self).root() == old(self).root(),
            final(self).mapped() == old(self).mapped(),
            r is Err <==> old(allocator).available() < old(self).missing_tables(vpn.0),
            r is Err ==> forall|v: u64| #[trigger] final(self).translate(v) == old(self).translate(v),
            r is Err ==> final(allocator).available() == 0,
            r is Ok ==> forall|v: u64| #[trigger] final(self).translate(v)
                == if same_slot(v, vpn.0) { new_entry(ppn, flags) } else { old(self).translate(v) },
            r is Ok ==> final(allocator).available() == old(allocator).available() - old(self).missing_tables(vpn.0),
            r is Ok ==> forall|v: u64| #[trigger] final(self).missing_tables(v)
                == if same_leaf_table(v, vpn.0) {
                    0
                } else if level_index(v, 0) == level_index(vpn.0, 0) {
                    at_most_one(old(self).missing_tables(v))
                } else {
                    old(self).missing_tables(v)
                },
    {
        let (t, i) = match self.find_entry(allocator, vpn) {
            Ok(loc) => loc,
            Err(e) => {
                return Err(e);
            },
        };
        let e = PageTableEntry::new(ppn, flags);
        self.set_leaf(t, i, e, Ghost(vpn.0));
        Ok(())
    }


    /// Records that framed page `vpn` lives in `frame`, a frame the address
    /// space does not hold yet.
    fn push_mapped(&mut self, vpn: VirtualPageNumber, frame: FrameTracker)
        requires
            old(self).wf(),
            !old(self).frames().contains(frame.0.0),
            frame.0.0 < PHYSICAL_PAGE_LIMIT,
        ensures
            final(self).wf(),
            final(self).frames() == old(self).frames().insert(frame.0.0),
            final(self).root() == old(self).root(),
            final(self).mapped() == old(self).mapped().push((vpn, frame)),
            forall|v: u64| #[trigger] final(self).translate(v) == old(self).translate(v),
            forall|v: u64| #[trigger] final(self).missing_tables(v) == old(self).missing_tables(v),
    {
        let ghost o = *self;
        let ghost p = frame.0.0;
        proof {
            assert(!o.table_of@.contains_key(p)) by {
                if o.table_of@.contains_key(p) {
                    assert(o.frames().contains(p));
                }
            }
            assert forall|k: int| 0 <= k < o.mapped_pairs@.len() implies o.mapped_pairs@[k].1.0.0 != p by {
                if o.mapped_pairs@[k].1.0.0 == p {
                    assert(o.frames().contains(p));
                }
            }
        }
        self.mapped_pairs.push_back((vpn, frame));
        proof {
            assert(self.page_tables == o.page_tables);
            assert(self.table_of == o.table_of);
            assert(self.level_of == o.level_of);
            assert forall|t: int, i: int| #[trigger] self.entry(t, i) == o.entry(t, i) by {}
            assert forall|t: int, i: int| #[trigger] self.child(t, i) == o.child(t, i) by {}
            assert forall|v: u64| #[trigger] self.walk1(v) == o.walk1(v) by {}
            assert forall|v: u64| #[trigger] self.walk2(v) == o.walk2(v) by {}
            let n = o.mapped_pairs@.len() as int;
            assert(self.mapped_pairs@[n].1.0.0 == p);
            assert forall|q: u64| #[trigger] self.frames().contains(q) <==> o.frames().insert(p).contains(q) by {
                if self.frames().contains(q) && q != p && !self.table_of@.contains_key(q) {
                    let k = choose|k: int| 0 <= k < self.mapped_pairs@.len() && #[trigger] self.mapped_pairs@[k].1.0.0 == q;
                    assert(k < n);
                    assert(o.mapped_pairs@[k].1.0.0 == q);
                }
                if o.frames().contains(q) && !o.table_of@.contains_key(q) {
                    let k = choose|k: int| 0 <= k < o.mapped_pairs@.len() && #[trigger] o.mapped_pairs@[k].1.0.0 == q;
                    assert(self.mapped_pairs@[k].1.0.0 == q);
                }
                if q == p {
                    assert(self.mapped_pairs@[n].1.0.0 == q);
                }
            }
            assert(self.frames() =~= o.frames().insert(p));
            assert forall|k1: int, k2: int| 0 <= k1 < k2 < self.mapped_pairs@.len()
                implies (#[trigger] self.mapped_pairs@[k1]).1.0.0 != (#[trigger] self.mapped_pairs@[k2]).1.0.0 by {
                if k2 == n {
                    assert(o.mapped_pairs@[k1].1.0.0 != p);
                } else {
                    assert(o.mapped_pairs@[k1] == self.mapped_pairs@[k1]);
                    assert(o.mapped_pairs@[k2] == self.mapped_pairs@[k2]);
                }
            }
            assert forall|k: int| 0 <= k < self.mapped_pairs@.len() implies {
                &&& !self.table_of@.contains_key((#[trigger] self.mapped_pairs@[k]).1.0.0)
                &&& self.mapped_pairs@[k].1.0.0 < PHYSICAL_PAGE_LIMIT
            } by {
                if k < n {
                    assert(o.mapped_pairs@[k] == self.mapped_pairs@[k]);
                }
            }
        }
    }


    /// Maps each page of the linear segment to the physical page at the
    /// kernel offset below it.
    fn map_linear(&mut self, allocator: &mut FrameAllocator, segment: &Segment) -> (r: MemoryResult<()>)
        requires
            old(self).owned_by(old(allocator)),
            segment.range.start.0 >= KERNEL_MAP_OFFSET,
            old(self).pages_free(segment.pages().0, segment.pages().1),
            distinct_slots(segment.pages().0, segment.pages().1),
        ensures
            final(self).owned_by(final(allocator)),
            Mapping::grew_from(final(self), final(allocator), old(self), old(allocator)),
            final(self).root() == old(self).root(),
            final(self).mapped() == old(self).mapped(),
            final(self).unchanged_outside(old(self), segment.pages().0, segment.pages().1),
            r is Ok ==> forall|q: u64| segment.pages().0 <= q < segment.pages().1 ==> #[trigger] final(self).translate(q)
                == new_entry(Some(PhysicalPageNumber((q - KERNEL_PAGE_OFFSET) as u64)), segment.flags),
            old(allocator).available() >= 2 * page_count(segment.pages().0, segment.pages().1) ==> r is Ok,
            r is Ok ==> final(allocator).available() >= old(allocator).available() - 2 * page_count(segment.pages().0, segment.pages().1),
            r is Err ==> final(allocator).available() == 0,
            r is Err <==> old(allocator).available() < frames_needed(*old(self), segment.pages().0, segment.pages().1, false),
            r is Ok ==> final(allocator).available()
                == old(allocator).available() - frames_needed(*old(self), segment.pages().0, segment.pages().1, false),
            r is Ok ==> forall|v: u64| #[trigger] final(self).missing_tables(v)
                == tables_missing_after(*old(self), segment.pages().0, segment.pages().1, v),
    {
        let range = segment.page_range();
        let s = range.start.0;
        let e = range.end.0;
        let mut p = s;
        proof {
            assert(e <= 0x10_0000_0000_0000) by (nonlinear_arith)
                requires e == segment.range.end.0 / 4096 + if segment.range.end.0 % 4096 == 0 { 0int } else { 1int };
        }
        while p < e
            invariant
                s == segment.pages().0,
                e == segment.pages().1,
                e <= 0x10_0000_0000_0000,
                s >= KERNEL_PAGE_OFFSET,
                s <= p,
                p <= e || p == s,
                distinct_slots(s, e),
                self.owned_by(allocator),
                Mapping::grew_from(self, allocator, old(self), old(allocator)),
                self.root() == old(self).root(),
                self.mapped() == old(self).mapped(),
                forall|q: u64| s <= q < p ==> #[trigger] self.translate(q)
                    == new_entry(Some(PhysicalPageNumber((q - KERNEL_PAGE_OFFSET) as u64)), segment.flags),
                forall|q: u64| p <= q < e ==> (#[trigger] self.translate(q)).0 == 0,
                self.unchanged_outside(old(self), s, p),
                old(allocator).available() >= 2 * page_count(s, e) ==> allocator.available() >= 2 * (e - p),
                allocator.available() >= old(allocator).available() - 2 * (p - s),
                allocator.available() == old(allocator).available() - frames_needed(*old(self), s, p, false),
                forall|v: u64| #[trigger] self.missing_tables(v) == tables_missing_after(*old(self), s, p, v),
            decreases e - p,
        {
            let ghost before = *self;
            let ghost alloc_before = *allocator;
            let ppn = PhysicalPageNumber::from_kernel_vpn(VirtualPageNumber(p));
            let res = self.map_one(allocator, VirtualPageNumber(p), Some(ppn), segment.flags);
            proof {
                assert forall|q: u64| s <= q < e && q != p implies !same_slot(q, p) by {}
                assert forall|v: u64| (forall|q: u64| s <= q < p + 1 ==> !#[trigger] same_slot(v, q))
                    implies #[trigger] self.translate(v) == old(self).translate(v) by {
                    assert(!same_slot(v, p));
                    assert(before.unchanged_outside(old(self), s, p));
                    assert(before.translate(v) == old(self).translate(v));
                }
            }
            proof {
                if res is Ok {
                    assert forall|v: u64| #[trigger] self.missing_tables(v)
                        == tables_missing_after(*old(self), s, (p + 1) as u64, v) by {
                        lemma_tables_missing_step(*old(self), s, p, v);
                    }
                    assert(frames_needed(*old(self), s, (p + 1) as u64, false)
                        == frames_needed(*old(self), s, p, false) + tables_missing_after(*old(self), s, p, p));
                } else {
                    lemma_tables_missing_nonnegative(*old(self));
                    lemma_frames_needed_monotone(*old(self), s, (p + 1) as u64, e, false);
                    assert(frames_needed(*old(self), s, (p + 1) as u64, false)
                        == frames_needed(*old(self), s, p, false) + tables_missing_after(*old(self), s, p, p));
                }
            }
            match res {
                Ok(()) => {},
                Err(msg) => {
                    proof {
                        assert(self.unchanged_outside(old(self), s, e)) by {
                            assert forall|v: u64| (forall|q: u64| s <= q < e ==> !#[trigger] same_slot(v, q))
                                implies #[trigger] self.translate(v) == old(self).translate(v) by {
                                assert(before.unchanged_outside(old(self), s, p));
                                assert(forall|q: u64| s <= q < p ==> !#[trigger] same_slot(v, q));
                                assert(before.translate(v) == old(self).translate(v));
                            }
                        }
                    }
                    return Err(msg);
                },
            }
            p = p + 1;
        }
        proof {
            allocator.lemma_available_nonnegative();
        }
        Ok(())
    }


    /// Maps each page of the framed segment to a newly allocated frame,
    /// and says what each frame must hold.
    fn map_framed(&mut self, allocator: &mut FrameAllocator, segment: &Segment, init_data: Option<&[u8]>)
        -> (r: MemoryResult<Vec<MemoryWrite>>)
        requires
            old(self).owned_by(old(allocator)),
            old(self).pages_free(segment.pages().0, segment.pages().1),
            distinct_slots(segment.pages().0, segment.pages().1),
            init_data is Some ==> segment.range.start.0 <= segment.range.end.0
                && init_data.unwrap()@.len() >= segment.range.end.0 - segment.range.start.0,
        ensures
            final(self).owned_by(final(allocator)),
            Mapping::grew_from(final(self), final(allocator), old(self), old(allocator)),
            final(self).root() == old(self).root(),
            final(self).unchanged_outside(old(self), segment.pages().0, segment.pages().1),
            final(self).mapped().len() >= old(self).mapped().len(),
            final(self).mapped().subrange(0, old(self).mapped().len() as int) == old(self).mapped(),
            r is Ok ==> {
                let (s, e) = segment.pages();
                let n = old(self).mapped().len() as int;
                let writes = r->Ok_0@;
                &&& final(self).mapped().len() == n + page_count(s, e)
                &&& writes.len() == page_count(s, e)
                &&& forall|k: int| 0 <= k < page_count(s, e) ==> {
                    let (vpn, frame) = #[trigger] final(self).mapped()[n + k];
                    &&& vpn.0 == s + k
                    &&& final(self).translate(vpn.0) == new_entry(Some(frame.0), segment.flags)
                    &&& writes[k].address.0 == kernel_address_of(frame.0.0)
                    &&& writes[k].data@.len() == PAGE_SIZE
                    &&& forall|j: int| 0 <= j < PAGE_SIZE ==> #[trigger] writes[k].data@[j]
                        == framed_content(*segment, if init_data is Some { Some(init_data.unwrap()@) } else { None }, vpn.0, j)
                }
            },
            old(allocator).available() >= 3 * page_count(segment.pages().0, segment.pages().1) ==> r is Ok,
            r is Ok ==> final(allocator).available() >= old(allocator).available() - 3 * page_count(segment.pages().0, segment.pages().1),
            r is Err ==> final(allocator).available() <= 1,
            r is Err <==> old(allocator).available() < frames_needed(*old(self), segment.pages().0, segment.pages().1, true),
            r is Ok ==> final(allocator).available()
                == old(allocator).available() - frames_needed(*old(self), segment.pages().0, segment.pages().1, true),
            r is Ok ==> forall|v: u64| #[trigger] final(self).missing_tables(v)
                == tables_missing_after(*old(self), segment.pages().0, segment.pages().1, v),
    {
        let range = segment.page_range();
        let s = range.start.0;
        let e = range.end.0;
        let mut p = s;
        let mut writes: Vec<MemoryWrite> = Vec::new();
        let ghost n = self.mapped_pairs@.len() as int;
        let ghost data_view: Option<Seq<u8>> = if init_data is Some { Some(init_data.unwrap()@) } else { None };
        while p < e
            invariant
                s == segment.pages().0,
                e == segment.pages().1,
                s <= p,
                p <= e || p == s,
                n == old(self).mapped().len(),
                data_view == if init_data is Some { Some(init_data.unwrap()@) } else { None },
                init_data is Some ==> segment.range.start.0 <= segment.range.end.0
                    && init_data.unwrap()@.len() >= segment.range.end.0 - segment.range.start.0,
                distinct_slots(s, e),
                self.owned_by(allocator),
                Mapping::grew_from(self, allocator, old(self), old(allocator)),
                self.root() == old(self).root(),
                self.mapped().len() == n + (p - s),
                self.mapped().subrange(0, n) == old(self).mapped(),
                writes@.len() == p - s,
                forall|k: int| 0 <= k < p - s ==> {
                    let (vpn, frame) = #[trigger] self.mapped()[n + k];
                    &&& vpn.0 == s + k
                    &&& self.translate(vpn.0) == new_entry(Some(frame.0), segment.flags)
                    &&& writes@[k].address.0 == kernel_address_of(frame.0.0)
                    &&& writes@[k].data@.len() == PAGE_SIZE
                    &&& forall|j: int| 0 <= j < PAGE_SIZE ==> #[trigger] writes@[k].data@[j]
                        == framed_content(*segment, data_view, vpn.0, j)
                },
                forall|q: u64| p <= q < e ==> (#[trigger] self.translate(q)).0 == 0,
                self.unchanged_outside(old(self), s, p),
                old(allocator).available() >= 3 * page_count(s, e) ==> allocator.available() >= 3 * (e - p),
                allocator.available() >= old(allocator).available() - 3 * (p - s),
                allocator.available() == old(allocator).available() - frames_needed(*old(self), s, p, true),
                forall|v: u64| #[trigger] self.missing_tables(v) == tables_missing_after(*old(self), s, p, v),
            decreases e - p,
        {
            let ghost before = *self;
            let ghost alloc_before = *allocator;
            let vpn = VirtualPageNumber(p);
            let data = match init_data {
                Some(d) => {
                    proof {
                        assert(p * PAGE_SIZE < segment.range.end.0) by (nonlinear_arith)
                            requires
                                p < e,
                                e == segment.range.end.0 / 4096 + if segment.range.end.0 % 4096 == 0 { 0int } else { 1int };
                    }
                    page_data(segment.range, vpn, d)
                },
                None => {
                    let mut z: Vec<u8> = Vec::new();
                    let mut k: u64 = 0;
                    while k < PAGE_SIZE
                        invariant
                            k <= PAGE_SIZE,
                            z@.len() == k,
                            forall|j: int| 0 <= j < k ==> #[trigger] z@[j] == 0,
                        decreases PAGE_SIZE - k,
                    {
                        z.push(0);
                        k = k + 1;
                    }
                    z
                },
            };
            proof {
                lemma_tables_missing_nonnegative(*old(self));
                lemma_frames_needed_monotone(*old(self), s, (p + 1) as u64, e, true);
                assert(frames_needed(*old(self), s, (p + 1) as u64, true)
                    == frames_needed(*old(self), s, p, true) + 1 + tables_missing_after(*old(self), s, p, p));
            }
            let frame = match allocator.allocate() {
                Ok(f) => f,
                Err(msg) => {
                    proof {
                        assert forall|v: u64| (forall|q: u64| s <= q < e ==> !#[trigger] same_slot(v, q))
                            implies #[trigger] self.translate(v) == old(self).translate(v) by {
                            assert(forall|q: u64| s <= q < p ==> !#[trigger] same_slot(v, q));
                        }
                        assert(self.mapped().subrange(0, n) == old(self).mapped());
                    }
                    return Err(msg);
                },
            };
            let ppn = frame.page_number();
            proof {
                if before.frames().contains(ppn.0) {
                    assert(alloc_before.allocated().contains(ppn.0));
                }
                assert(self.owned_by(allocator)) by {
                    assert forall|q: u64| #[trigger] self.frames().contains(q) implies allocator.allocated().contains(q) by {
                        assert(alloc_before.allocated().contains(q));
                    }
                }
                assert(ppn.0 <= MAX_PAGE_NUMBER);
            }
            let ghost alloc_mid = *allocator;
            let res = self.map_one(allocator, vpn, Some(ppn), segment.flags);
            proof {
                assert forall|q: u64| s <= q < e && q != p implies !same_slot(q, p) by {}
            }
            match res {
                Ok(()) => {},
                Err(msg) => {
                    proof {
                        // The frame is still handed out but not held by the address space.
                        assert(allocator.allocated().contains(ppn.0));
                        assert(!self.frames().contains(ppn.0)) by {
                            if self.frames().contains(ppn.0) {
                                assert(before.frames().contains(ppn.0));
                            }
                        }
                    }
                    allocator.deallocate(frame);
                    proof {
                        assert forall|q: u64| #[trigger] allocator.allocated().contains(q)
                            <==> old(allocator).allocated().contains(q) || (self.frames().contains(q) && !old(self).frames().contains(q)) by {
                            if q == ppn.0 {
                                assert(!old(allocator).allocated().contains(q));
                            }
                        }
                        assert forall|q: u64| #[trigger] self.frames().contains(q) implies allocator.allocated().contains(q) by {
                            assert(alloc_mid.allocated().contains(q) || (self.frames().contains(q) && !before.frames().contains(q)));
                        }
                        assert forall|v: u64| (forall|q: u64| s <= q < e ==> !#[trigger] same_slot(v, q))
                            implies #[trigger] self.translate(v) == old(self).translate(v) by {
                            assert(forall|q: u64| s <= q < p ==> !#[trigger] same_slot(v, q));
                        }
                        assert(self.mapped().subrange(0, n) == old(self).mapped());
                    }
                    return Err(msg);
                },
            }
            proof {
                assert forall|v: u64| #[trigger] self.missing_tables(v)
                    == tables_missing_after(*old(self), s, (p + 1) as u64, v) by {
                    lemma_tables_missing_step(*old(self), s, p, v);
                }
            }
            let ghost after_map = *self;
            self.push_mapped(vpn, frame);
            let w = MemoryWrite {
                address: VirtualAddress(ppn.0 * PAGE_SIZE + KERNEL_MAP_OFFSET),
                data,
            };
            writes.push(w);
            proof {
                assert forall|q: u64| #[trigger] allocator.allocated().contains(q)
                    <==> old(allocator).allocated().contains(q) || (self.frames().contains(q) && !old(self).frames().contains(q)) by {
                    if q == ppn.0 {
                        assert(!old(allocator).allocated().contains(q)) by {
                            if old(allocator).allocated().contains(q) {
                                assert(alloc_before.allocated().contains(q));
                            }
                        }
                        assert(!old(self).frames().contains(q)) by {
                            if old(self).frames().contains(q) {
                                assert(before.frames().contains(q));
                            }
                        }
                    }
                }
                assert forall|q: u64| #[trigger] old(self).frames().contains(q) implies self.frames().contains(q) by {
                    assert(before.frames().contains(q));
                }
                assert forall|q: u64| #[trigger] self.frames().contains(q) implies allocator.allocated().contains(q) by {
                    if q != ppn.0 {
                        assert(after_map.frames().contains(q));
                    }
                }
                assert(self.mapped().subrange(0, n) =~= old(self).mapped()) by {
                    assert(before.mapped().subrange(0, n) == old(self).mapped());
                    assert(self.mapped() == before.mapped().push((vpn, frame)));
                }
                assert forall|k: int| 0 <= k < p + 1 - s implies {
                    let (vv, ff) = #[trigger] self.mapped()[n + k];
                    &&& vv.0 == s + k
                    &&& self.translate(vv.0) == new_entry(Some(ff.0), segment.flags)
                    &&& writes@[k].address.0 == kernel_address_of(ff.0.0)
                    &&& writes@[k].data@.len() == PAGE_SIZE
                    &&& forall|j: int| 0 <= j < PAGE_SIZE ==> #[trigger] writes@[k].data@[j]
                        == framed_content(*segment, data_view, vv.0, j)
                } by {
                    if k < p - s {
                        assert(self.mapped()[n + k] == before.mapped()[n + k]);
                        let vv = before.mapped()[n + k].0;
                        assert(vv.0 == s + k);
                        assert(!same_slot(vv.0, p));
                    } else {
                        assert(self.mapped()[n + k] == (vpn, frame));
                        assert(same_slot(p, p));
                        assert(ppn.0 < PHYSICAL_PAGE_LIMIT);
                    }
                }
                assert forall|v: u64| (forall|q: u64| s <= q < p + 1 ==> !#[trigger] same_slot(v, q))
                    implies #[trigger] self.translate(v) == old(self).translate(v) by {
                    assert(!same_slot(v, p));
                    assert(forall|q: u64| s <= q < p ==> !#[trigger] same_slot(v, q));
                }
            }
            p = p + 1;
        }
        proof {
            allocator.lemma_available_nonnegative();
        }
        Ok(writes)
    }


    /// Maps every page of `segment`. A linear segment maps each page to the
    /// physical page at the kernel offset below it; a framed segment gets a
    /// new frame for each page, recorded with its page. The result lists the
    /// bytes that must then be stored: for a linear segment, `init_data` at
    /// the segment's start; for a framed one, each frame's share of
    /// `init_data`, zero elsewhere. The pages must not be mapped yet.
    pub fn map(&mut self, allocator: &mut FrameAllocator, segment: &Segment, init_data: Option<&[u8]>)
        -> (r: MemoryResult<Vec<MemoryWrite>>)
        requires
            old(self).owned_by(old(allocator)),
            old(self).pages_free(segment.pages().0, segment.pages().1),
            distinct_slots(segment.pages().0, segment.pages().1),
            segment.map_type == MapType::Linear ==> segment.range.start.0 >= KERNEL_MAP_OFFSET,
            segment.map_type == MapType::Framed && init_data is Some ==> segment.range.start.0 <= segment.range.end.0
                && init_data.unwrap()@.len() >= segment.range.end.0 - segment.range.start.0,
        ensures
            final(self).owned_by(final(allocator)),
            Mapping::grew_from(final(self), final(allocator), old(self), old(allocator)),
            final(self).root() == old(self).root(),
            final(self).unchanged_outside(old(self), segment.pages().0, segment.pages().1),
            final(self).mapped().len() >= old(self).mapped().len(),
            final(self).mapped().subrange(0, old(self).mapped().len() as int) == old(self).mapped(),
            segment.map_type == MapType::Linear ==> final(self).mapped() == old(self).mapped(),
            segment.map_type == MapType::Linear && r is Ok ==> {
                &&& forall|q: u64| segment.pages().0 <= q < segment.pages().1 ==> #[trigger] final(self).translate(q)
                    == new_entry(Some(PhysicalPageNumber((q - KERNEL_PAGE_OFFSET) as u64)), segment.flags)
                &&& match init_data {
                    Some(d) => r->Ok_0@.len() == 1 && r->Ok_0@[0].address == segment.range.start
                        && r->Ok_0@[0].data@ == d@,
                    None => r->Ok_0@.len() == 0,
                }
            },
            segment.map_type == MapType::Framed && r is Ok ==> {
                let (s, e) = segment.pages();
                let n = old(self).mapped().len() as int;
                let writes = r->Ok_0@;
                &&& final(self).mapped().len() == n + page_count(s, e)
                &&& writes.len() == page_count(s, e)
                &&& forall|k: int| 0 <= k < page_count(s, e) ==> {
                    let (vpn, frame) = #[trigger] final(self).mapped()[n + k];
                    &&& vpn.0 == s + k
                    &&& final(self).translate(vpn.0) == new_entry(Some(frame.0), segment.flags)
                    &&& writes[k].address.0 == kernel_address_of(frame.0.0)
                    &&& writes[k].data@.len() == PAGE_SIZE
                    &&& forall|j: int| 0 <= j < PAGE_SIZE ==> #[trigger] writes[k].data@[j]
                        == framed_content(*segment, if init_data is Some { Some(init_data.unwrap()@) } else { None }, vpn.0, j)
                }
            },
            segment.map_type == MapType::Linear && old(allocator).available() >= 2 * page_count(segment.pages().0, segment.pages().1) ==> r is Ok,
            segment.map_type == MapType::Framed && old(allocator).available() >= 3 * page_count(segment.pages().0, segment.pages().1) ==> r is Ok,
            segment.map_type == MapType::Linear && r is Ok ==> final(allocator).available()
                >= old(allocator).available() - 2 * page_count(segment.pages().0, segment.pages().1),
            segment.map_type == MapType::Framed && r is Ok ==> final(allocator).available()
                >= old(allocator).available() - 3 * page_count(segment.pages().0, segment.pages().1),
            segment.map_type == MapType::Linear && r is Err ==> final(allocator).available() == 0,
            segment.map_type == MapType::Framed && r is Err ==> final(allocator).available() <= 1,
            r is Err <==> old(allocator).available()
                < frames_needed(*old(self), segment.pages().0, segment.pages().1, segment.map_type == MapType::Framed),
            r is Ok ==> final(allocator).available() == old(allocator).available()
                - frames_needed(*old(self), segment.pages().0, segment.pages().1, segment.map_type == MapType::Framed),
            r is Ok ==> forall|v: u64| #[trigger] final(self).missing_tables(v)
                == tables_missing_after(*old(self), segment.pages().0, segment.pages().1, v),
    {
        match segment.map_type {
            MapType::Linear => {
                match self.map_linear(allocator, segment) {
                    Ok(()) => {},
                    Err(msg) => {
                        return Err(msg);
                    },
                }
                let mut writes: Vec<MemoryWrite> = Vec::new();
                if let Some(data) = init_data {
                    writes.push(MemoryWrite { address: segment.range.start, data: vstd::slice::slice_to_vec(data) });
                }
                Ok(writes)
            },
            MapType::Framed => self.map_framed(allocator, segment, init_data),
        }
    }

    /// The `satp` value that switches the processor to this address space:
    /// Sv39 mode (8 in bits 60..64) and the root table's page number.
    pub fn activate(&self) -> (satp: u64)
        requires
            self.wf(),
        ensures
            satp == self.root() | 0x8000_0000_0000_0000u64,
    {
        proof {
            assert(self.table_ppn(0) < PHYSICAL_PAGE_LIMIT);
        }
        let new_satp: u64 = self.root_ppn.0;
        assert(8u64 << 60u64 == 0x8000_0000_0000_0000u64) by (bit_vector);
        new_satp | (8u64 << 60u64)
    }


    /// The page tables as the MMU reads them: for each table, the kernel
    /// address of its frame and its 512 entry words, the root first. Once
    /// they are stored there, the hardware's walk finds what `translate` says.
    pub fn table_images(&self) -> (r: Vec<(u64, Vec<u64>)>)
        requires
            self.wf(),
        ensures
            r@.len() == self.table_count(),
            forall|t: int| 0 <= t < r@.len() ==> {
                &&& (#[trigger] r@[t]).0 == kernel_address_of(self.table_ppn(t))
                &&& r@[t].1@.len() == 512
                &&& forall|i: int| 0 <= i < 512 ==> #[trigger] r@[t].1@[i] == self.entry(t, i).0
            },
            r@[0].0 == kernel_address_of(self.root()),
    {
        let mut r: Vec<(u64, Vec<u64>)> = Vec::new();
        let mut t: usize = 0;
        while t < self.page_tables.len()
            invariant
                self.wf(),
                t <= self.page_tables@.len(),
                r@.len() == t,
                forall|u: int| 0 <= u < t ==> {
                    &&& (#[trigger] r@[u]).0 == kernel_address_of(self.table_ppn(u))
                    &&& r@[u].1@.len() == 512
                    &&& forall|i: int| 0 <= i < 512 ==> #[trigger] r@[u].1@[i] == self.entry(u, i).0
                },
            decreases self.page_tables@.len() - t,
        {
            let tracker = &self.page_tables[t];
            proof {
                assert(self.table_ppn(t as int) < PHYSICAL_PAGE_LIMIT);
                assert(tracker.table.entries@.len() == 512);
            }
            let mut words: Vec<u64> = Vec::new();
            let mut i: usize = 0;
            while i < 512
                invariant
                    tracker.table.entries@.len() == 512,
                    tracker == self.page_tables@[t as int],
                    i <= 512,
                    words@.len() == i,
                    forall|j: int| 0 <= j < i ==> #[trigger] words@[j] == self.entry(t as int, j).0,
                decreases 512 - i,
            {
                words.push(tracker.table.entries[i].0);
                i = i + 1;
            }
            let address = tracker.frame.0.0 * PAGE_SIZE + KERNEL_MAP_OFFSET;
            r.push((address, words));
            t = t + 1;
        }
        r
    }

    /// Whether none of the virtual pages `s..e` is mapped.
    pub fn pages_unmapped(&self, s: u64, e: u64) -> (r: bool)
        requires
            self.wf(),
        ensures
            r == self.pages_free(s, e),
    {
        let mut p = s;
        while p < e
            invariant
                self.wf(),
                s <= p,
                forall|q: u64| s <= q < p ==> (#[trigger] self.translate(q)).0 == 0,
            decreases e - p,
        {
            match self.lookup(VirtualPageNumber(p)) {
                Some(entry) => {
                    if entry.0 != 0 {
                        return false;
                    }
                },
                None => {},
            }
            p = p + 1;
        }
        true
    }

    /// The leaf entry that translates `vpn`, without allocating anything:
    /// nothing when a page table on the way is missing.
    pub fn lookup(&self, vpn: VirtualPageNumber) -> (r: Option<PageTableEntry>)
        requires
            self.wf(),
        ensures
            r is Some ==> r.unwrap() == self.translate(vpn.0),
            r is None ==> self.translate(vpn.0).0 == 0 && self.missing_tables(vpn.0) > 0,
    {
        let levels = vpn.levels();
        let e0 = self.page_tables[0].table.entries[levels[0] as usize];
        if e0.is_empty() {
            return None;
        }
        proof {
            assert(self.table_of@.contains_key(e0.page_number_view()));
        }
        let t1 = self.find_table(e0.page_number());
        let e1 = self.page_tables[t1].table.entries[levels[1] as usize];
        proof {
            assert(self.level_of@[t1 as int] == 1);
        }
        if e1.is_empty() {
            return None;
        }
        proof {
            assert(self.table_of@.contains_key(e1.page_number_view()));
        }
        let t2 = self.find_table(e1.page_number());
        Some(self.page_tables[t2].table.entries[levels[2] as usize])
    }

    /// The position of the leaf entry that translates `vpn`, without
    /// allocating anything: nothing when a page table on the way is missing.
    fn locate(&self, vpn: VirtualPageNumber) -> (r: Option<(usize, usize)>)
        requires
            self.wf(),
        ensures
            r is Some ==> self.is_leaf_of(vpn.0, (r->0).0 as int, (r->0).1 as int) && (r->0).1 < 512,
            r is None ==> self.translate(vpn.0).0 == 0,
    {
        let levels = vpn.levels();
        let e0 = self.page_tables[0].table.entries[levels[0] as usize];
        if e0.is_empty() {
            return None;
        }
        proof {
            assert(self.table_of@.contains_key(e0.page_number_view()));
        }
        let t1 = self.find_table(e0.page_number());
        let e1 = self.page_tables[t1].table.entries[levels[1] as usize];
        proof {
            assert(self.level_of@[t1 as int] == 1);
        }
        if e1.is_empty() {
            return None;
        }
        proof {
            assert(self.table_of@.contains_key(e1.page_number_view()));
        }
        let t2 = self.find_table(e1.page_number());
        Some((t2, levels[2] as usize))
    }

    /// Clears the leaf entries of the pages `s..e`: every page that shares a
    /// leaf entry with one of them translates to the empty entry, every
    /// other page as before. No table or frame comes or goes.
    fn clear_pages(&mut self, s: u64, e: u64)
        requires
            old(self).wf(),
        ensures
            final(self).wf(),
            final(self).frames() == old(self).frames(),
            final(self).root() == old(self).root(),
            final(self).mapped() == old(self).mapped(),
            final(self).table_count() == old(self).table_count(),
            forall|v: u64| #[trigger] final(self).translate(v) == if exists|q: u64| s <= q < e && #[trigger] same_slot(v, q) {
                PageTableEntry(0)
            } else {
                old(self).translate(v)
            },
    {
        let mut p = s;
        while p < e
            invariant
                self.wf(),
                s <= p,
                p <= e || p == s,
                self.frames() == old(self).frames(),
                self.root() == old(self).root(),
                self.mapped() == old(self).mapped(),
                self.table_count() == old(self).table_count(),
                forall|v: u64| #[trigger] self.translate(v) == if exists|q: u64| s <= q < p && #[trigger] same_slot(v, q) {
                    PageTableEntry(0)
                } else {
                    old(self).translate(v)
                },
            decreases e - p,
        {
            let ghost before = *self;
            match self.locate(VirtualPageNumber(p)) {
                Some((t, i)) => {
                    self.set_leaf(t, i, PageTableEntry(0), Ghost(p));
                },
                None => {},
            }
            proof {
                assert forall|v: u64| #[trigger] self.translate(v) == if exists|q: u64| s <= q < p + 1 && #[trigger] same_slot(v, q) {
                    PageTableEntry(0)
                } else {
                    old(self).translate(v)
                } by {
                    if same_slot(v, p) {
                        assert(s <= p < p + 1 && same_slot(v, p));
                        if self.translate(v) != PageTableEntry(0) {
                            assert(before.translate(v) == before.translate(p));
                        }
                    } else {
                        if exists|q: u64| s <= q < p + 1 && #[trigger] same_slot(v, q) {
                            let q = choose|q: u64| s <= q < p + 1 && #[trigger] same_slot(v, q);
                            assert(q != p);
                            assert(s <= q < p);
                        }
                    }
                }
            }
            p = p + 1;
        }
        proof {
            if e <= s {
                assert forall|v: u64| #[trigger] self.translate(v) == old(self).translate(v) by {
                    if exists|q: u64| s <= q < p && #[trigger] same_slot(v, q) {
                        let q = choose|q: u64| s <= q < p && #[trigger] same_slot(v, q);
                        assert(false);
                    }
                }
            }
        }
    }

    /// Gives the frames of the framed pages `s..e` back to `allocator` and
    /// forgets them; the other framed pages stay, in order. No translation
    /// changes.
    fn release_frames(&mut self, allocator: &mut FrameAllocator, s: u64, e: u64)
        requires
            old(self).owned_by(old(allocator)),
        ensures
            final(self).wf(),
            final(allocator).wf(),
            final(allocator).managed() == old(allocator).managed(),
            final(self).mapped() == old(self).mapped().filter(|x: (VirtualPageNumber, FrameTracker)| !(s <= x.0.0 < e)),
            forall|v: u64| #[trigger] final(self).translate(v) == old(self).translate(v),
            final(self).root() == old(self).root(),
            final(self).table_count() == old(self).table_count(),
            forall|p: u64| #[trigger] final(allocator).allocated().contains(p) <==> old(allocator).allocated().contains(p)
                && !released(old(self).mapped(), s, e, old(self).mapped().len() as int, p),
            final(self).owned_by(final(allocator)),
    {
        let ghost old_pairs = self.mapped_pairs@;
        let ghost pred = |x: (VirtualPageNumber, FrameTracker)| !(s <= x.0.0 < e);
        let ghost n = old_pairs.len() as int;
        let mut kept: VecDeque<(VirtualPageNumber, FrameTracker)> = VecDeque::new();
        let ghost mut k: int = 0;
        let ghost mut origin: Seq<int> = Seq::empty();
        while self.mapped_pairs.len() > 0
            invariant
                old(self).wf(),
                old(self).owned_by(old(allocator)),
                old_pairs == old(self).mapped_pairs@,
                n == old_pairs.len(),
                pred == (|x: (VirtualPageNumber, FrameTracker)| !(s <= x.0.0 < e)),
                allocator.wf(),
                allocator.managed() == old(allocator).managed(),
                0 <= k <= n,
                self.mapped_pairs@ == old_pairs.subrange(k, n),
                self.page_tables@ == old(self).page_tables@,
                self.root_ppn == old(self).root_ppn,
                self.table_of == old(self).table_of,
                self.level_of == old(self).level_of,
                kept@ == old_pairs.subrange(0, k).filter(pred),
                origin.len() == kept@.len(),
                forall|j: int| 0 <= j < origin.len() ==> 0 <= #[trigger] origin[j] < k && kept@[j] == old_pairs[origin[j]],
                forall|j1: int, j2: int| 0 <= j1 < j2 < origin.len() ==> #[trigger] origin[j1] < #[trigger] origin[j2],
                forall|p: u64| #[trigger] allocator.allocated().contains(p) <==> old(allocator).allocated().contains(p)
                    && !released(old_pairs, s, e, k, p),
            decreases n - k,
        {
            let ghost sub = old_pairs.subrange(0, k);
            let pair = self.mapped_pairs.pop_front().unwrap();
            proof {
                assert(pair == old_pairs[k]);
                assert(old_pairs.subrange(0, k + 1) =~= sub.push(pair));
                sub.lemma_filter_push(pair, pred);
                assert(self.mapped_pairs@ =~= old_pairs.subrange(k + 1, n));
            }
            let (vpn, frame) = pair;
            if s <= vpn.0 && vpn.0 < e {
                proof {
                    assert(old(self).frames().contains(frame.0.0));
                    assert forall|i: int| 0 <= i < k && s <= old_pairs[i].0.0 < e implies #[trigger] old_pairs[i].1.0.0 != frame.0.0 by {
                        assert(old_pairs[i].1.0.0 != old_pairs[k].1.0.0);
                    }
                }
                allocator.deallocate(frame);
                proof {
                    assert forall|p: u64| #[trigger] allocator.allocated().contains(p) <==> old(allocator).allocated().contains(p)
                        && !released(old_pairs, s, e, k + 1, p) by {
                        if released(old_pairs, s, e, k + 1, p) && !released(old_pairs, s, e, k, p) {
                            let i = choose|i: int| 0 <= i < k + 1 && s <= old_pairs[i].0.0 < e && #[trigger] old_pairs[i].1.0.0 == p;
                            assert(i == k);
                        }
                        if released(old_pairs, s, e, k, p) {
                            let i = choose|i: int| 0 <= i < k && s <= old_pairs[i].0.0 < e && #[trigger] old_pairs[i].1.0.0 == p;
                            assert(0 <= i < k + 1 && s <= old_pairs[i].0.0 < e && old_pairs[i].1.0.0 == p);
                        }
                    }
                }
            } else {
                kept.push_back((vpn, frame));
                proof {
                    origin = origin.push(k);
                    assert forall|p: u64| #[trigger] allocator.allocated().contains(p) <==> old(allocator).allocated().contains(p)
                        && !released(old_pairs, s, e, k + 1, p) by {
                        if released(old_pairs, s, e, k + 1, p) {
                            let i = choose|i: int| 0 <= i < k + 1 && s <= old_pairs[i].0.0 < e && #[trigger] old_pairs[i].1.0.0 == p;
                            assert(i != k);
                            assert(0 <= i < k && s <= old_pairs[i].0.0 < e && old_pairs[i].1.0.0 == p);
                        }
                    }
                }
            }
            proof {
                k = k + 1;
            }
        }
        proof {
            assert(self.mapped_pairs@.len() == n - k);
            assert(old_pairs.subrange(0, n) =~= old_pairs);
        }
        self.mapped_pairs = kept;
        proof {
            let o = *old(self);
            assert forall|j1: int, j2: int| 0 <= j1 < j2 < self.mapped_pairs@.len()
                implies (#[trigger] self.mapped_pairs@[j1]).1.0.0 != (#[trigger] self.mapped_pairs@[j2]).1.0.0 by {
                assert(origin[j1] < origin[j2]);
            }
            assert forall|j: int| 0 <= j < self.mapped_pairs@.len() implies {
                &&& !self.table_of@.contains_key((#[trigger] self.mapped_pairs@[j]).1.0.0)
                &&& self.mapped_pairs@[j].1.0.0 < PHYSICAL_PAGE_LIMIT
            } by {
                assert(self.mapped_pairs@[j] == old_pairs[origin[j]]);
            }
            assert forall|v: u64| #[trigger] self.translate(v) == old(self).translate(v) by {
                assert(self.walk2(v) == old(self).walk2(v));
            }
            assert forall|p: u64| #[trigger] self.frames().contains(p) implies allocator.allocated().contains(p) by {
                if !self.table_of@.contains_key(p) {
                    let j = choose|j: int| 0 <= j < self.mapped_pairs@.len() && #[trigger] self.mapped_pairs@[j].1.0.0 == p;
                    let i = origin[j];
                    assert(old_pairs[i].1.0.0 == p);
                    assert(old(self).frames().contains(p));
                    if released(old_pairs, s, e, n, p) {
                        let i2 = choose|i2: int| 0 <= i2 < n && s <= old_pairs[i2].0.0 < e && #[trigger] old_pairs[i2].1.0.0 == p;
                        assert(i2 != i);
                    }
                } else {
                    assert(old(self).frames().contains(p));
                    if released(old_pairs, s, e, n, p) {
                        let i2 = choose|i2: int| 0 <= i2 < n && s <= old_pairs[i2].0.0 < e && #[trigger] old_pairs[i2].1.0.0 == p;
                        assert(!old(self).table_of@.contains_key(old_pairs[i2].1.0.0));
                    }
                }
            }
            let n2 = self.page_tables@.len() as int;
            assert forall|t: int, i: int| 0 <= t < n2 && 0 <= i < 512 && self.level_of@[t] < 2
                && (#[trigger] self.entry(t, i)).0 != 0 implies {
                &&& self.table_of@.contains_key(self.entry(t, i).page_number_view())
                &&& self.level_of@[self.child(t, i)] == self.level_of@[t] + 1
            } by {
                assert(self.entry(t, i) == o.entry(t, i));
                assert(o.entry(t, i).0 != 0);
            }
            assert forall|t1: int, i1: int, t2: int, i2: int|
                0 <= t1 < n2 && 0 <= i1 < 512 && 0 <= t2 < n2 && 0 <= i2 < 512
                && self.level_of@[t1] < 2 && self.level_of@[t2] < 2
                && (#[trigger] self.entry(t1, i1)).0 != 0 && (#[trigger] self.entry(t2, i2)).0 != 0
                && self.entry(t1, i1).page_number_view() == self.entry(t2, i2).page_number_view()
                implies t1 == t2 && i1 == i2 by {
                assert(self.entry(t1, i1) == o.entry(t1, i1));
                assert(self.entry(t2, i2) == o.entry(t2, i2));
                assert(o.entry(t1, i1).0 != 0 && o.entry(t2, i2).0 != 0);
            }
            assert(self.wf());
        }
    }

    /// Unmaps the pages of `segment`: every page that shares a leaf entry
    /// with one of them translates to the empty entry, every other page as
    /// before. The frames of a framed segment's pages go back to
    /// `allocator` and leave `mapped()`; no page table is freed or allocated.
    pub fn unmap(&mut self, allocator: &mut FrameAllocator, segment: &Segment)
        requires
            old(self).owned_by(old(allocator)),
        ensures
            final(self).owned_by(final(allocator)),
            final(allocator).managed() == old(allocator).managed(),
            final(self).root() == old(self).root(),
            final(self).table_count() == old(self).table_count(),
            forall|v: u64| #[trigger] final(self).translate(v) == if exists|q: u64|
                segment.pages().0 <= q < segment.pages().1 && #[trigger] same_slot(v, q) {
                PageTableEntry(0)
            } else {
                old(self).translate(v)
            },
            segment.map_type == MapType::Linear ==> final(self).mapped() == old(self).mapped()
                && final(allocator).allocated() == old(allocator).allocated(),
            segment.map_type == MapType::Framed ==> final(self).mapped() == old(self).mapped().filter(
                |x: (VirtualPageNumber, FrameTracker)| !(segment.pages().0 <= x.0.0 < segment.pages().1),
            ),
            segment.map_type == MapType::Framed ==> forall|p: u64| #[trigger] final(allocator).allocated().contains(p)
                <==> old(allocator).allocated().contains(p) && !released(
                old(self).mapped(),
                segment.pages().0,
                segment.pages().1,
                old(self).mapped().len() as int,
                p,
            ),
    {
        let pages = segment.page_range();
        let s = pages.start.0;
        let e = pages.end.0;
        self.clear_pages(s, e);
        if segment.map_type == MapType::Framed {
            self.release_frames(allocator, s, e);
        }
    }

    /// Position of the table living in physical page `ppn`.
    fn find_table(&self, ppn: PhysicalPageNumber) -> (t: usize)
        requires
            self.wf(),
            self.table_of@.contains_key(ppn.0),
        ensures
            t == self.table_of@[ppn.0],
    {
        let mut t: usize = 0;
        while t < self.page_tables.len()
            invariant
                self.wf(),
                self.table_of@.contains_key(ppn.0),
                t <= self.page_tables@.len(),
                forall|j: int| 0 <= j < t ==> self.table_ppn(j) != ppn.0,
            decreases self.page_tables@.len() - t,
        {
            if self.page_tables[t].frame.0.0 == ppn.0 {
                return t;
            }
            t = t + 1;
        }
        proof {
            let j = self.table_of@[ppn.0];
            assert(self.table_ppn(j) == ppn.0);
        }
        t
    }

    /// An empty address space: a root table, cleared, in a newly allocated frame.
    pub fn new(allocator: &mut FrameAllocator) -> (r: MemoryResult<Mapping>)
        requires
            old(allocator).wf(),
        ensures
            final(allocator).wf(),
            final(allocator).managed() == old(allocator).managed(),
            old(allocator).available() == 0 <==> r is Err,
            r is Err ==> final(allocator).allocated() == old(allocator).allocated(),
            r is Err ==> final(allocator).available() == 0,
            r is Ok ==> {
                let m = r->Ok_0;
                &&& m.owned_by(final(allocator))
                &&& forall|vpn: u64| #[trigger] m.translate(vpn) == PageTableEntry(0)
                &&& forall|vpn: u64| #[trigger] m.missing_tables(vpn) == 2
                &&& m.table_count() == 1
                &&& m.table_ppn(0) == m.root()
                &&& forall|i: int| 0 <= i < 512 ==> (#[trigger] m.entry(0, i)).0 == 0
                &&& m.mapped() == Seq::<(VirtualPageNumber, FrameTracker)>::empty()
                &&& !old(allocator).allocated().contains(m.root())
                &&& final(allocator).allocated() == old(allocator).allocated().insert(m.root())
                &&& final(allocator).available() == old(allocator).available() - 1
            },
    {
        let frame_tracker = match allocator.allocate() {
            Ok(f) => f,
            Err(e) => {
                return Err(e);
            },
        };
        let root_ppn = frame_tracker.page_number();
        let mut page_tables: Vec<PageTableTracker> = Vec::new();
        page_tables.push(PageTableTracker::new(frame_tracker));
        let m = Mapping {
            page_tables,
            root_ppn,
            mapped_pairs: VecDeque::new(),
            table_of: Ghost(Map::empty().insert(root_ppn.0, 0int)),
            level_of: Ghost(Seq::empty().push(0int)),
        };
        proof {
            assert(m.entry(0, 0) == PageTableEntry(0));
            assert forall|vpn: u64| #[trigger] m.translate(vpn) == PageTableEntry(0) by {
                assert(m.entry(0, level_index(vpn, 0) as int) == PageTableEntry(0));
            }
            assert forall|vpn: u64| #[trigger] m.missing_tables(vpn) == 2 by {
                assert(m.entry(0, level_index(vpn, 0) as int) == PageTableEntry(0));
            }
            assert forall|p: u64| #[trigger] m.frames().contains(p)
                implies final(allocator).allocated().contains(p) by {
                assert(p == root_ppn.0);
            }
        }
        Ok(m)
    }
}

/// Two pages whose walks reach the same second-level table take the same
/// root entry.
proof fn lemma_walk1_injective(m: Mapping, v: u64, w: u64)
    requires
        m.wf(),
        m.walk1(v) is Some,
        m.walk1(v) == m.walk1(w),
    ensures
        level_index(v, 0) == level_index(w, 0),
{
    let i = level_index(v, 0) as int;
    let j = level_index(w, 0) as int;
    assert(m.table_of@.contains_key(m.entry(0, i).page_number_view()));
    assert(m.table_of@.contains_key(m.entry(0, j).page_number_view()));
    assert(m.table_ppn(m.child(0, i)) == m.entry(0, i).page_number_view());
    assert(m.table_ppn(m.child(0, j)) == m.entry(0, j).page_number_view());
}

/// A frame that the allocator hands out is never one that an address space
/// it owns already holds: `allocate` returns a frame not handed out, and
/// every frame the address space holds is handed out.
pub proof fn law_fresh_frame_not_held(m: Mapping, allocator: FrameAllocator, frame: u64)
    requires
        m.owned_by(&allocator),
        !allocator.allocated().contains(frame),
    ensures
        !m.frames().contains(frame),
{
}

/// What `map` installs, `lookup` finds and reads back: an entry installed
/// for a page is valid, so not the empty entry that `lookup` reports for
/// an unmapped page, and holds the page number and the flags it was
/// installed with.
pub proof fn law_lookup_reads_back(m: Mapping, vpn: u64, ppn: PhysicalPageNumber, flags: Flags)
    requires
        m.translate(vpn) == new_entry(Some(ppn), flags),
        ppn.0 <= MAX_PAGE_NUMBER,
    ensures
        m.translate(vpn).0 != 0,
        m.translate(vpn).page_number_view() == ppn.0,
        m.translate(vpn).flags_view() & FLAG_V == FLAG_V,
        m.translate(vpn).flags_view() & !FLAG_V == flags.bits & !FLAG_V,
{
    law_new_entry_round_trip(Some(ppn), flags);
    let e = m.translate(vpn);
    if e.0 == 0 {
        assert((0u64 & 0xffu64) as u8 == 0u8) by (bit_vector);
        assert(e.flags_view() == 0u8);
        assert((0u8 & 1u8) == 0u8) by (bit_vector);
    }
}

/// A walk never lacks a negative number of tables.
pub proof fn lemma_missing_tables_nonnegative(m: Mapping)
    ensures
        forall|v: u64| 0 <= #[trigger] m.missing_tables(v),
{
}

/// Pages that share a leaf entry translate alike.
pub proof fn lemma_same_slot_translate(m: Mapping, v: u64, p: u64)
    requires
        same_slot(v, p),
    ensures
        m.translate(v) == m.translate(p),
{
}

/// The framed page at position `k` of a well-formed address space, when it
/// translates to its frame, translates to a non-empty entry.
pub proof fn lemma_mapped_page_present(m: Mapping, k: int, flags: Flags)
    requires
        m.wf(),
        0 <= k < m.mapped().len(),
        m.translate(m.mapped()[k].0.0) == new_entry(Some(m.mapped()[k].1.0), flags),
    ensures
        m.translate(m.mapped()[k].0.0).0 != 0,
{
    law_lookup_reads_back(m, m.mapped()[k].0.0, m.mapped()[k].1.0, flags);
}

/// Finding a page's leaf entry twice: after a first `find_entry(vpn)` has
/// returned the position `(t, i)`, no table is missing on the way to `vpn`,
/// so a second `find_entry(vpn)` allocates nothing, changes nothing and
/// returns the same position.
pub proof fn law_find_entry_idempotent(
    mid: Mapping,
    mid_alloc: FrameAllocator,
    after: Mapping,
    after_alloc: FrameAllocator,
    vpn: u64,
    t: int,
    i: int,
    t2: int,
    i2: int,
)
    requires
        mid.is_leaf_of(vpn, t, i),
        mid.missing_tables(vpn) == 0 ==> after == mid && after_alloc == mid_alloc,
        after.is_leaf_of(vpn, t2, i2),
    ensures
        after == mid,
        after_alloc == mid_alloc,
        after_alloc.available() == mid_alloc.available(),
        after.table_count() == mid.table_count(),
        t2 == t,
        i2 == i,
{
}

/// Mapping a linear segment and then looking a page up: every page of the
/// segment reads back as a valid entry for the physical page at the kernel
/// offset below it, with the segment's flags; every page that shares no
/// page-table slot with the segment reads back as it did before.
pub proof fn law_map_linear_then_lookup(before: Mapping, after: Mapping, segment: Segment, vpn: u64)
    requires
        segment.map_type == MapType::Linear,
        segment.range.start.0 >= KERNEL_MAP_OFFSET,
        forall|q: u64| segment.pages().0 <= q < segment.pages().1 ==> #[trigger] after.translate(q)
            == new_entry(Some(PhysicalPageNumber((q - KERNEL_PAGE_OFFSET) as u64)), segment.flags),
        after.unchanged_outside(&before, segment.pages().0, segment.pages().1),
    ensures
        segment.pages().0 <= vpn < segment.pages().1 ==> {
            &&& after.translate(vpn).0 != 0
            &&& after.translate(vpn).page_number_view() == vpn - KERNEL_PAGE_OFFSET
            &&& after.translate(vpn).flags_view() & !FLAG_V == segment.flags.bits & !FLAG_V
        },
        (forall|q: u64| segment.pages().0 <= q < segment.pages().1 ==> !#[trigger] same_slot(vpn, q))
            ==> after.translate(vpn) == before.translate(vpn),
{
    if segment.pages().0 <= vpn < segment.pages().1 {
        assert(segment.pages().0 >= KERNEL_PAGE_OFFSET);
        law_lookup_reads_back(after, vpn, PhysicalPageNumber((vpn - KERNEL_PAGE_OFFSET) as u64), segment.flags);
    }
}

} // verus!
