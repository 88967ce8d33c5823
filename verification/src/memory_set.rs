//! The virtual memory space of a process: its mapping and its segments.

use vstd::prelude::*;
use crate::address::{PhysicalPageNumber, Range, VirtualAddress, KERNEL_PAGE_OFFSET, PAGE_SIZE};
use crate::frame::{FrameAllocator, MemoryResult};
use crate::address::KERNEL_MAP_OFFSET;
use crate::mapping::{
    distinct_slots, frames_needed, frames_needed_from, framed_content, lemma_frames_needed_from_nonnegative, missing_after, missing_of, tables_missing_after, kernel_address_of, lemma_window_slots_distinct, new_entry, page_count, same_slot, Mapping,
    MemoryWrite, KERNEL_WINDOW_PAGE,
};
use crate::page_table_entry::{Flags, PageTableEntry, FLAG_R, FLAG_V, FLAG_W, FLAG_X, MAX_PAGE_NUMBER};
use crate::segment::{MapType, Segment};
use crate::mapping::{law_lookup_reads_back, lemma_mapped_page_present, lemma_missing_tables_nonnegative, lemma_near_slots_distinct, lemma_same_slot_translate};
use crate::elf::{elf_header_valid, elf_segments, loadable, loaded, program_segment, segments_view};
use crate::elf::ph_count_reading;

verus! {

/// Start of the core-local interruptor's registers in the kernel's view.
pub const CLINT_START: u64 = 0xffff_ffff_0200_0000;
/// End of the core-local interruptor's registers in the kernel's view.
pub const CLINT_END: u64 = 0xffff_ffff_0200_c000;

/// Where the linker placed the kernel's sections, and where memory ends,
/// as kernel virtual addresses.
#[derive(Clone, Copy, Debug)]
pub struct KernelLayout {
    pub text_start: u64,
    pub rodata_start: u64,
    pub data_start: u64,
    pub bss_start: u64,
    pub kernel_end: u64,
    pub memory_end: u64,
}

impl KernelLayout {
    /// The sections are page aligned, in order, at or above the kernel's
    /// offset, and clear of the interruptor's registers.
    pub open spec fn valid(self) -> bool {
        &&& (CLINT_END <= self.text_start || (KERNEL_MAP_OFFSET <= self.text_start && self.memory_end <= CLINT_START))
        &&& self.text_start <= self.rodata_start <= self.data_start <= self.bss_start
        &&& self.bss_start <= self.kernel_end <= self.memory_end
        &&& self.text_start % PAGE_SIZE == 0
        &&& self.rodata_start % PAGE_SIZE == 0
        &&& self.data_start % PAGE_SIZE == 0
        &&& self.bss_start % PAGE_SIZE == 0
        &&& self.kernel_end % PAGE_SIZE == 0
        &&& self.memory_end % PAGE_SIZE == 0
    }

    /// Whether the layout is `valid`.
    pub fn is_valid(&self) -> (r: bool)
        ensures
            r == self.valid(),
    {
        (CLINT_END <= self.text_start || (KERNEL_MAP_OFFSET <= self.text_start && self.memory_end <= CLINT_START))
            && self.text_start <= self.rodata_start && self.rodata_start <= self.data_start
            && self.data_start <= self.bss_start && self.bss_start <= self.kernel_end
            && self.kernel_end <= self.memory_end && self.text_start % PAGE_SIZE == 0
            && self.rodata_start % PAGE_SIZE == 0 && self.data_start % PAGE_SIZE == 0
            && self.bss_start % PAGE_SIZE == 0 && self.kernel_end % PAGE_SIZE == 0
            && self.memory_end % PAGE_SIZE == 0
    }
}

/// A linear kernel segment over `start..end` with flag bits `flags`.
pub open spec fn linear_segment(start: u64, end: u64, flags: u8) -> Segment {
    Segment {
        map_type: MapType::Linear,
        range: Range { start: VirtualAddress(start), end: VirtualAddress(end) },
        flags: Flags { bits: flags },
    }
}

/// The segments of the kernel's address space: text, read-only data, data,
/// bss, the rest of physical memory, and the interruptor's registers.
pub open spec fn kernel_segments(l: KernelLayout) -> Seq<Segment> {
    seq![
        linear_segment(l.text_start, l.rodata_start, FLAG_R | FLAG_X),
        linear_segment(l.rodata_start, l.data_start, FLAG_R),
        linear_segment(l.data_start, l.bss_start, FLAG_R | FLAG_W),
        linear_segment(l.bss_start, l.kernel_end, FLAG_R | FLAG_W),
        linear_segment(l.kernel_end, l.memory_end, FLAG_R | FLAG_W),
        linear_segment(CLINT_START, CLINT_END, FLAG_R | FLAG_W),
    ]
}

/// Number of pages the first `n` of `segs` cover.
pub open spec fn total_pages(segs: Seq<Segment>, n: int) -> int
    decreases n,
{
    if n <= 0 {
        0
    } else {
        total_pages(segs, n - 1) + page_count(segs[n - 1].pages().0, segs[n - 1].pages().1)
    }
}

proof fn lemma_total_pages_monotone(segs: Seq<Segment>, i: int, j: int)
    requires
        0 <= i <= j,
    ensures
        total_pages(segs, i) <= total_pages(segs, j),
    decreases j - i,
{
    if i < j {
        lemma_total_pages_monotone(segs, i, j - 1);
    }
}

/// Every page of the linear segment `seg` maps to the physical page at the
/// kernel offset below it, with the segment's flags.
pub open spec fn maps_linearly(m: Mapping, seg: Segment) -> bool {
    forall|q: u64| seg.pages().0 <= q < seg.pages().1 ==> #[trigger] m.translate(q)
        == new_entry(Some(PhysicalPageNumber((q - KERNEL_PAGE_OFFSET) as u64)), seg.flags)
}

/// The tables each walk lacks once the first `k` kernel segments of
/// `layout` are mapped, in order, into an empty address space.
pub open spec fn kernel_missing(layout: KernelLayout, k: nat) -> spec_fn(u64) -> int
    decreases k,
{
    if k == 0 {
        |v: u64| 2int
    } else {
        let seg = kernel_segments(layout)[k - 1];
        let prev = kernel_missing(layout, (k - 1) as nat);
        |v: u64| missing_after(prev, seg.pages().0, seg.pages().1, v)
    }
}

/// Frames that building the kernel's address space takes, up to its first
/// `k` segments: the root table, then the page tables of each segment.
pub open spec fn kernel_frames_needed(layout: KernelLayout, k: nat) -> int
    decreases k,
{
    if k == 0 {
        1
    } else {
        let seg = kernel_segments(layout)[k - 1];
        kernel_frames_needed(layout, (k - 1) as nat)
            + frames_needed_from(kernel_missing(layout, (k - 1) as nat), seg.pages().0, seg.pages().1, false)
    }
}

/// Walks never lack fewer than zero tables, and more segments never take
/// fewer frames.
proof fn lemma_kernel_frames_monotone(layout: KernelLayout, i: nat, j: nat)
    requires
        i <= j,
    ensures
        forall|v: u64| 0 <= #[trigger] kernel_missing(layout, i)(v),
        kernel_frames_needed(layout, i) <= kernel_frames_needed(layout, j),
        1 <= kernel_frames_needed(layout, i),
    decreases j,
{
    if i < j {
        lemma_kernel_frames_monotone(layout, i, (j - 1) as nat);
        lemma_kernel_frames_monotone(layout, (j - 1) as nat, (j - 1) as nat);
        let seg = kernel_segments(layout)[j - 1];
        lemma_frames_needed_from_nonnegative(kernel_missing(layout, (j - 1) as nat), seg.pages().0, seg.pages().1, false);
    } else if i > 0 {
        lemma_kernel_frames_monotone(layout, (i - 1) as nat, (i - 1) as nat);
        let seg = kernel_segments(layout)[i - 1];
        let prev = kernel_missing(layout, (i - 1) as nat);
        lemma_frames_needed_from_nonnegative(prev, seg.pages().0, seg.pages().1, false);
        assert forall|v: u64| 0 <= #[trigger] kernel_missing(layout, i)(v) by {
            assert(0 <= prev(v));
        }
    }
}

/// The segments of a list of segments with their bytes.
pub open spec fn view_segments(sv: Seq<(Segment, Seq<u8>)>) -> Seq<Segment> {
    sv.map_values(|x: (Segment, Seq<u8>)| x.0)
}

/// The segments of a program's list, without their bytes.
pub open spec fn segment_list(segments: Seq<(Segment, Vec<u8>)>) -> Seq<Segment> {
    view_segments(segments_view(segments))
}

/// The tables each walk of `m` lacks once the first `k` of `segs` are
/// mapped into it, in order.
pub open spec fn program_missing(m: Mapping, segs: Seq<Segment>, k: nat) -> spec_fn(u64) -> int
    decreases k,
{
    if k == 0 {
        missing_of(m)
    } else {
        let seg = segs[k - 1];
        let prev = program_missing(m, segs, (k - 1) as nat);
        |v: u64| missing_after(prev, seg.pages().0, seg.pages().1, v)
    }
}

/// Frames that mapping the first `k` of the framed segments `segs` into
/// `m`, in order, takes: a frame per page and the page tables each lacks.
pub open spec fn program_frames_needed(m: Mapping, segs: Seq<Segment>, k: nat) -> int
    decreases k,
{
    if k == 0 {
        0
    } else {
        let seg = segs[k - 1];
        program_frames_needed(m, segs, (k - 1) as nat)
            + frames_needed_from(program_missing(m, segs, (k - 1) as nat), seg.pages().0, seg.pages().1, true)
    }
}

/// Whether page `q` is mapped once the first `k` of `segs` are mapped into
/// `m`: it is mapped in `m`, or it shares a leaf entry with a page of one
/// of them.
pub open spec fn mapped_after(m: Mapping, segs: Seq<Segment>, k: int, q: u64) -> bool {
    ||| m.translate(q).0 != 0
    ||| exists|j: int, p: u64|
        #![trigger segs[j], same_slot(q, p)]
        0 <= j < k && segs[j].pages().0 <= p < segs[j].pages().1 && same_slot(q, p)
}

/// Whether segment `k` of `segs` can be mapped into `m` after the ones
/// before it: it covers at most 2^27 pages and none of its pages is mapped
/// by then.
pub open spec fn segment_placeable(m: Mapping, segs: Seq<Segment>, k: int) -> bool {
    let s = segs[k].pages().0;
    let e = segs[k].pages().1;
    &&& !(s < e && e - s > 0x800_0000)
    &&& forall|q: u64| s <= q < e ==> !#[trigger] mapped_after(m, segs, k, q)
}

/// Whether the segments `segs` can all be mapped into `m`, in order, with
/// `available` frames.
pub open spec fn program_fits(m: Mapping, segs: Seq<Segment>, available: int) -> bool {
    &&& forall|k: int| 0 <= k < segs.len() ==> #[trigger] segment_placeable(m, segs, k)
    &&& available >= program_frames_needed(m, segs, segs.len())
}

/// Page `i` of program segment `j` is the mapped page at position
/// `n0 + total_pages(segs, j) + i` of `after`, translates to its frame with
/// the segment's flags, and write `total_pages(segs, j) + i` of `writes`
/// fills that frame with the page's bytes.
pub open spec fn page_written(
    after: Mapping,
    sv: Seq<(Segment, Seq<u8>)>,
    n0: int,
    j: int,
    i: int,
    writes: Seq<MemoryWrite>,
) -> bool {
    let seg = sv[j].0;
    let k = total_pages(view_segments(sv), j) + i;
    let vpn = after.mapped()[n0 + k].0;
    let frame = after.mapped()[n0 + k].1;
    &&& vpn.0 == seg.pages().0 + i
    &&& after.translate(vpn.0) == new_entry(Some(frame.0), seg.flags)
    &&& writes[k].address.0 == kernel_address_of(frame.0.0)
    &&& writes[k].data@.len() == PAGE_SIZE
    &&& forall|b: int| 0 <= b < PAGE_SIZE ==> #[trigger] writes[k].data@[b]
        == framed_content(seg, Some(sv[j].1), vpn.0, b)
}

/// The first `k` of the segments `sv`, each with its bytes, are mapped in
/// `after` from position `n0` of its framed pages on, each page to a new
/// frame (more framed pages may follow), and `writes` fill those frames, segment after segment, page after
/// page.
pub open spec fn pages_written(after: Mapping, sv: Seq<(Segment, Seq<u8>)>, n0: int, k: int, writes: Seq<MemoryWrite>) -> bool {
    let segs = view_segments(sv);
    &&& after.mapped().len() >= n0 + total_pages(segs, k)
    &&& writes.len() == total_pages(segs, k)
    &&& forall|j: int, i: int|
        0 <= j < k && 0 <= i < page_count(segs[j].pages().0, segs[j].pages().1)
            ==> #[trigger] page_written(after, sv, n0, j, i, writes)
}

/// The first `k` of the program segments `segments` are mapped from
/// `before` into `after`, whose earlier framed pages stay, and `writes`
/// fill the new frames (`pages_written`).
pub open spec fn program_written(
    before: Mapping,
    after: Mapping,
    segments: Seq<(Segment, Vec<u8>)>,
    k: int,
    writes: Seq<MemoryWrite>,
) -> bool {
    let n0 = before.mapped().len() as int;
    &&& after.mapped().subrange(0, n0) == before.mapped()
    &&& after.mapped().len() == n0 + total_pages(segment_list(segments), k)
    &&& pages_written(after, segments_view(segments), n0, k, writes)
}

/// A page of an earlier segment comes before every page of a later one in
/// the segments' page numbering.
proof fn lemma_total_pages_step(segs: Seq<Segment>, j: int, k: int, i: int)
    requires
        0 <= j < k,
        0 <= i < page_count(segs[j].pages().0, segs[j].pages().1),
    ensures
        total_pages(segs, j) + i < total_pages(segs, k),
    decreases k - j,
{
    lemma_total_pages_monotone(segs, j + 1, k);
}

/// Page `i` of segment `j` is numbered below the pages of all of `segs`'
/// first `n` segments, and not below zero.
pub proof fn lemma_page_index_bounds(segs: Seq<Segment>, j: int, i: int, n: int)
    requires
        0 <= j < n,
        0 <= i < page_count(segs[j].pages().0, segs[j].pages().1),
    ensures
        0 <= total_pages(segs, j) + i < total_pages(segs, n),
{
    lemma_total_pages_monotone(segs, 0, j);
    lemma_total_pages_monotone(segs, j + 1, n);
}

/// Walks never lack fewer than zero tables, and more segments never take
/// fewer frames.
proof fn lemma_program_frames_monotone(m: Mapping, segs: Seq<Segment>, i: nat, j: nat)
    requires
        i <= j,
    ensures
        forall|v: u64| 0 <= #[trigger] program_missing(m, segs, i)(v),
        program_frames_needed(m, segs, i) <= program_frames_needed(m, segs, j),
        0 <= program_frames_needed(m, segs, i),
    decreases j,
{
    if i < j {
        lemma_program_frames_monotone(m, segs, i, (j - 1) as nat);
        lemma_program_frames_monotone(m, segs, (j - 1) as nat, (j - 1) as nat);
        let seg = segs[j - 1];
        lemma_frames_needed_from_nonnegative(program_missing(m, segs, (j - 1) as nat), seg.pages().0, seg.pages().1, true);
    } else if i > 0 {
        lemma_program_frames_monotone(m, segs, (i - 1) as nat, (i - 1) as nat);
        let seg = segs[i - 1];
        let prev = program_missing(m, segs, (i - 1) as nat);
        lemma_frames_needed_from_nonnegative(prev, seg.pages().0, seg.pages().1, true);
        assert forall|v: u64| 0 <= #[trigger] program_missing(m, segs, i)(v) by {
            assert(0 <= prev(v));
        }
    } else {
        lemma_missing_tables_nonnegative(m);
    }
}

/// The flag bits that the leaf entry of page `q` in `m` holds, besides the
/// valid bit.
pub open spec fn page_flags(m: Mapping, q: u64) -> u8 {
    m.translate(q).flags_view() & !FLAG_V
}

/// A page of a linearly mapped segment of the kernel window is valid and
/// holds the segment's flags.
proof fn lemma_linear_page_flags(m: Mapping, seg: Segment, q: u64)
    requires
        maps_linearly(m, seg),
        seg.pages().0 <= q < seg.pages().1,
        KERNEL_PAGE_OFFSET <= q < 0x10_0000_0000_0000,
    ensures
        m.translate(q).0 != 0,
        page_flags(m, q) == seg.flags.bits & !FLAG_V,
{
    let ppn = PhysicalPageNumber((q - KERNEL_PAGE_OFFSET) as u64);
    assert(ppn.0 <= MAX_PAGE_NUMBER);
    law_lookup_reads_back(m, q, ppn, seg.flags);
}

/// The kernel's permissions, section by section: in an address space where
/// the kernel segments of a valid `layout` are mapped linearly (as
/// `new_kernel` builds it), every page of `.text` is readable and
/// executable but not writable, every page of `.rodata` only readable,
/// every page of `.data`, `.bss` and the rest of memory readable and
/// writable but not executable, and every page of the interruptor's
/// registers readable and writable; each is valid and not user accessible.
pub proof fn law_kernel_permissions(layout: KernelLayout, m: Mapping, q: u64)
    requires
        layout.valid(),
        forall|k: int| 0 <= k < 6 ==> maps_linearly(m, #[trigger] kernel_segments(layout)[k]),
    ensures
        layout.text_start / PAGE_SIZE <= q < layout.rodata_start / PAGE_SIZE ==> m.translate(q).0 != 0
            && page_flags(m, q) == FLAG_R | FLAG_X,
        layout.rodata_start / PAGE_SIZE <= q < layout.data_start / PAGE_SIZE ==> m.translate(q).0 != 0
            && page_flags(m, q) == FLAG_R,
        layout.data_start / PAGE_SIZE <= q < layout.memory_end / PAGE_SIZE ==> m.translate(q).0 != 0
            && page_flags(m, q) == FLAG_R | FLAG_W,
        CLINT_START / PAGE_SIZE <= q < CLINT_END / PAGE_SIZE ==> m.translate(q).0 != 0
            && page_flags(m, q) == FLAG_R | FLAG_W,
{
    let segs = kernel_segments(layout);
    assert(KERNEL_PAGE_OFFSET <= KERNEL_MAP_OFFSET / PAGE_SIZE);
    assert(layout.memory_end / PAGE_SIZE <= 0x10_0000_0000_0000);
    assert((FLAG_R | FLAG_X) & !FLAG_V == FLAG_R | FLAG_X) by (bit_vector);
    assert(FLAG_R & !FLAG_V == FLAG_R) by (bit_vector);
    assert((FLAG_R | FLAG_W) & !FLAG_V == FLAG_R | FLAG_W) by (bit_vector);
    let k: int = if q < layout.rodata_start / PAGE_SIZE {
        0
    } else if q < layout.data_start / PAGE_SIZE {
        1
    } else if q < layout.bss_start / PAGE_SIZE {
        2
    } else if q < layout.kernel_end / PAGE_SIZE {
        3
    } else {
        4
    };
    if layout.text_start / PAGE_SIZE <= q < layout.memory_end / PAGE_SIZE {
        assert(segs[k].pages().0 <= q < segs[k].pages().1);
        lemma_linear_page_flags(m, segs[k], q);
    }
    if CLINT_START / PAGE_SIZE <= q < CLINT_END / PAGE_SIZE {
        assert(segs[5].pages().0 <= q < segs[5].pages().1);
        lemma_linear_page_flags(m, segs[5], q);
    }
}

/// Everything about a virtual memory space that a process needs.
pub struct MemorySet {
    pub mapping: Mapping,
    pub segments: Vec<Segment>,
}

/// The pages of `seg` lie in the kernel window, page aligned at both ends.
spec fn window_segment(seg: Segment) -> bool {
    &&& seg.range.start.0 % PAGE_SIZE == 0
    &&& seg.range.end.0 % PAGE_SIZE == 0
    &&& seg.range.start.0 <= seg.range.end.0
    &&& KERNEL_WINDOW_PAGE <= seg.pages().0
    &&& seg.map_type == MapType::Linear
}

impl MemorySet {
    /// The kernel's address space: each kernel segment mapped linearly with
    /// its flags. Fails only when frames for page tables run out.
    pub fn new_kernel(allocator: &mut FrameAllocator, layout: KernelLayout) -> (r: MemoryResult<MemorySet>)
        requires
            old(allocator).wf(),
            layout.valid(),
        ensures
            final(allocator).wf(),
            final(allocator).managed() == old(allocator).managed(),
            old(allocator).available() >= 1 + 2 * total_pages(kernel_segments(layout), 6) ==> r is Ok,
            r is Err ==> final(allocator).available() == 0,
            r is Err <==> old(allocator).available() < kernel_frames_needed(layout, 6),
            r is Ok ==> final(allocator).available() == old(allocator).available() - kernel_frames_needed(layout, 6),
            r is Ok ==> {
                let ms = r->Ok_0;
                &&& ms.mapping.owned_by(final(allocator))
                &&& ms.segments@ == kernel_segments(layout)
                &&& ms.mapping.mapped().len() == 0
                &&& forall|k: int| 0 <= k < 6 ==> maps_linearly(ms.mapping, #[trigger] kernel_segments(layout)[k])
                &&& forall|q: u64| layout.text_start / PAGE_SIZE <= q < layout.rodata_start / PAGE_SIZE
                    ==> #[trigger] page_flags(ms.mapping, q) == FLAG_R | FLAG_X
                &&& forall|q: u64| layout.rodata_start / PAGE_SIZE <= q < layout.data_start / PAGE_SIZE
                    ==> #[trigger] page_flags(ms.mapping, q) == FLAG_R
                &&& forall|q: u64| layout.data_start / PAGE_SIZE <= q < layout.memory_end / PAGE_SIZE
                    ==> #[trigger] page_flags(ms.mapping, q) == FLAG_R | FLAG_W
                &&& forall|q: u64| CLINT_START / PAGE_SIZE <= q < CLINT_END / PAGE_SIZE
                    ==> #[trigger] page_flags(ms.mapping, q) == FLAG_R | FLAG_W
            },
    {
        let segments: Vec<Segment> = vec![
            Segment {
                map_type: MapType::Linear,
                range: Range { start: VirtualAddress(layout.text_start), end: VirtualAddress(layout.rodata_start) },
                flags: Flags::r().union(Flags::x()),
            },
            Segment {
                map_type: MapType::Linear,
                range: Range { start: VirtualAddress(layout.rodata_start), end: VirtualAddress(layout.data_start) },
                flags: Flags::r(),
            },
            Segment {
                map_type: MapType::Linear,
                range: Range { start: VirtualAddress(layout.data_start), end: VirtualAddress(layout.bss_start) },
                flags: Flags::r().union(Flags::w()),
            },
            Segment {
                map_type: MapType::Linear,
                range: Range { start: VirtualAddress(layout.bss_start), end: VirtualAddress(layout.kernel_end) },
                flags: Flags::r().union(Flags::w()),
            },
            Segment {
                map_type: MapType::Linear,
                range: Range { start: VirtualAddress(layout.kernel_end), end: VirtualAddress(layout.memory_end) },
                flags: Flags::r().union(Flags::w()),
            },
            Segment {
                map_type: MapType::Linear,
                range: Range { start: VirtualAddress(CLINT_START), end: VirtualAddress(CLINT_END) },
                flags: Flags::r().union(Flags::w()),
            },
        ];
        let ghost segs = kernel_segments(layout);
        proof {
            assert(segments@ =~= segs);
            assert forall|k: int| 0 <= k < 6 implies window_segment(#[trigger] segs[k]) by {
                assert(KERNEL_WINDOW_PAGE <= segs[k].range.start.0 / PAGE_SIZE);
            }
        }
        let ghost alloc0 = *allocator;
        proof {
            lemma_total_pages_monotone(segs, 0, 6);
        }
        proof {
            lemma_kernel_frames_monotone(layout, 0, 6);
        }
        let mut mapping = match Mapping::new(allocator) {
            Ok(m) => m,
            Err(msg) => {
                return Err(msg);
            },
        };
        proof {
            assert(allocator.managed() == old(allocator).managed());
            assert(total_pages(segs, 0) == 0);
            assert(missing_of(mapping) =~= kernel_missing(layout, 0));
        }
        let mut i: usize = 0;
        while i < segments.len()
            invariant
                segments@ == segs,
                segs == kernel_segments(layout),
                layout.valid(),
                forall|k: int| 0 <= k < 6 ==> window_segment(#[trigger] segs[k]),
                i <= 6,
                mapping.owned_by(allocator),
                allocator.managed() == old(allocator).managed(),
                alloc0 == *old(allocator),
                forall|k: int| i <= k < 6 ==> mapping.pages_free((#[trigger] segs[k]).pages().0, segs[k].pages().1),
                forall|k: int| 0 <= k < i ==> maps_linearly(mapping, #[trigger] segs[k]),
                alloc0.available() >= 1 + 2 * total_pages(segs, 6) ==>
                    allocator.available() >= 2 * (total_pages(segs, 6) - total_pages(segs, i as int)),
                missing_of(mapping) == kernel_missing(layout, i as nat),
                mapping.mapped().len() == 0,
                allocator.available() == alloc0.available() - kernel_frames_needed(layout, i as nat),
            decreases 6 - i,
        {
            let segment = &segments[i];
            let ghost before = mapping;
            let ghost alloc_before = *allocator;
            proof {
                lemma_total_pages_monotone(segs, i as int + 1, 6);
                assert(total_pages(segs, i as int + 1) == total_pages(segs, i as int)
                    + page_count(segs[i as int].pages().0, segs[i as int].pages().1));
                let (s, e) = segment.pages();
                assert(e <= 0x10_0000_0000_0000) by (nonlinear_arith)
                    requires e == segment.range.end.0 / 4096 + if segment.range.end.0 % 4096 == 0 { 0int } else { 1int };
                assert forall|p: u64, q: u64| s <= p < e && s <= q < e && p != q implies !#[trigger] same_slot(p, q) by {
                    lemma_window_slots_distinct(p, q);
                }
            }
            proof {
                lemma_kernel_frames_monotone(layout, i as nat + 1, 6);
            }
            match mapping.map(allocator, segment, None) {
                Ok(_) => {},
                Err(msg) => {
                    return Err(msg);
                },
            }
            proof {
                let (s, e) = segment.pages();
                assert(missing_of(mapping) =~= kernel_missing(layout, i as nat + 1)) by {
                    assert forall|v: u64| #[trigger] missing_of(mapping)(v) == kernel_missing(layout, i as nat + 1)(v) by {
                        assert(mapping.missing_tables(v) == missing_after(missing_of(before), s, e, v));
                    }
                }
            }
            proof {
                let (s, e) = segment.pages();
                assert forall|k: int| i + 1 <= k < 6 implies mapping.pages_free((#[trigger] segs[k]).pages().0, segs[k].pages().1) by {
                    let (s2, e2) = segs[k].pages();
                    assert forall|q: u64| s2 <= q < e2 implies (#[trigger] mapping.translate(q)).0 == 0 by {
                        assert(before.pages_free(s2, e2));
                        assert(before.translate(q).0 == 0);
                        assert(e2 <= 0x10_0000_0000_0000) by (nonlinear_arith)
                            requires e2 == segs[k].range.end.0 / 4096 + if segs[k].range.end.0 % 4096 == 0 { 0int } else { 1int };
                        assert forall|p: u64| s <= p < e implies !#[trigger] same_slot(q, p) by {
                            lemma_window_slots_distinct(q, p);
                        }
                    }
                }
                assert forall|k: int| 0 <= k < i + 1 implies maps_linearly(mapping, #[trigger] segs[k]) by {
                    if k < i {
                        let (s2, e2) = segs[k].pages();
                        assert forall|q: u64| s2 <= q < e2 implies #[trigger] mapping.translate(q)
                            == new_entry(Some(PhysicalPageNumber((q - KERNEL_PAGE_OFFSET) as u64)), segs[k].flags) by {
                            assert(maps_linearly(before, segs[k]));
                            assert forall|p: u64| s <= p < e implies !#[trigger] same_slot(q, p) by {
                                lemma_window_slots_distinct(q, p);
                            }
                        }
                    }
                }
            }
            i = i + 1;
        }
        proof {
            allocator.lemma_available_nonnegative();
            assert forall|q: u64| true implies {
                &&& layout.text_start / PAGE_SIZE <= q < layout.rodata_start / PAGE_SIZE
                    ==> #[trigger] page_flags(mapping, q) == FLAG_R | FLAG_X
                &&& layout.rodata_start / PAGE_SIZE <= q < layout.data_start / PAGE_SIZE
                    ==> page_flags(mapping, q) == FLAG_R
                &&& layout.data_start / PAGE_SIZE <= q < layout.memory_end / PAGE_SIZE
                    ==> page_flags(mapping, q) == FLAG_R | FLAG_W
                &&& CLINT_START / PAGE_SIZE <= q < CLINT_END / PAGE_SIZE
                    ==> page_flags(mapping, q) == FLAG_R | FLAG_W
            } by {
                law_kernel_permissions(layout, mapping, q);
            }
        }
        Ok(MemorySet { mapping, segments })
    }

    /// Maps `segment`, which must not overlap what is mapped already, and
    /// records it. The result lists the bytes to store, as `Mapping::map` says.
    pub fn add_segment(&mut self, allocator: &mut FrameAllocator, segment: Segment, init_data: Option<&[u8]>)
        -> (r: MemoryResult<Vec<MemoryWrite>>)
        requires
            old(self).mapping.owned_by(old(allocator)),
            old(self).mapping.pages_free(segment.pages().0, segment.pages().1),
            distinct_slots(segment.pages().0, segment.pages().1),
            segment.map_type == MapType::Linear ==> segment.range.start.0 >= KERNEL_MAP_OFFSET,
            segment.map_type == MapType::Framed && init_data is Some ==> segment.range.start.0 <= segment.range.end.0
                && init_data.unwrap()@.len() >= segment.range.end.0 - segment.range.start.0,
        ensures
            final(self).mapping.owned_by(final(allocator)),
            Mapping::grew_from(&final(self).mapping, final(allocator), &old(self).mapping, old(allocator)),
            final(self).mapping.root() == old(self).mapping.root(),
            final(self).mapping.unchanged_outside(&old(self).mapping, segment.pages().0, segment.pages().1),
            r is Ok ==> final(self).segments@ == old(self).segments@.push(segment),
            final(self).mapping.mapped().len() >= old(self).mapping.mapped().len(),
            final(self).mapping.mapped().subrange(0, old(self).mapping.mapped().len() as int)
                == old(self).mapping.mapped(),
            r is Err ==> final(self).segments@ == old(self).segments@,
            r is Ok && segment.map_type == MapType::Framed ==> {
                let (s, e) = segment.pages();
                let n = old(self).mapping.mapped().len() as int;
                let writes = r->Ok_0@;
                &&& final(self).mapping.mapped().len() == n + page_count(s, e)
                &&& writes.len() == page_count(s, e)
                &&& forall|k: int| 0 <= k < page_count(s, e) ==> {
                    let (vpn, frame) = #[trigger] final(self).mapping.mapped()[n + k];
                    &&& vpn.0 == s + k
                    &&& final(self).mapping.translate(vpn.0) == new_entry(Some(frame.0), segment.flags)
                    &&& writes[k].address.0 == kernel_address_of(frame.0.0)
                    &&& writes[k].data@.len() == PAGE_SIZE
                    &&& forall|j: int| 0 <= j < PAGE_SIZE ==> #[trigger] writes[k].data@[j]
                        == framed_content(segment, if init_data is Some { Some(init_data.unwrap()@) } else { None }, vpn.0, j)
                }
            },
            r is Ok && segment.map_type == MapType::Linear ==> {
                &&& maps_linearly(final(self).mapping, segment)
                &&& match init_data {
                    Some(d) => r->Ok_0@.len() == 1 && r->Ok_0@[0].address == segment.range.start
                        && r->Ok_0@[0].data@ == d@,
                    None => r->Ok_0@.len() == 0,
                }
            },
            segment.map_type == MapType::Framed && old(allocator).available() >= 3 * page_count(segment.pages().0, segment.pages().1) ==> r is Ok,
            segment.map_type == MapType::Linear && old(allocator).available() >= 2 * page_count(segment.pages().0, segment.pages().1) ==> r is Ok,
            segment.map_type == MapType::Linear && r is Err ==> final(allocator).available() == 0,
            segment.map_type == MapType::Framed && r is Err ==> final(allocator).available() <= 1,
            r is Err <==> old(allocator).available() < frames_needed(old(self).mapping, segment.pages().0,
                segment.pages().1, segment.map_type == MapType::Framed),
            r is Ok ==> final(allocator).available() == old(allocator).available() - frames_needed(old(self).mapping,
                segment.pages().0, segment.pages().1, segment.map_type == MapType::Framed),
            r is Ok ==> forall|v: u64| #[trigger] final(self).mapping.missing_tables(v)
                == tables_missing_after(old(self).mapping, segment.pages().0, segment.pages().1, v),
    {
        match self.mapping.map(allocator, &segment, init_data) {
            Ok(writes) => {
                self.segments.push(segment);
                Ok(writes)
            },
            Err(msg) => Err(msg),
        }
    }

    /// Unmaps every framed segment, giving its frames back to `allocator`,
    /// and forgets it; the linear segments stay, in order.
    pub fn remove_framed_segments(&mut self, allocator: &mut FrameAllocator)
        requires
            old(self).mapping.owned_by(old(allocator)),
        ensures
            final(self).mapping.owned_by(final(allocator)),
            final(allocator).managed() == old(allocator).managed(),
            final(self).mapping.root() == old(self).mapping.root(),
            final(self).segments@ == old(self).segments@.filter(|s: Segment| s.map_type != MapType::Framed),
            forall|k: int, q: u64|
                0 <= k < old(self).segments@.len() && (#[trigger] old(self).segments@[k]).map_type == MapType::Framed
                    && old(self).segments@[k].pages().0 <= q < old(self).segments@[k].pages().1
                    ==> #[trigger] final(self).mapping.translate(q) == PageTableEntry(0),
    {
        let ghost segs = self.segments@;
        let ghost keep = |s: Segment| s.map_type != MapType::Framed;
        let mut kept: Vec<Segment> = Vec::new();
        let mut i: usize = 0;
        while i < self.segments.len()
            invariant
                self.mapping.owned_by(allocator),
                allocator.managed() == old(allocator).managed(),
                self.mapping.root() == old(self).mapping.root(),
                segs == old(self).segments@,
                self.segments@ == segs,
                keep == (|s: Segment| s.map_type != MapType::Framed),
                i <= segs.len(),
                kept@ == segs.subrange(0, i as int).filter(keep),
                forall|k: int, q: u64|
                    0 <= k < i && (#[trigger] segs[k]).map_type == MapType::Framed && segs[k].pages().0 <= q
                        < segs[k].pages().1 ==> #[trigger] self.mapping.translate(q) == PageTableEntry(0),
            decreases segs.len() - i,
        {
            let seg = self.segments[i];
            proof {
                assert(segs.subrange(0, i as int + 1) =~= segs.subrange(0, i as int).push(seg));
                segs.subrange(0, i as int).lemma_filter_push(seg, keep);
            }
            if seg.map_type == MapType::Framed {
                let ghost before = self.mapping;
                self.mapping.unmap(allocator, &seg);
                proof {
                    assert forall|k: int, q: u64|
                        0 <= k < i + 1 && (#[trigger] segs[k]).map_type == MapType::Framed && segs[k].pages().0 <= q
                            < segs[k].pages().1 implies #[trigger] self.mapping.translate(q) == PageTableEntry(0) by {
                        if k == i {
                            assert(same_slot(q, q));
                        } else {
                            assert(before.translate(q) == PageTableEntry(0));
                        }
                    }
                }
            } else {
                kept.push(seg);
            }
            i = i + 1;
        }
        proof {
            assert(segs.subrange(0, segs.len() as int) =~= segs);
        }
        self.segments = kept;
    }

    /// Maps each of a program's `segments` with its initial bytes, in
    /// order, and records it. Fails exactly when a segment covers more than
    /// 2^27 pages, or a page of it is mapped by the time its turn comes, or
    /// the frames run out. The result lists the bytes to store, segment
    /// after segment, page after page.
    pub fn add_program_segments(&mut self, allocator: &mut FrameAllocator, segments: &Vec<(Segment, Vec<u8>)>)
        -> (r: MemoryResult<Vec<MemoryWrite>>)
        requires
            old(self).mapping.owned_by(old(allocator)),
            forall|k: int| 0 <= k < segments@.len() ==> program_segment(#[trigger] segments_view(segments@)[k]),
        ensures
            final(self).mapping.owned_by(final(allocator)),
            final(allocator).managed() == old(allocator).managed(),
            final(self).mapping.root() == old(self).mapping.root(),
            r is Ok <==> program_fits(old(self).mapping, segment_list(segments@), old(allocator).available()),
            r is Ok ==> final(self).segments@ == old(self).segments@ + segment_list(segments@),
            r is Ok ==> final(allocator).available() == old(allocator).available() - program_frames_needed(
                old(self).mapping,
                segment_list(segments@),
                segments@.len(),
            ),
            r is Ok ==> program_written(
                old(self).mapping,
                final(self).mapping,
                segments@,
                segments@.len() as int,
                r->Ok_0@,
            ),
    {
        let ghost m0 = self.mapping;
        let ghost a0 = allocator.available();
        let ghost segs = segment_list(segments@);
        let ghost n0 = m0.mapped().len() as int;
        let mut writes: Vec<MemoryWrite> = Vec::new();
        let mut k: usize = 0;
        proof {
            assert(missing_of(self.mapping) =~= program_missing(m0, segs, 0));
            assert(self.mapping.mapped().subrange(0, n0) =~= m0.mapped());
        }
        while k < segments.len()
            invariant
                m0 == old(self).mapping,
                a0 == old(allocator).available(),
                segs == segment_list(segments@),
                n0 == m0.mapped().len(),
                forall|j: int| 0 <= j < segments@.len() ==> program_segment(#[trigger] segments_view(segments@)[j]),
                self.mapping.owned_by(allocator),
                allocator.managed() == old(allocator).managed(),
                self.mapping.root() == old(self).mapping.root(),
                k <= segments@.len(),
                self.segments@ == old(self).segments@ + segs.subrange(0, k as int),
                forall|j: int| 0 <= j < k ==> #[trigger] segment_placeable(m0, segs, j),
                missing_of(self.mapping) == program_missing(m0, segs, k as nat),
                allocator.available() == a0 - program_frames_needed(m0, segs, k as nat),
                forall|q: u64| (#[trigger] self.mapping.translate(q)).0 != 0 <==> mapped_after(m0, segs, k as int, q),
                program_written(m0, self.mapping, segments@, k as int, writes@),
            decreases segments@.len() - k,
        {
            let seg = segments[k].0;
            proof {
                assert(program_segment(segments_view(segments@)[k as int]));
                assert(segs[k as int] == seg);
                lemma_program_frames_monotone(m0, segs, k as nat, segments@.len() as nat);
                lemma_program_frames_monotone(m0, segs, k as nat + 1, segments@.len() as nat);
            }
            let pages = seg.page_range();
            let s = pages.start.0;
            let e = pages.end.0;
            if s < e && e - s > 0x800_0000 {
                proof {
                    assert(!segment_placeable(m0, segs, k as int));
                }
                return Err("segment too large");
            }
            if !self.mapping.pages_unmapped(s, e) {
                proof {
                    let q = choose|q: u64| s <= q < e && (#[trigger] self.mapping.translate(q)).0 != 0;
                    assert(mapped_after(m0, segs, k as int, q));
                    assert(!segment_placeable(m0, segs, k as int));
                }
                return Err("segment overlaps a mapped page");
            }
            proof {
                assert forall|a: u64, b: u64| s <= a < e && s <= b < e && a != b implies !#[trigger] same_slot(a, b) by {
                    if a < b {
                        lemma_near_slots_distinct(a, b);
                    } else {
                        lemma_near_slots_distinct(b, a);
                    }
                }
                assert forall|q: u64| s <= q < e implies !#[trigger] mapped_after(m0, segs, k as int, q) by {
                    assert(self.mapping.translate(q).0 == 0);
                }
                assert(segment_placeable(m0, segs, k as int));
            }
            let ghost before = self.mapping;
            let ghost writes_before = writes@;
            let ghost alloc_before = *allocator;
            let mut w = match self.add_segment(allocator, seg, Some(segments[k].1.as_slice())) {
                Ok(w) => w,
                Err(msg) => {
                    proof {
                        assert(frames_needed(before, s, e, true) == frames_needed_from(
                            program_missing(m0, segs, k as nat),
                            s,
                            e,
                            true,
                        ));
                        assert(program_frames_needed(m0, segs, k as nat + 1) == program_frames_needed(m0, segs, k as nat)
                            + frames_needed(before, s, e, true));
                    }
                    return Err(msg);
                },
            };
            let ghost wv = w@;
            writes.append(&mut w);
            proof {
                let nb = before.mapped().len() as int;
                assert(writes@ == writes_before + wv);
                let after = self.mapping;
                lemma_program_frames_monotone(m0, segs, k as nat + 1, k as nat + 1);
                assert(missing_of(after) =~= program_missing(m0, segs, k as nat + 1)) by {
                    assert forall|v: u64| #[trigger] missing_of(after)(v) == program_missing(m0, segs, k as nat + 1)(v) by {
                        assert(after.missing_tables(v) == missing_after(missing_of(before), s, e, v));
                    }
                }
                // Pages of this segment are now present.
                assert forall|p: u64| s <= p < e implies (#[trigger] after.translate(p)).0 != 0 by {
                    let kk = (p - s) as int;
                    assert(0 <= kk < page_count(s, e));
                    let pair = after.mapped()[nb + kk];
                    assert(pair.0.0 == s + kk);
                    lemma_mapped_page_present(after, nb + kk, seg.flags);
                }
                assert forall|q: u64| (#[trigger] after.translate(q)).0 != 0 <==> mapped_after(m0, segs, k as int + 1, q) by {
                    if exists|p: u64| s <= p < e && #[trigger] same_slot(q, p) {
                        let p = choose|p: u64| s <= p < e && #[trigger] same_slot(q, p);
                        lemma_same_slot_translate(after, q, p);
                        assert(segs[k as int] == seg);
                        assert(mapped_after(m0, segs, k as int + 1, q));
                    } else {
                        assert(after.translate(q) == before.translate(q));
                        if mapped_after(m0, segs, k as int + 1, q) && m0.translate(q).0 == 0 {
                            let (j, p) = choose|j: int, p: u64|
                                #![trigger segs[j], same_slot(q, p)]
                                0 <= j < k + 1 && segs[j].pages().0 <= p < segs[j].pages().1 && same_slot(q, p);
                            assert(j != k);
                            assert(mapped_after(m0, segs, k as int, q));
                        }
                        if mapped_after(m0, segs, k as int, q) && m0.translate(q).0 == 0 {
                            let (j, p) = choose|j: int, p: u64|
                                #![trigger segs[j], same_slot(q, p)]
                                0 <= j < k && segs[j].pages().0 <= p < segs[j].pages().1 && same_slot(q, p);
                            assert(0 <= j < k + 1 && segs[j].pages().0 <= p < segs[j].pages().1 && same_slot(q, p));
                        }
                    }
                }
                // The writes and mapped pages so far.
                let t = total_pages(segs, k as int);
                assert(total_pages(segs, k as int + 1) == t + page_count(s, e));
                assert(after.mapped().subrange(0, n0) =~= m0.mapped()) by {
                    assert(after.mapped().subrange(0, nb) == before.mapped());
                    assert forall|x: int| 0 <= x < n0 implies after.mapped()[x] == m0.mapped()[x] by {
                        assert(after.mapped()[x] == after.mapped().subrange(0, nb)[x]);
                        assert(before.mapped()[x] == before.mapped().subrange(0, n0)[x]);
                    }
                }
                assert forall|j: int, i: int|
                    0 <= j < k + 1 && 0 <= i < page_count(segs[j].pages().0, segs[j].pages().1)
                        implies #[trigger] page_written(after, segments_view(segments@), n0, j, i, writes@) by {
                    let kk = total_pages(segs, j) + i;
                    if j < k {
                        assert(page_written(before, segments_view(segments@), n0, j, i, writes_before));
                        lemma_total_pages_step(segs, j, k as int, i);
                        lemma_total_pages_monotone(segs, 0, j);
                        assert(0 <= kk < t);
                        assert(after.mapped()[n0 + kk] == after.mapped().subrange(0, nb)[n0 + kk]);
                        assert(writes@[kk] == writes_before[kk]);
                        let v = before.mapped()[n0 + kk].0.0;
                        assert forall|q: u64| s <= q < e implies !#[trigger] same_slot(v, q) by {
                            if same_slot(v, q) {
                                assert(segs[j].pages().0 <= v < segs[j].pages().1);
                                assert(same_slot(q, v));
                                assert(mapped_after(m0, segs, k as int, q));
                            }
                        }
                    } else {
                        assert(j == k);
                        assert(segs[j] == seg);
                        assert(segments@[j].0 == seg);
                        assert(nb == n0 + t);
                        assert(kk == t + i);
                        assert(writes@[kk] == wv[i]);
                        assert(after.mapped()[n0 + kk] == after.mapped()[nb + i]);
                    }
                }
                assert(segs.subrange(0, k as int + 1) =~= segs.subrange(0, k as int).push(seg));
                assert forall|j: int| 0 <= j < k + 1 implies #[trigger] segment_placeable(m0, segs, j) by {}
            }
            k = k + 1;
        }
        proof {
            assert(segs.subrange(0, k as int) =~= segs);
            allocator.lemma_available_nonnegative();
        }
        Ok(writes)
    }

    /// The address space of the program in ELF file `data`: the kernel's
    /// address space with each loadable segment of the program mapped over
    /// its bytes, user accessible in a user process. The result lists the
    /// bytes to store. Fails when `data` is not a program that can be
    /// loaded, when its segments overlap, or when frames run out.
    pub fn from_elf(allocator: &mut FrameAllocator, layout: KernelLayout, data: &[u8], is_user: bool)
        -> (r: MemoryResult<(MemorySet, Vec<MemoryWrite>)>)
        requires
            old(allocator).wf(),
            layout.valid(),
        ensures
            final(allocator).wf(),
            final(allocator).managed() == old(allocator).managed(),
            data@.len() < 64 || !elf_header_valid(data@) ==> r is Err,
            r is Ok ==> (r->Ok_0).0.mapping.owned_by(final(allocator)),
            r is Ok ==> exists|little: bool| #[trigger] loadable(data@, little) && {
                let sv = loaded(data@, little, ph_count_reading(data@, little), is_user);
                &&& (r->Ok_0).0.segments@ == kernel_segments(layout) + view_segments(sv)
                &&& pages_written((r->Ok_0).0.mapping, sv, 0, sv.len() as int, (r->Ok_0).1@)
                &&& (r->Ok_0).0.mapping.mapped().len() == total_pages(view_segments(sv), sv.len() as int)
            },
    {
        let segments = match elf_segments(data, is_user) {
            Some(v) => v,
            None => {
                return Err("not a program that can be loaded");
            },
        };
        let mut memory_set = match MemorySet::new_kernel(allocator, layout) {
            Ok(m) => m,
            Err(msg) => {
                return Err(msg);
            },
        };
        match memory_set.add_program_segments(allocator, &segments) {
            Ok(writes) => {
                proof {
                    let little = choose|little: bool|
                        #[trigger] loadable(data@, little) && segments_view(segments@) == loaded(
                            data@,
                            little,
                            ph_count_reading(data@, little),
                            is_user,
                        );
                    let sv = loaded(data@, little, ph_count_reading(data@, little), is_user);
                    assert(segment_list(segments@) == view_segments(sv));
                    assert(sv.len() == segments@.len());
                }
                Ok((memory_set, writes))
            },
            Err(msg) => Err(msg),
        }
    }

    /// The `satp` value that switches the processor to this memory space.
    pub fn activate(&self) -> (satp: u64)
        requires
            self.mapping.wf(),
        ensures
            satp == self.mapping.root() | 0x8000_0000_0000_0000u64,
    {
        self.mapping.activate()
    }
}

} // verus!
