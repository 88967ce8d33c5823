use rcore_kernel::address::{PhysicalPageNumber, Range, VirtualAddress, VirtualPageNumber};
use rcore_kernel::frame::FrameAllocator;
use rcore_kernel::mapping::Mapping;
use rcore_kernel::memory_set::{KernelLayout, MemorySet};
use rcore_kernel::page_table::{PageTable, PageTableTracker};
use rcore_kernel::frame::FrameTracker;
use rcore_kernel::page_table_entry::{Flags, PageTableEntry};
use rcore_kernel::segment::{MapType, Segment};

#[test]
fn entry_new_with_page() {
    let flags = Flags::r().union(Flags::w());
    let e = PageTableEntry::new(Some(PhysicalPageNumber(0x80200)), flags);
    assert_eq!(e.page_number(), PhysicalPageNumber(0x80200));
    assert_eq!(e.flags().bits(), 0b111);
    assert_eq!(e.0, (0x80200 << 10) | 0b111);
    assert_eq!(e.address().0, 0x8020_0000);
    assert!(!e.is_empty());
}

#[test]
fn entry_new_without_page() {
    let e = PageTableEntry::new(None, Flags::r().union(Flags::v()));
    assert_eq!(e.page_number(), PhysicalPageNumber(0));
    assert_eq!(e.flags().bits(), 0b10);
    assert!(!e.is_empty());
    let z = PageTableEntry::new(None, Flags::empty());
    assert!(z.is_empty());
}

#[test]
fn entry_update_page_number() {
    let mut e = PageTableEntry((3u64 << 54) | (1 << 8) | 0b1110);
    e.update_page_number(Some(PhysicalPageNumber(0x1234)));
    assert_eq!(e.page_number(), PhysicalPageNumber(0x1234));
    assert_eq!(e.flags().bits(), 0b1111);
    assert_eq!(e.0 >> 54, 3);
    assert_eq!((e.0 >> 8) & 1, 1);
    e.update_page_number(None);
    assert_eq!(e.page_number(), PhysicalPageNumber(0));
    assert_eq!(e.flags().bits(), 0b1110);
}

#[test]
fn flags_operations() {
    let mut f = Flags::empty();
    f.set(Flags::x(), true);
    assert!(f.contains(Flags::x()));
    assert_eq!(f.union(Flags::u()).bits(), 0x18);
    assert_eq!(f.difference(Flags::x()).bits(), 0);
    assert_eq!(Flags::a().intersection(Flags::d()).bits(), 0);
    assert_eq!(Flags::from_bits(0xff).unwrap().bits(), 0xff);
    assert_eq!(Flags::g().bits(), 32);
}

#[test]
fn page_table_zero_init() {
    let mut t = PageTable { entries: Vec::new() };
    t.zero_init();
    assert_eq!(t.entries.len(), 512);
    assert!(t.entries.iter().all(|e| e.is_empty()));
    let tr = PageTableTracker::new(FrameTracker(PhysicalPageNumber(42)));
    assert_eq!(tr.page_number(), PhysicalPageNumber(42));
    assert_eq!(tr.table.entries.len(), 512);
}

#[test]
fn address_rounding() {
    assert_eq!(VirtualPageNumber::floor(VirtualAddress(0x1fff)).0, 1);
    assert_eq!(VirtualPageNumber::ceil(VirtualAddress(0x1fff)).0, 2);
    assert_eq!(VirtualPageNumber::ceil(VirtualAddress(0x2000)).0, 2);
    let vpn = VirtualPageNumber((5 << 18) | (6 << 9) | 7);
    assert_eq!(vpn.levels(), [5, 6, 7]);
}

#[test]
fn frame_allocator_hands_out_fresh_frames() {
    let mut a = FrameAllocator::new(10, 13);
    let f1 = a.allocate().unwrap();
    let f2 = a.allocate().unwrap();
    assert_eq!(f1.page_number(), PhysicalPageNumber(10));
    assert_eq!(f2.page_number(), PhysicalPageNumber(11));
    a.deallocate(f1);
    let f3 = a.allocate().unwrap();
    assert_eq!(f3.page_number(), PhysicalPageNumber(10));
    let f4 = a.allocate().unwrap();
    assert_eq!(f4.page_number(), PhysicalPageNumber(12));
    assert_eq!(a.allocate().err(), Some("no available frame to allocate"));
    assert_eq!(f4.address().0, 12 * 4096);
}

#[test]
fn mapping_new_and_activate() {
    let mut a = FrameAllocator::new(0x100, 0x200);
    let m = Mapping::new(&mut a).unwrap();
    assert_eq!(m.activate(), 0x8000_0000_0000_0100);
    assert_eq!(m.lookup(VirtualPageNumber(0x12345)), None);
}

#[test]
fn mapping_new_fails_without_frames() {
    let mut a = FrameAllocator::new(5, 5);
    assert!(Mapping::new(&mut a).is_err());
}

#[test]
fn find_entry_creates_tables_once() {
    let mut a = FrameAllocator::new(0x100, 0x200);
    let mut m = Mapping::new(&mut a).unwrap();
    let (t1, i1) = m.find_entry(&mut a, VirtualPageNumber(0x12345)).unwrap();
    assert_eq!(i1, 0x12345 & 0x1ff);
    // Root, then two new tables on the way.
    assert_eq!(a.allocate().unwrap().page_number(), PhysicalPageNumber(0x103));
    let (t2, i2) = m.find_entry(&mut a, VirtualPageNumber(0x12345)).unwrap();
    assert_eq!((t1, i1), (t2, i2));
    // A neighbour shares the leaf table.
    let (t3, _) = m.find_entry(&mut a, VirtualPageNumber(0x12346)).unwrap();
    assert_eq!(t3, t1);
    // The walk allocates nothing and maps nothing.
    assert_eq!(m.lookup(VirtualPageNumber(0x12345)), Some(PageTableEntry(0)));
}

#[test]
fn find_entry_runs_out_of_frames() {
    let mut a = FrameAllocator::new(0x100, 0x102);
    let mut m = Mapping::new(&mut a).unwrap();
    assert_eq!(m.find_entry(&mut a, VirtualPageNumber(7)).err(), Some("no available frame to allocate"));
}

#[test]
fn map_framed_segment_with_data() {
    let mut a = FrameAllocator::new(0x100, 0x200);
    let mut m = Mapping::new(&mut a).unwrap();
    let seg = Segment {
        map_type: MapType::Framed,
        range: Range { start: VirtualAddress(0x1000_0800), end: VirtualAddress(0x1000_1010) },
        flags: Flags::r().union(Flags::w()).union(Flags::u()),
    };
    let data: Vec<u8> = (0..0x810u32).map(|i| (i % 251) as u8).collect();
    let writes = m.map(&mut a, &seg, Some(&data)).unwrap();
    assert_eq!(writes.len(), 2);
    // First page: zeros up to the segment's start, then the data.
    assert_eq!(writes[0].data.len(), 4096);
    assert_eq!(writes[0].data[0x7ff], 0);
    assert_eq!(writes[0].data[0x800], data[0]);
    assert_eq!(writes[0].data[0xfff], data[0x7ff]);
    // Second page: the rest of the data, then zeros.
    assert_eq!(writes[1].data[0], data[0x800]);
    assert_eq!(writes[1].data[0xf], data[0x80f]);
    assert_eq!(writes[1].data[0x10], 0);
    let e = m.lookup(VirtualPageNumber(0x10000)).unwrap();
    assert_eq!(e.flags().bits(), 0b10111);
    assert_eq!(writes[0].address.0, e.page_number().0 * 4096 + 0xffff_ffff_0000_0000);
    let e2 = m.lookup(VirtualPageNumber(0x10001)).unwrap();
    assert_ne!(e.page_number(), e2.page_number());
}

#[test]
fn map_linear_segment() {
    let mut a = FrameAllocator::new(0x100, 0x200);
    let mut m = Mapping::new(&mut a).unwrap();
    let seg = Segment {
        map_type: MapType::Linear,
        range: Range { start: VirtualAddress(0xffff_ffff_8020_0000), end: VirtualAddress(0xffff_ffff_8020_2000) },
        flags: Flags::r().union(Flags::x()),
    };
    let writes = m.map(&mut a, &seg, None).unwrap();
    assert_eq!(writes.len(), 0);
    let e = m.lookup(VirtualPageNumber(0xf_ffff_fff8_0201)).unwrap();
    assert_eq!(e.page_number(), PhysicalPageNumber(0x80201));
    assert_eq!(e.flags().bits(), 0b1011);
    assert_eq!(seg.iter_mapped().unwrap(), vec![PhysicalPageNumber(0x80200), PhysicalPageNumber(0x80201)]);
    assert_eq!(seg.page_range().start.0, 0xf_ffff_fff8_0200);
}

#[test]
fn framed_segment_has_no_fixed_frames() {
    let seg = Segment {
        map_type: MapType::Framed,
        range: Range { start: VirtualAddress(0x1000), end: VirtualAddress(0x3000) },
        flags: Flags::r(),
    };
    assert!(seg.iter_mapped().is_none());
}

fn layout() -> KernelLayout {
    KernelLayout {
        text_start: 0xffff_ffff_8020_0000,
        rodata_start: 0xffff_ffff_8020_4000,
        data_start: 0xffff_ffff_8020_6000,
        bss_start: 0xffff_ffff_8020_7000,
        kernel_end: 0xffff_ffff_8020_9000,
        memory_end: 0xffff_ffff_8030_0000,
    }
}

#[test]
fn kernel_memory_set() {
    let mut a = FrameAllocator::new(0x80400, 0x80600);
    let ms = MemorySet::new_kernel(&mut a, layout()).unwrap();
    assert_eq!(ms.segments.len(), 6);
    let text = ms.mapping.lookup(VirtualPageNumber(0xf_ffff_fff8_0200)).unwrap();
    assert_eq!(text.flags().bits(), 0b1011);
    let rodata = ms.mapping.lookup(VirtualPageNumber(0xf_ffff_fff8_0204)).unwrap();
    assert_eq!(rodata.flags().bits(), 0b0011);
    let data = ms.mapping.lookup(VirtualPageNumber(0xf_ffff_fff8_0206)).unwrap();
    assert_eq!(data.flags().bits(), 0b0111);
    let clint = ms.mapping.lookup(VirtualPageNumber(0xf_ffff_fff0_2000)).unwrap();
    assert_eq!(clint.page_number(), PhysicalPageNumber(0x2000));
    assert_eq!(ms.activate(), 0x8000_0000_0000_0000 | 0x80400);
}

#[test]
fn table_images_hold_entries() {
    let mut a = FrameAllocator::new(0x100, 0x200);
    let mut m = Mapping::new(&mut a).unwrap();
    let seg = Segment {
        map_type: MapType::Linear,
        range: Range { start: VirtualAddress(0xffff_ffff_8020_0000), end: VirtualAddress(0xffff_ffff_8020_1000) },
        flags: Flags::r().union(Flags::x()),
    };
    m.map(&mut a, &seg, None).unwrap();
    let images = m.table_images();
    // Root, then one table on each of the two lower levels.
    assert_eq!(images.len(), 3);
    assert_eq!(images[0].0, 0x100 * 4096 + 0xffff_ffff_0000_0000);
    assert!(images.iter().all(|(_, w)| w.len() == 512));
    let leaf = m.lookup(VirtualPageNumber(0xf_ffff_fff8_0200)).unwrap();
    assert!(images[2].1.contains(&leaf.0));
    // The root points at the second table's frame.
    let root_entry = images[0].1.iter().find(|w| **w != 0).unwrap();
    assert_eq!((root_entry >> 10) * 4096 + 0xffff_ffff_0000_0000, images[1].0);
}

fn two_page_segment() -> Segment {
    Segment {
        map_type: MapType::Framed,
        range: Range { start: VirtualAddress(0x4000_0000), end: VirtualAddress(0x4000_2000) },
        flags: Flags::r().union(Flags::w()),
    }
}

#[test]
fn map_succeeds_with_exactly_the_frames_needed() {
    // Root table, then two tables and two frames for the pages.
    let mut a = FrameAllocator::new(0x100, 0x105);
    let mut m = Mapping::new(&mut a).unwrap();
    assert!(m.map(&mut a, &two_page_segment(), None).is_ok());
    assert!(a.allocate().is_err());
}

#[test]
fn map_fails_one_frame_short() {
    let mut a = FrameAllocator::new(0x100, 0x104);
    let mut m = Mapping::new(&mut a).unwrap();
    assert!(m.map(&mut a, &two_page_segment(), None).is_err());
}

#[test]
fn kernel_memory_set_needs_exactly_five_frames() {
    // The root table, then a second-level and a leaf table for the kernel's
    // image and memory, and another two for the interruptor.
    let mut a = FrameAllocator::new(0x80400, 0x80405);
    assert!(MemorySet::new_kernel(&mut a, layout()).is_ok());
    assert!(a.allocate().is_err());
    let mut b = FrameAllocator::new(0x80400, 0x80404);
    assert!(MemorySet::new_kernel(&mut b, layout()).is_err());
}

#[test]
fn find_entry_twice_allocates_nothing() {
    let mut a = FrameAllocator::new(0x100, 0x200);
    let mut m = Mapping::new(&mut a).unwrap();
    let first = m.find_entry(&mut a, VirtualPageNumber(0x4_0201)).unwrap();
    let tables = m.table_images().len();
    let second = m.find_entry(&mut a, VirtualPageNumber(0x4_0201)).unwrap();
    assert_eq!(first, second);
    assert_eq!(m.table_images().len(), tables);
    assert_eq!(tables, 3);
}

#[test]
fn kernel_layout_validity() {
    let above = KernelLayout {
        text_start: 0xffff_ffff_8020_0000,
        rodata_start: 0xffff_ffff_8020_4000,
        data_start: 0xffff_ffff_8020_6000,
        bss_start: 0xffff_ffff_8020_7000,
        kernel_end: 0xffff_ffff_8020_9000,
        memory_end: 0xffff_ffff_8030_0000,
    };
    assert!(above.is_valid());
    let below = KernelLayout {
        text_start: 0xffff_ffff_0000_0000,
        rodata_start: 0xffff_ffff_0000_1000,
        data_start: 0xffff_ffff_0000_2000,
        bss_start: 0xffff_ffff_0000_3000,
        kernel_end: 0xffff_ffff_0000_4000,
        memory_end: 0xffff_ffff_0100_0000,
    };
    assert!(below.is_valid());
    let overlapping = KernelLayout { memory_end: 0xffff_ffff_0300_0000, ..below };
    assert!(!overlapping.is_valid());
    let unaligned = KernelLayout { kernel_end: 0xffff_ffff_8020_9001, ..above };
    assert!(!unaligned.is_valid());
}
