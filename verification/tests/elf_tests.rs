use rcore_kernel::elf::{elf_segments, load_segment, segment_of, segments_of, ElfHeader, ElfProgramHeader};
use rcore_kernel::memory_set::{KernelLayout, MemorySet};
use rcore_kernel::frame::FrameAllocator;
use rcore_kernel::segment::MapType;
use rcore_kernel::syscall::load_entry_point;

/// A 64-bit ELF file with one program header of type `ty` and flags
/// `flags`: `payload` at file offset 120, placed at `vaddr`, `memsz` bytes
/// in memory.
fn tiny_elf(ty: u32, flags: u32, vaddr: u64, payload: &[u8], filesz: u64, memsz: u64) -> Vec<u8> {
    let mut v = vec![0u8; 120];
    v[..8].copy_from_slice(&[0x7f, b'E', b'L', b'F', 2, 1, 1, 0]);
    v[16..18].copy_from_slice(&2u16.to_le_bytes());
    v[18..20].copy_from_slice(&0xf3u16.to_le_bytes());
    v[20..24].copy_from_slice(&1u32.to_le_bytes());
    v[24..32].copy_from_slice(&0x1_0000u64.to_le_bytes());
    v[32..40].copy_from_slice(&64u64.to_le_bytes());
    v[52..54].copy_from_slice(&64u16.to_le_bytes());
    v[54..56].copy_from_slice(&56u16.to_le_bytes());
    v[56..58].copy_from_slice(&1u16.to_le_bytes());
    v[64..68].copy_from_slice(&ty.to_le_bytes());
    v[68..72].copy_from_slice(&flags.to_le_bytes());
    v[72..80].copy_from_slice(&120u64.to_le_bytes());
    v[80..88].copy_from_slice(&vaddr.to_le_bytes());
    v[88..96].copy_from_slice(&vaddr.to_le_bytes());
    v[96..104].copy_from_slice(&filesz.to_le_bytes());
    v[104..112].copy_from_slice(&memsz.to_le_bytes());
    v[112..120].copy_from_slice(&0x1000u64.to_le_bytes());
    v.extend_from_slice(payload);
    v
}

const CODE: [u8; 8] = [0x13, 0, 0, 0, 0x73, 0, 0, 0];

fn layout() -> KernelLayout {
    KernelLayout {
        text_start: 0xffff_ffff_8020_0000,
        rodata_start: 0xffff_ffff_8020_4000,
        data_start: 0xffff_ffff_8020_6000,
        bss_start: 0xffff_ffff_8020_7000,
        kernel_end: 0xffff_ffff_8020_9000,
        memory_end: 0xffff_ffff_8030_0000,
    }
}

fn header(is_load: bool, file_size: u64, mem_size: u64) -> ElfProgramHeader {
    ElfProgramHeader {
        is_load,
        read: true,
        write: true,
        execute: false,
        offset: 2,
        virtual_addr: 0x2000,
        file_size,
        mem_size,
    }
}

#[test]
fn header_fields_of_program() {
    let img = tiny_elf(1, 5, 0x1_0000, &CODE, 8, 0x1800);
    let h = ElfHeader::parse(&img).unwrap();
    assert_eq!(h.entry(), 0x1_0000);
    assert_eq!(h.ph_offset(), 64);
    assert_eq!(h.ph_entry_size(), 56);
    assert_eq!(h.ph_count(), 1);
    assert!(h.is_64());
    assert_eq!(h.len(), img.len());
}

#[test]
fn entry_point_of_unaligned_slice() {
    let img = tiny_elf(1, 5, 0x1_0000, &CODE, 8, 0x1800);
    let mut shifted = vec![0xaa];
    shifted.extend_from_slice(&img);
    assert_eq!(load_entry_point(&shifted[1..]), Some(0x1_0000));
    let mut twice = vec![0xaa, 0xbb, 0xcc];
    twice.extend_from_slice(&img);
    assert_eq!(load_entry_point(&twice[3..]), Some(0x1_0000));
}

#[test]
fn segments_of_program() {
    let img = tiny_elf(1, 5, 0x1_0000, &CODE, 8, 0x1800);
    let segs = elf_segments(&img, true).unwrap();
    assert_eq!(segs.len(), 1);
    let (seg, bytes) = &segs[0];
    assert_eq!(seg.map_type, MapType::Framed);
    assert_eq!((seg.range.start.0, seg.range.end.0), (0x1_0000, 0x1_1800));
    assert_eq!(seg.flags.bits(), 0x10 | 0x2 | 0x8);
    assert_eq!(bytes.len(), 0x1800);
    assert_eq!(&bytes[..8], &CODE);
    assert!(bytes[8..].iter().all(|b| *b == 0));
    let kernel = elf_segments(&img, false).unwrap();
    assert_eq!(kernel[0].0.flags.bits(), 0x2 | 0x8);
}

#[test]
fn segments_of_header_read_first() {
    let img = tiny_elf(1, 6, 0x3_0000, &CODE, 8, 8);
    let h = ElfHeader::parse(&img).unwrap();
    let segs = segments_of(&h, &img, true).unwrap();
    assert_eq!(segs.len(), 1);
    assert_eq!(segs[0].0.flags.bits(), 0x10 | 0x2 | 0x4);
    assert_eq!(segs[0].1, CODE.to_vec());
}

#[test]
fn non_loadable_headers_give_no_segment() {
    let img = tiny_elf(6, 4, 0x1_0000, &CODE, 8, 8);
    assert_eq!(elf_segments(&img, true).unwrap().len(), 0);
}

#[test]
fn segment_past_end_of_file_is_refused() {
    let img = tiny_elf(1, 5, 0x1_0000, &CODE, 9, 0x1000);
    assert!(elf_segments(&img, true).is_none());
}

#[test]
fn segment_larger_in_file_than_memory_is_refused() {
    let img = tiny_elf(1, 5, 0x1_0000, &CODE, 8, 4);
    assert!(elf_segments(&img, true).is_none());
}

#[test]
fn not_an_elf_file_has_no_segments() {
    let mut img = tiny_elf(1, 5, 0x1_0000, &CODE, 8, 8);
    img[1] = b'X';
    assert!(elf_segments(&img, true).is_none());
    assert!(ElfHeader::parse(&img).is_none());
    assert!(elf_segments(&img[..40], true).is_none());
    assert!(ElfHeader::parse(&img[..63]).is_none());
}

#[test]
fn program_header_table_outside_file_is_refused() {
    let mut img = tiny_elf(1, 5, 0x1_0000, &CODE, 8, 8);
    img[32..40].copy_from_slice(&0x1000u64.to_le_bytes());
    assert!(elf_segments(&img, true).is_none());
    let mut odd = tiny_elf(1, 5, 0x1_0000, &CODE, 8, 8);
    odd[32..40].copy_from_slice(&66u64.to_le_bytes());
    assert!(elf_segments(&odd, true).is_none());
}

#[test]
fn segment_of_fields() {
    let s = segment_of(&header(true, 4, 0x100), false, 10).unwrap();
    assert_eq!(s.map_type, MapType::Framed);
    assert_eq!((s.range.start.0, s.range.end.0), (0x2000, 0x2100));
    assert_eq!(s.flags.bits(), 0x2 | 0x4);
    let u = segment_of(&header(true, 4, 0x100), true, 10).unwrap();
    assert_eq!(u.flags.bits(), 0x10 | 0x2 | 0x4);
    assert!(segment_of(&header(false, 4, 0x100), false, 10).is_none());
    assert!(segment_of(&header(true, 9, 0x100), false, 10).is_none());
    assert!(segment_of(&header(true, 8, 0x100), false, 10).is_some());
    assert!(segment_of(&header(true, 0x200, 0x100), false, 0x1000).is_none());
    let mut high = header(true, 0, 0x100);
    high.virtual_addr = u64::MAX - 0x10;
    assert!(segment_of(&high, false, 10).is_none());
}

#[test]
fn load_segment_copies_and_zero_fills() {
    let data = [9u8, 9, 1, 2, 3, 4, 9];
    let (s, bytes) = load_segment(&header(true, 4, 6), &data, true).unwrap();
    assert_eq!((s.range.start.0, s.range.end.0), (0x2000, 0x2006));
    assert_eq!(bytes, vec![1, 2, 3, 4, 0, 0]);
    assert!(load_segment(&header(true, 6, 6), &data, true).is_none());
}

#[test]
fn memory_set_from_elf_maps_segments() {
    let img = tiny_elf(1, 7, 0x1_0000, &CODE, 8, 0x1800);
    let mut frames = FrameAllocator::new(0x80400, 0x80c00);
    let (ms, writes) = MemorySet::from_elf(&mut frames, layout(), &img, true).unwrap();
    assert_eq!(ms.segments.len(), 7);
    assert_eq!(ms.segments[6].flags.bits(), 0x10 | 0x2 | 0x4 | 0x8);
    assert_eq!(writes.len(), 2);
    assert_eq!(&writes[0].data[..8], &CODE);
    let mut bad = img.clone();
    bad[4] = 3;
    assert!(MemorySet::from_elf(&mut frames, layout(), &bad, true).is_err());
}

#[test]
fn memory_set_from_elf_refuses_overlap() {
    // A segment over the kernel's own pages.
    let img = tiny_elf(1, 5, 0xffff_ffff_8020_0000, &CODE, 8, 8);
    let mut frames = FrameAllocator::new(0x80400, 0x80c00);
    assert!(MemorySet::from_elf(&mut frames, layout(), &img, false).is_err());
}
