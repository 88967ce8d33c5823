//! Programs in ELF files: the header, the program headers, and the
//! segments a program is loaded into.
//!
//! The ELF reader reads multi-byte fields in the byte order of the machine
//! it runs on, so what it reads is stated for some byte order.

use vstd::prelude::*;
use xmas_elf::header::Class;
use xmas_elf::program::Type;
use xmas_elf::ElfFile;
use crate::address::{Range, VirtualAddress};
use crate::page_table_entry::{Flags, FLAG_R, FLAG_U, FLAG_W, FLAG_X};
use crate::segment::{MapType, Segment};
use vstd::arithmetic::div_mod::{lemma_fundamental_div_mod, lemma_fundamental_div_mod_converse_mod};

verus! {

/// The `n`-byte unsigned number at `at` in `d`, least significant byte
/// first when `little` holds, most significant first otherwise.
pub open spec fn read_uint(d: Seq<u8>, at: int, n: nat, little: bool) -> nat
    decreases n,
{
    if n == 0 {
        0
    } else if little {
        d[at] as nat + 256 * read_uint(d, at + 1, (n - 1) as nat, little)
    } else {
        read_uint(d, at, (n - 1) as nat, little) * 256 + d[at + n - 1] as nat
    }
}

/// Whether `bytes` starts with an ELF header that the ELF reader accepts:
/// the magic number and a 32- or 64-bit class.
pub open spec fn elf_header_valid(bytes: Seq<u8>) -> bool {
    &&& bytes.len() >= 16
    &&& bytes[0] == 0x7f && bytes[1] == 0x45 && bytes[2] == 0x4c && bytes[3] == 0x46
    &&& (bytes[4] == 1 || bytes[4] == 2)
}

/// Whether the header of `d` is a 64-bit one.
pub open spec fn is_64(d: Seq<u8>) -> bool {
    d[4] == 2
}

/// The entry point in the header of `d`, read in the given byte order.
pub open spec fn entry_reading(d: Seq<u8>, little: bool) -> nat {
    if is_64(d) { read_uint(d, 24, 8, little) } else { read_uint(d, 24, 4, little) }
}

/// Where the program-header table of `d` starts, read in the given byte order.
pub open spec fn ph_offset_reading(d: Seq<u8>, little: bool) -> nat {
    if is_64(d) { read_uint(d, 32, 8, little) } else { read_uint(d, 28, 4, little) }
}

/// The size of one program header of `d`, read in the given byte order.
pub open spec fn ph_entry_size_reading(d: Seq<u8>, little: bool) -> nat {
    if is_64(d) { read_uint(d, 54, 2, little) } else { read_uint(d, 42, 2, little) }
}

/// The number of program headers of `d`, read in the given byte order.
pub open spec fn ph_count_reading(d: Seq<u8>, little: bool) -> nat {
    if is_64(d) { read_uint(d, 56, 2, little) } else { read_uint(d, 44, 2, little) }
}

/// What the ELF reader read from a file's header, with a copy of the file
/// (at `at` in `buf`, `len` bytes, on an 8-byte boundary). Only
/// `elf_header` makes one, so its fields are what the reader reads from the
/// copy on this machine.
pub struct ElfHeader {
    buf: Vec<u8>,
    at: usize,
    len: usize,
    order: Ghost<bool>,
    class64: bool,
    entry: u64,
    ph_offset: u64,
    ph_entry_size: u16,
    ph_count: u16,
}

impl ElfHeader {
    /// The file the header was read from.
    pub closed spec fn source(&self) -> Seq<u8> {
        self.buf@.subrange(self.at as int, self.at + self.len)
    }

    /// The byte order the reader read the fields in: `true` for least
    /// significant byte first.
    pub closed spec fn little(&self) -> bool {
        self.order@
    }

    pub closed spec fn class64_spec(&self) -> bool {
        self.class64
    }

    pub closed spec fn len_spec(&self) -> usize {
        self.len
    }

    pub closed spec fn entry_spec(&self) -> u64 {
        self.entry
    }

    pub closed spec fn ph_offset_spec(&self) -> u64 {
        self.ph_offset
    }

    pub closed spec fn ph_entry_size_spec(&self) -> u16 {
        self.ph_entry_size
    }

    pub closed spec fn ph_count_spec(&self) -> u16 {
        self.ph_count
    }

    /// The fields are the header of `d` read in the byte order `little()`.
    pub open spec fn read_from(&self, d: Seq<u8>) -> bool {
        &&& self.source() == d
        &&& self.len_spec() == d.len()
        &&& elf_header_valid(d)
        &&& d.len() >= 64
        &&& self.class64_spec() == is_64(d)
        &&& self.entry_spec() == entry_reading(d, self.little())
        &&& self.ph_offset_spec() == ph_offset_reading(d, self.little())
        &&& self.ph_entry_size_spec() == ph_entry_size_reading(d, self.little())
        &&& self.ph_count_spec() == ph_count_reading(d, self.little())
    }

    /// The header of ELF file `data` as the reader reads it: nothing when
    /// `data` is shorter than a 64-bit header or the header is not valid.
    pub fn parse(data: &[u8]) -> (r: Option<ElfHeader>)
        ensures
            data@.len() < 64 ==> r is None,
            data@.len() >= 64 ==> (r is Some <==> elf_header_valid(data@)),
            r is Some ==> r->0.read_from(data@),
    {
        if data.len() < 64 {
            return None;
        }
        elf_header(data)
    }

    /// The program's entry point.
    pub fn entry(&self) -> (r: u64)
        ensures
            r == self.entry_spec(),
    {
        self.entry
    }

    /// Where the program-header table starts in the file.
    pub fn ph_offset(&self) -> (r: u64)
        ensures
            r == self.ph_offset_spec(),
    {
        self.ph_offset
    }

    /// The size of one program header.
    pub fn ph_entry_size(&self) -> (r: u16)
        ensures
            r == self.ph_entry_size_spec(),
    {
        self.ph_entry_size
    }

    /// The number of program headers.
    pub fn ph_count(&self) -> (r: u16)
        ensures
            r == self.ph_count_spec(),
    {
        self.ph_count
    }

    /// Whether the file is a 64-bit one.
    pub fn is_64(&self) -> (r: bool)
        ensures
            r == self.class64_spec(),
    {
        self.class64
    }

    /// The number of bytes in the file.
    pub fn len(&self) -> (r: usize)
        ensures
            r == self.len_spec(),
    {
        self.len
    }
}

/// `xmas_elf::ElfFile::new` on a copy of `data` that starts on an 8-byte
/// boundary, and the header's class, `entry_point`, `ph_offset`,
/// `ph_entry_size` and `ph_count`: nothing when the header is not valid.
/// The reader reads the fields in the machine's byte order; the contract
/// names that order `little()` and does not say which one it is, so the
/// ghost value written in the body is a placeholder. The reader asserts the
/// alignment of its header, which the copy provides (on a byte pointer,
/// `align_offset` gives the offset to the next 8-byte boundary).
#[verifier::external_body]
pub(crate) fn elf_header(data: &[u8]) -> (r: Option<ElfHeader>)
    requires
        data@.len() >= 64,
    ensures
        r is Some <==> elf_header_valid(data@),
        r is Some ==> r->0.read_from(data@),
{
    let mut buf = vec![0u8; data.len() + 8];
    let at = buf.as_ptr().align_offset(8) % 8;
    buf[at..at + data.len()].copy_from_slice(data);
    match ElfFile::new(&buf[at..at + data.len()]) {
        Ok(f) => Some(ElfHeader {
            order: Ghost(arbitrary()), at, len: data.len(),
            class64: match f.header.pt1.class() { Class::SixtyFour => true, _ => false },
            entry: f.header.pt2.entry_point(), ph_offset: f.header.pt2.ph_offset(),
            ph_entry_size: f.header.pt2.ph_entry_size(), ph_count: f.header.pt2.ph_count(),
            buf,
        }),
        Err(_) => None,
    }
}

/// The fields of one program header that loading a program reads.
#[derive(Clone, Copy, PartialEq, Eq, Structural, Debug)]
pub struct ElfProgramHeader {
    /// Whether the segment is a loadable one (type 1).
    pub is_load: bool,
    pub read: bool,
    pub write: bool,
    pub execute: bool,
    /// Where the segment's bytes start in the file.
    pub offset: u64,
    pub virtual_addr: u64,
    /// How many bytes of the segment the file holds.
    pub file_size: u64,
    /// How many bytes the segment takes in memory.
    pub mem_size: u64,
}

/// The program header at `start` in `d`, read in the given byte order.
pub open spec fn ph_reading(d: Seq<u8>, start: int, little: bool) -> ElfProgramHeader {
    let c64 = is_64(d);
    let ty = read_uint(d, start, 4, little);
    let flags = if c64 { read_uint(d, start + 4, 4, little) } else { read_uint(d, start + 24, 4, little) };
    ElfProgramHeader {
        is_load: ty == 1,
        read: (flags / 4) % 2 == 1,
        write: (flags / 2) % 2 == 1,
        execute: flags % 2 == 1,
        offset: (if c64 { read_uint(d, start + 8, 8, little) } else { read_uint(d, start + 4, 4, little) }) as u64,
        virtual_addr: (if c64 { read_uint(d, start + 16, 8, little) } else { read_uint(d, start + 8, 4, little) }) as u64,
        file_size: (if c64 { read_uint(d, start + 32, 8, little) } else { read_uint(d, start + 16, 4, little) }) as u64,
        mem_size: (if c64 { read_uint(d, start + 40, 8, little) } else { read_uint(d, start + 20, 4, little) }) as u64,
    }
}

/// Where program header `index` of the file read into `h` starts.
pub open spec fn ph_start(h: ElfHeader, index: int) -> int {
    h.ph_offset_spec() + index * h.ph_entry_size_spec()
}

/// Program header `index` of the file read into `h` lies inside the file,
/// is large enough for its fields, and is aligned for them (8 bytes in a
/// 64-bit file, 4 in a 32-bit one).
pub open spec fn ph_in_file(h: ElfHeader, index: int) -> bool {
    let d = h.source();
    let align = if is_64(d) { 8int } else { 4int };
    &&& 0 <= index < h.ph_count_spec()
    &&& h.ph_offset_spec() > 0
    &&& h.ph_entry_size_spec() >= (if is_64(d) { 56int } else { 32int })
    &&& ph_start(h, index) + h.ph_entry_size_spec() <= d.len()
    &&& ph_start(h, index) % align == 0
}

/// `xmas_elf::ElfFile::program_header(index)` on the 8-byte aligned copy of
/// the file that `h` holds, and the header's type, flags, `offset`,
/// `virtual_addr`, `file_size` and `mem_size`. The reader asserts that the
/// header lies in the file, is as large as its fields and is aligned for
/// them; `requires` asks for that of the fields `h` holds, which are what
/// the reader reads. The fields come in the machine's byte order, the one
/// the header was read in, `h.little()`.
#[verifier::external_body]
fn elf_program_header(h: &ElfHeader, index: u16) -> (r: Option<ElfProgramHeader>)
    requires
        h.read_from(h.source()),
        ph_in_file(*h, index as int),
    ensures
        r is Some,
        r is Some ==> r->0 == ph_reading(h.source(), ph_start(*h, index as int), h.little()),
{
    let f = match ElfFile::new(&h.buf[h.at..h.at + h.len]) { Ok(f) => f, Err(_) => return None };
    match f.program_header(index) {
        Ok(ph) => Some(ElfProgramHeader {
            is_load: match ph.get_type() { Ok(Type::Load) => true, _ => false },
            read: ph.flags().is_read(), write: ph.flags().is_write(), execute: ph.flags().is_execute(),
            offset: ph.offset(), virtual_addr: ph.virtual_addr(), file_size: ph.file_size(), mem_size: ph.mem_size(),
        }),
        Err(_) => None,
    }
}

/// The segment that program header `ph` asks for: framed, over
/// `virtual_addr..virtual_addr + mem_size`, with the header's permissions
/// and, in a user process, the user flag.
pub open spec fn segment_spec(ph: ElfProgramHeader, is_user: bool) -> Segment {
    Segment {
        map_type: MapType::Framed,
        range: Range {
            start: VirtualAddress(ph.virtual_addr),
            end: VirtualAddress((ph.virtual_addr + ph.mem_size) as u64),
        },
        flags: Flags {
            bits: (if is_user { FLAG_U } else { 0u8 }) | (if ph.read { FLAG_R } else { 0u8 })
                | (if ph.write { FLAG_W } else { 0u8 }) | (if ph.execute { FLAG_X } else { 0u8 }),
        },
    }
}

/// Whether the loadable segment `ph` fits: its bytes lie in a file of
/// `data_len` bytes, it holds no more bytes than it takes in memory, and it
/// ends inside the address space.
pub open spec fn segment_fits(ph: ElfProgramHeader, data_len: int) -> bool {
    &&& ph.offset + ph.file_size <= data_len
    &&& ph.file_size <= ph.mem_size
    &&& ph.virtual_addr + ph.mem_size <= u64::MAX
}

/// The segment that a loadable program header asks for, or nothing when it
/// is not loadable or does not fit a file of `data_len` bytes.
pub fn segment_of(ph: &ElfProgramHeader, is_user: bool, data_len: usize) -> (s: Option<Segment>)
    ensures
        s is Some <==> ph.is_load && segment_fits(*ph, data_len as int),
        s is Some ==> s->0 == segment_spec(*ph, is_user),
{
    if !ph.is_load || ph.file_size > ph.mem_size || ph.virtual_addr > u64::MAX - ph.mem_size {
        return None;
    }
    if ph.offset > data_len as u64 || ph.file_size > data_len as u64 - ph.offset {
        return None;
    }
    let bits: u8 = (if is_user { FLAG_U } else { 0u8 }) | (if ph.read { FLAG_R } else { 0u8 }) | (if ph.write {
        FLAG_W
    } else {
        0u8
    }) | (if ph.execute { FLAG_X } else { 0u8 });
    Some(Segment {
        map_type: MapType::Framed,
        range: Range { start: VirtualAddress(ph.virtual_addr), end: VirtualAddress(ph.virtual_addr + ph.mem_size) },
        flags: Flags { bits },
    })
}

/// The bytes a segment starts with in memory: its `file_size` bytes from
/// the file, then zeros up to `mem_size`.
pub open spec fn segment_bytes(ph: ElfProgramHeader, d: Seq<u8>) -> Seq<u8> {
    d.subrange(ph.offset as int, ph.offset + ph.file_size)
        + Seq::new((ph.mem_size - ph.file_size) as nat, |i: int| 0u8)
}

/// The segment and initial bytes of loadable program header `ph` of file
/// `data`, or nothing when it is not loadable or does not fit the file.
pub fn load_segment(ph: &ElfProgramHeader, data: &[u8], is_user: bool) -> (r: Option<(Segment, Vec<u8>)>)
    ensures
        r is Some <==> ph.is_load && segment_fits(*ph, data@.len() as int),
        r is Some ==> (r->0).0 == segment_spec(*ph, is_user) && (r->0).1@ == segment_bytes(*ph, data@),
{
    let seg = match segment_of(ph, is_user, data.len()) {
        Some(s) => s,
        None => {
            return None;
        },
    };
    let mut bytes: Vec<u8> = Vec::new();
    let start = ph.offset as usize;
    let end = (ph.offset + ph.file_size) as usize;
    let mut i: usize = start;
    while i < end
        invariant
            start == ph.offset,
            end == ph.offset + ph.file_size,
            end <= data@.len(),
            start <= i <= end,
            bytes@ == data@.subrange(start as int, i as int),
        decreases end - i,
    {
        bytes.push(data[i]);
        proof {
            assert(bytes@ =~= data@.subrange(start as int, i as int + 1));
        }
        i = i + 1;
    }
    let ghost file_part = bytes@;
    let mut k: u64 = ph.file_size;
    while k < ph.mem_size
        invariant
            ph.file_size <= k <= ph.mem_size,
            bytes@ == file_part + Seq::new((k - ph.file_size) as nat, |j: int| 0u8),
        decreases ph.mem_size - k,
    {
        bytes.push(0);
        proof {
            assert(bytes@ =~= file_part + Seq::new((k + 1 - ph.file_size) as nat, |j: int| 0u8));
        }
        k = k + 1;
    }
    Some((seg, bytes))
}

/// Where program header `i` of file `d` starts, read in byte order `little`.
pub open spec fn table_start(d: Seq<u8>, little: bool, i: int) -> int {
    ph_offset_reading(d, little) + i * ph_entry_size_reading(d, little)
}

/// Program header `i` of file `d`, read in byte order `little`.
pub open spec fn ph_of(d: Seq<u8>, little: bool, i: int) -> ElfProgramHeader {
    ph_reading(d, table_start(d, little, i), little)
}

/// Whether the program in `d`, read in byte order `little`, can be loaded:
/// its program-header table is placed and aligned as the reader needs,
/// each program header lies in the file, and each loadable segment fits.
pub open spec fn loadable(d: Seq<u8>, little: bool) -> bool {
    let count = ph_count_reading(d, little);
    let offset = ph_offset_reading(d, little);
    let size = ph_entry_size_reading(d, little);
    let align: int = if is_64(d) { 8 } else { 4 };
    let min_size: int = if is_64(d) { 56 } else { 32 };
    &&& count > 0 ==> offset > 0 && size >= min_size && offset as int % align == 0 && size as int % align == 0
    &&& forall|i: int| 0 <= i < count ==> #[trigger] table_start(d, little, i) + size <= d.len()
    &&& forall|i: int| 0 <= i < count && (#[trigger] ph_of(d, little, i)).is_load
        ==> segment_fits(ph_of(d, little, i), d.len() as int)
}

/// The segments of the first `n` program headers of `d` read in byte order
/// `little`, each with the bytes it starts with, in table order; program
/// headers that are not loadable give none.
pub open spec fn loaded(d: Seq<u8>, little: bool, n: nat, is_user: bool) -> Seq<(Segment, Seq<u8>)>
    decreases n,
{
    if n == 0 {
        Seq::empty()
    } else {
        let before = loaded(d, little, (n - 1) as nat, is_user);
        let p = ph_of(d, little, n - 1);
        if p.is_load {
            before.push((segment_spec(p, is_user), segment_bytes(p, d)))
        } else {
            before
        }
    }
}

/// A list of segments with their bytes, by the bytes' contents.
pub open spec fn segments_view(v: Seq<(Segment, Vec<u8>)>) -> Seq<(Segment, Seq<u8>)> {
    v.map_values(|x: (Segment, Vec<u8>)| (x.0, x.1@))
}

/// Whether a segment and its initial bytes are what a program loads:
/// framed, not inverted, with as many bytes as the segment covers.
pub open spec fn program_segment(x: (Segment, Seq<u8>)) -> bool {
    &&& x.0.map_type == MapType::Framed
    &&& x.0.range.start.0 <= x.0.range.end.0
    &&& x.1.len() == x.0.range.end.0 - x.0.range.start.0
}

/// The segments of the program whose header the reader read into `h`,
/// each with the bytes it starts with, in the order of the program
/// headers; nothing when the program cannot be loaded.
pub fn segments_of(h: &ElfHeader, data: &[u8], is_user: bool) -> (r: Option<Vec<(Segment, Vec<u8>)>>)
    requires
        h.read_from(data@),
    ensures
        r is Some <==> loadable(data@, h.little()),
        r is Some ==> segments_view(r->0@) == loaded(
            data@,
            h.little(),
            ph_count_reading(data@, h.little()),
            is_user,
        ),
        r is Some ==> forall|k: int| 0 <= k < r->0@.len() ==> program_segment(#[trigger] segments_view(r->0@)[k]),
{
    let ghost d = data@;
    let ghost little = h.little();
    let count = h.ph_count();
    let offset = h.ph_offset();
    let size = h.ph_entry_size() as u64;
    let len = h.len() as u64;
    let align: u64 = if h.is_64() { 8 } else { 4 };
    let min_size: u64 = if h.is_64() { 56 } else { 32 };
    if count > 0 && (offset == 0 || size < min_size || offset % align != 0 || size % align != 0) {
        return None;
    }
    let mut segments: Vec<(Segment, Vec<u8>)> = Vec::new();
    let mut i: u16 = 0;
    while i < count
        invariant
            h.read_from(d),
            d == data@,
            little == h.little(),
            count == ph_count_reading(d, little),
            offset == ph_offset_reading(d, little),
            size == ph_entry_size_reading(d, little),
            len == d.len(),
            align == (if is_64(d) { 8u64 } else { 4u64 }),
            min_size == (if is_64(d) { 56u64 } else { 32u64 }),
            count > 0 ==> offset > 0 && size >= min_size && offset % align == 0 && size % align == 0,
            i <= count,
            forall|j: int| 0 <= j < i ==> #[trigger] table_start(d, little, j) + size <= d.len(),
            forall|j: int| 0 <= j < i && (#[trigger] ph_of(d, little, j)).is_load
                ==> segment_fits(ph_of(d, little, j), d.len() as int),
            segments_view(segments@) == loaded(d, little, i as nat, is_user),
            forall|k: int| 0 <= k < segments@.len() ==> program_segment(#[trigger] segments_view(segments@)[k]),
        decreases count - i,
    {
        assert((i as u64) * size <= 0xffff * 0xffff) by (nonlinear_arith)
            requires
                i < 0x10000,
                size < 0x10000;
        if offset > len || (i as u64) * size > len - offset {
            proof {
                assert(table_start(d, little, i as int) + size > d.len());
            }
            return None;
        }
        let start = offset + (i as u64) * size;
        if size > len - start {
            proof {
                assert(table_start(d, little, i as int) + size > d.len());
            }
            return None;
        }
        proof {
            let a = align as int;
            lemma_fundamental_div_mod(offset as int, a);
            lemma_fundamental_div_mod(size as int, a);
            let qo = offset as int / a;
            let qs = size as int / a;
            let q = qo + i as int * qs;
            assert(offset == a * qo && size == a * qs);
            assert(start == q * a + 0) by (nonlinear_arith)
                requires
                    start == offset + i * size,
                    offset == a * qo,
                    size == a * qs,
                    q == qo + i * qs;
            lemma_fundamental_div_mod_converse_mod(start as int, a, q, 0);
            assert(start == table_start(d, little, i as int));
        }
        let ph = match elf_program_header(h, i) {
            Some(p) => p,
            None => {
                return None;
            },
        };
        assert(ph == ph_of(d, little, i as int));
        if ph.is_load {
            match load_segment(&ph, data, is_user) {
                Some(s) => {
                    let ghost before = segments@;
                    segments.push(s);
                    proof {
                        assert(segments_view(segments@) =~= segments_view(before).push((s.0, s.1@)));
                        assert(program_segment((s.0, s.1@)));
                    }
                },
                None => {
                    return None;
                },
            }
        }
        i = i + 1;
    }
    Some(segments)
}

/// The segments of the program in ELF file `data`, each with the bytes it
/// starts with, in the order of the program headers; nothing when the file
/// is not an ELF file the reader accepts or its program cannot be loaded.
/// The reader reads fields in the machine's byte order, so the result is
/// stated for one byte order.
pub fn elf_segments(data: &[u8], is_user: bool) -> (r: Option<Vec<(Segment, Vec<u8>)>>)
    ensures
        data@.len() < 64 || !elf_header_valid(data@) ==> r is None,
        r is Some ==> exists|little: bool|
            #[trigger] loadable(data@, little) && segments_view(r->0@) == loaded(
                data@,
                little,
                ph_count_reading(data@, little),
                is_user,
            ),
        r is None && data@.len() >= 64 && elf_header_valid(data@) ==> exists|little: bool|
            !#[trigger] loadable(data@, little),
        r is Some ==> forall|k: int| 0 <= k < r->0@.len() ==> program_segment(#[trigger] segments_view(r->0@)[k]),
{
    match ElfHeader::parse(data) {
        Some(h) => segments_of(&h, data, is_user),
        None => None,
    }
}

} // verus!
