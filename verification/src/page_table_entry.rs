//! Sv39 page table entries: flag bits 0..8 and a physical page number in bits 10..54.

use vstd::prelude::*;
use bit_field::BitField;
use crate::address::{PhysicalAddress, PhysicalPageNumber};

verus! {

/// Mask of the low `n` bits of a `u64`.
pub open spec fn low_mask(n: int) -> u64 {
    if n >= 64 {
        0xffff_ffff_ffff_ffffu64
    } else {
        ((1u64 << (n as u64)) - 1) as u64
    }
}

/// Bits `start..end` of `x`, shifted down to bit 0.
pub open spec fn bits_of(x: u64, start: int, end: int) -> u64 {
    if start == end {
        0
    } else {
        (x >> (start as u64)) & low_mask(end - start)
    }
}

/// `x` with bits `start..end` replaced by `value`.
pub open spec fn with_bits(x: u64, start: int, end: int, value: u64) -> u64 {
    if start == end {
        x
    } else {
        (x & !(low_mask(end - start) << (start as u64))) | (value << (start as u64))
    }
}

/// `BitField::get_bits` of the bit_field crate on `u64`, over `start..end`:
/// the bits of `x` in that range, moved down to bit 0. The crate asserts
/// that the range lies within the 64 bits.
#[verifier::external_body]
fn get_bits(x: u64, start: usize, end: usize) -> (r: u64)
    requires
        start < 64,
        end <= 64,
        start <= end,
    ensures
        r == bits_of(x, start as int, end as int),
{
    x.get_bits(start..end)
}

/// `BitField::set_bits` of the bit_field crate on `u64`, over `start..end`:
/// replaces the bits of `*x` in that range by `value`. The crate asserts that
/// the range lies within the 64 bits and that `value` fits in it.
#[verifier::external_body]
fn set_bits(x: &mut u64, start: usize, end: usize, value: u64)
    requires
        start < 64,
        end <= 64,
        start <= end,
        (start == end && value == 0) || (start < end && value <= low_mask(end - start)),
    ensures
        *final(x) == with_bits(*old(x), start as int, end as int, value),
{
    x.set_bits(start..end, value);
}

/// Flag bits of a page table entry.
#[derive(Clone, Copy, PartialEq, Eq, Structural, Debug)]
pub struct Flags {
    pub bits: u8,
}

pub const FLAG_V: u8 = 1;
pub const FLAG_R: u8 = 2;
pub const FLAG_W: u8 = 4;
pub const FLAG_X: u8 = 8;
pub const FLAG_U: u8 = 16;
pub const FLAG_G: u8 = 32;
pub const FLAG_A: u8 = 64;
pub const FLAG_D: u8 = 128;

impl Flags {
    /// Valid.
    pub fn v() -> (f: Flags) ensures f.bits == FLAG_V { Flags { bits: FLAG_V } }
    /// Readable.
    pub fn r() -> (f: Flags) ensures f.bits == FLAG_R { Flags { bits: FLAG_R } }
    /// Writable.
    pub fn w() -> (f: Flags) ensures f.bits == FLAG_W { Flags { bits: FLAG_W } }
    /// Executable.
    pub fn x() -> (f: Flags) ensures f.bits == FLAG_X { Flags { bits: FLAG_X } }
    /// Accessible from user mode.
    pub fn u() -> (f: Flags) ensures f.bits == FLAG_U { Flags { bits: FLAG_U } }
    /// Global.
    pub fn g() -> (f: Flags) ensures f.bits == FLAG_G { Flags { bits: FLAG_G } }
    /// Accessed.
    pub fn a() -> (f: Flags) ensures f.bits == FLAG_A { Flags { bits: FLAG_A } }
    /// Dirty.
    pub fn d() -> (f: Flags) ensures f.bits == FLAG_D { Flags { bits: FLAG_D } }

    /// No flag set.
    pub fn empty() -> (f: Flags)
        ensures
            f.bits == 0,
    {
        Flags { bits: 0 }
    }

    pub fn bits(&self) -> (b: u8)
        ensures
            b == self.bits,
    {
        self.bits
    }

    /// Every `u8` is a valid set of flags: all eight bits are defined.
    pub fn from_bits(bits: u8) -> (f: Option<Flags>)
        ensures
            f == Some(Flags { bits }),
    {
        Some(Flags { bits })
    }

    /// Flags set in `self` or in `other`.
    pub fn union(&self, other: Flags) -> (f: Flags)
        ensures
            f.bits == self.bits | other.bits,
    {
        Flags { bits: self.bits | other.bits }
    }

    /// Flags set in `self` and not in `other`.
    pub fn difference(&self, other: Flags) -> (f: Flags)
        ensures
            f.bits == self.bits & !other.bits,
    {
        Flags { bits: self.bits & !other.bits }
    }

    /// Flags set in both.
    pub fn intersection(&self, other: Flags) -> (f: Flags)
        ensures
            f.bits == self.bits & other.bits,
    {
        Flags { bits: self.bits & other.bits }
    }

    /// Whether every flag of `other` is set in `self`.
    pub fn contains(&self, other: Flags) -> (b: bool)
        ensures
            b == (self.bits & other.bits == other.bits),
    {
        self.bits & other.bits == other.bits
    }

    /// Sets the flags of `other` when `value` holds, clears them otherwise.
    pub fn set(&mut self, other: Flags, value: bool)
        ensures
            final(self).bits == if value { old(self).bits | other.bits } else { old(self).bits & !other.bits },
    {
        if value {
            self.bits = self.bits | other.bits;
        } else {
            self.bits = self.bits & !other.bits;
        }
    }
}

/// First bit of the flag field.
pub const FLAG_RANGE_START: usize = 0;
/// End of the flag field.
pub const FLAG_RANGE_END: usize = 8;
/// First bit of the page number field.
pub const PAGE_NUMBER_RANGE_START: usize = 10;
/// End of the page number field.
pub const PAGE_NUMBER_RANGE_END: usize = 54;

/// Largest page number an entry can hold.
pub const MAX_PAGE_NUMBER: u64 = 0xfff_ffff_ffff;

/// The flag field of entry word `e`.
pub open spec fn entry_flags(e: u64) -> u8 {
    (e & 0xff) as u8
}

/// The page number field of entry word `e`.
pub open spec fn entry_page_number(e: u64) -> u64 {
    (e >> 10u64) & 0xfff_ffff_ffff
}

/// The word of an entry with flag field `flags` and page number `ppn`, other bits clear.
pub open spec fn entry_word(flags: u8, ppn: u64) -> u64 {
    (ppn << 10u64) | (flags as u64)
}

/// The flags that an entry for `page_number` carries: `flags` with the valid
/// bit set exactly when a page number is given.
pub open spec fn valid_flags(flags: u8, has_page: bool) -> u8 {
    if has_page { flags | FLAG_V } else { flags & !FLAG_V }
}

proof fn lemma_field_masks()
    ensures
        low_mask(8) == 0xff,
        low_mask(44) == 0xfff_ffff_ffff,
{
    assert(low_mask(8) == 0xff) by (bit_vector);
    assert(low_mask(44) == 0xfff_ffff_ffff) by (bit_vector);
}

proof fn lemma_entry_word(flags: u8, ppn: u64)
    requires
        ppn <= MAX_PAGE_NUMBER,
    ensures
        entry_flags(entry_word(flags, ppn)) == flags,
        entry_page_number(entry_word(flags, ppn)) == ppn,
        entry_word(flags, ppn) == 0 <==> flags == 0 && ppn == 0,
        with_bits(with_bits(0, 0, 8, flags as u64), 10, 54, ppn) == entry_word(flags, ppn),
{
    let f = flags as u64;
    assert(f < 256);
    assert(((ppn << 10u64) | f) & 0xff == f) by (bit_vector)
        requires f < 256, ppn <= 0xfff_ffff_ffff;
    assert(((((ppn << 10u64) | f) >> 10u64) & 0xfff_ffff_ffff) == ppn) by (bit_vector)
        requires f < 256, ppn <= 0xfff_ffff_ffff;
    assert(((ppn << 10u64) | f) == 0 <==> f == 0 && ppn == 0) by (bit_vector)
        requires f < 256, ppn <= 0xfff_ffff_ffff;
    assert(low_mask(8) == 0xff) by (bit_vector);
    assert(low_mask(44) == 0xfff_ffff_ffff) by (bit_vector);
    assert((((0u64 & !(0xffu64 << 0u64)) | (f << 0u64)) & !(0xfff_ffff_ffffu64 << 10u64)) | (ppn << 10u64)
        == (ppn << 10u64) | f) by (bit_vector)
        requires f < 256, ppn <= 0xfff_ffff_ffff;
    assert(entry_flags(entry_word(flags, ppn)) == flags);
}

/// A Sv39 page table entry.
#[derive(Clone, Copy, PartialEq, Eq, Structural, Debug)]
pub struct PageTableEntry(pub u64);

impl PageTableEntry {
    /// The all-zero entry.
    pub fn default() -> (e: Self)
        ensures
            e.0 == 0,
    {
        PageTableEntry(0)
    }

    /// An entry for `page_number` with `flags`. Without a page number the
    /// valid bit is clear and the page number field is zero; with one, the
    /// valid bit is set.
    pub fn new(page_number: Option<PhysicalPageNumber>, flags: Flags) -> (e: Self)
        requires
            page_number is Some ==> page_number.unwrap().0 <= MAX_PAGE_NUMBER,
        ensures
            e.0 == entry_word(
                valid_flags(flags.bits, page_number is Some),
                if page_number is Some { page_number.unwrap().0 } else { 0 },
            ),
            e.flags_view() == valid_flags(flags.bits, page_number is Some),
            e.page_number_view() == if page_number is Some { page_number.unwrap().0 } else { 0 },
    {
        let mut flags = flags;
        flags.set(Flags::v(), page_number.is_some());
        let ppn = match page_number {
            Some(p) => p,
            None => PhysicalPageNumber::default(),
        };
        let mut word: u64 = 0;
        proof {
            lemma_field_masks();
            assert(flags.bits as u64 <= 0xff);
        }
        set_bits(&mut word, FLAG_RANGE_START, FLAG_RANGE_END, flags.bits() as u64);
        set_bits(&mut word, PAGE_NUMBER_RANGE_START, PAGE_NUMBER_RANGE_END, ppn.0);
        proof {
            lemma_entry_word(flags.bits, ppn.0);
        }
        PageTableEntry(word)
    }

    /// The flag field of this entry.
    pub open spec fn flags_view(self) -> u8 {
        entry_flags(self.0)
    }

    /// The page number field of this entry.
    pub open spec fn page_number_view(self) -> u64 {
        entry_page_number(self.0)
    }

    /// Points this entry at `ppn` and sets its valid bit, or, without a page
    /// number, clears both the valid bit and the page number field. The other
    /// flags and the bits outside both fields stay as they were.
    pub fn update_page_number(&mut self, ppn: Option<PhysicalPageNumber>)
        requires
            ppn is Some ==> ppn.unwrap().0 <= MAX_PAGE_NUMBER,
        ensures
            final(self).flags_view() == valid_flags(old(self).flags_view(), ppn is Some),
            final(self).page_number_view() == if ppn is Some { ppn.unwrap().0 } else { 0 },
            final(self).0 & !0x003f_ffff_ffff_fcffu64 == old(self).0 & !0x003f_ffff_ffff_fcffu64,
    {
        let old_word = self.0;
        let new_flags = match ppn {
            Some(_) => self.flags().union(Flags::v()),
            None => self.flags().difference(Flags::v()),
        };
        let p: u64 = match ppn {
            Some(p) => p.0,
            None => 0,
        };
        let mut word = self.0;
        proof {
            lemma_field_masks();
            assert(new_flags.bits as u64 <= 0xff);
        }
        set_bits(&mut word, FLAG_RANGE_START, FLAG_RANGE_END, new_flags.bits() as u64);
        set_bits(&mut word, PAGE_NUMBER_RANGE_START, PAGE_NUMBER_RANGE_END, p);
        self.0 = word;
        proof {
            let f = new_flags.bits as u64;
            assert(f < 256);
            assert(low_mask(8) == 0xff) by (bit_vector);
            assert(low_mask(44) == 0xfff_ffff_ffff) by (bit_vector);
            let w1 = (old_word & !(0xffu64 << 0u64)) | (f << 0u64);
            let w2 = (w1 & !(0xfff_ffff_ffffu64 << 10u64)) | (p << 10u64);
            assert(w2 & 0xff == f) by (bit_vector)
                requires f < 256, p <= 0xfff_ffff_ffff,
                    w1 == (old_word & !(0xffu64 << 0u64)) | (f << 0u64),
                    w2 == (w1 & !(0xfff_ffff_ffffu64 << 10u64)) | (p << 10u64);
            assert((w2 >> 10u64) & 0xfff_ffff_ffff == p) by (bit_vector)
                requires f < 256, p <= 0xfff_ffff_ffff,
                    w1 == (old_word & !(0xffu64 << 0u64)) | (f << 0u64),
                    w2 == (w1 & !(0xfff_ffff_ffffu64 << 10u64)) | (p << 10u64);
            assert(w2 & !0x003f_ffff_ffff_fcffu64 == old_word & !0x003f_ffff_ffff_fcffu64) by (bit_vector)
                requires f < 256, p <= 0xfff_ffff_ffff,
                    w1 == (old_word & !(0xffu64 << 0u64)) | (f << 0u64),
                    w2 == (w1 & !(0xfff_ffff_ffffu64 << 10u64)) | (p << 10u64);
        }
    }

    /// The physical page number this entry holds.
    pub fn page_number(&self) -> (p: PhysicalPageNumber)
        ensures
            p.0 == self.page_number_view(),
            p.0 <= MAX_PAGE_NUMBER,
    {
        let v = self.0;
        let r = get_bits(v, PAGE_NUMBER_RANGE_START, PAGE_NUMBER_RANGE_END);
        proof {
            assert(low_mask(44) == 0xfff_ffff_ffff) by (bit_vector);
            assert((v >> 10u64) & 0xfff_ffff_ffff <= 0xfff_ffff_ffff) by (bit_vector);
        }
        PhysicalPageNumber(r)
    }

    /// Start address of the physical page this entry holds.
    pub fn address(&self) -> (a: PhysicalAddress)
        ensures
            a.0 == self.page_number_view() * 0x1000,
    {
        let p = self.page_number();
        PhysicalAddress::from_page_number(p)
    }

    /// The flags of this entry.
    pub fn flags(&self) -> (f: Flags)
        ensures
            f.bits == self.flags_view(),
    {
        let v = self.0;
        let r = get_bits(v, FLAG_RANGE_START, FLAG_RANGE_END);
        proof {
            assert(low_mask(8) == 0xff) by (bit_vector);
            assert((v >> 0u64) & 0xff == v & 0xff) by (bit_vector);
            assert(v & 0xff < 256) by (bit_vector);
        }
        match Flags::from_bits(r as u8) {
            Some(f) => f,
            None => Flags::empty(),
        }
    }

    /// Whether the whole entry is zero.
    pub fn is_empty(&self) -> (b: bool)
        ensures
            b == (self.0 == 0),
    {
        self.0 == 0
    }
}

/// An entry built from a page number holds that page number and is valid;
/// one built without holds page number zero and is not valid.
pub proof fn law_new_entry_round_trip(page_number: Option<PhysicalPageNumber>, flags: Flags)
    requires
        page_number is Some ==> page_number.unwrap().0 <= MAX_PAGE_NUMBER,
    ensures
        ({
            let ppn = if page_number is Some { page_number.unwrap().0 } else { 0 };
            let e = PageTableEntry(entry_word(valid_flags(flags.bits, page_number is Some), ppn));
            &&& e.page_number_view() == ppn
            &&& (e.flags_view() & FLAG_V == FLAG_V) == page_number is Some
            &&& e.flags_view() & !FLAG_V == flags.bits & !FLAG_V
        }),
{
    let ppn = if page_number is Some { page_number.unwrap().0 } else { 0 };
    let fl = valid_flags(flags.bits, page_number is Some);
    lemma_entry_word(fl, ppn);
    let b = flags.bits;
    assert((b | 1u8) & 1u8 == 1u8) by (bit_vector);
    assert((b & !1u8) & 1u8 == 0u8) by (bit_vector);
    assert((b | 1u8) & !1u8 == b & !1u8) by (bit_vector);
    assert((b & !1u8) & !1u8 == b & !1u8) by (bit_vector);
}

} // verus!
