//! Decoding an ELF image's file header and program header table from the
//! bytes read from the file. Multi-byte fields are little-endian; bytes
//! past the end of what was read count as zero.
use crate::errno::ENOEXEC;
use crate::loader::elf::{parse_class, ElfClass, ElfImage, ProgramHeader};
use crate::loader::script::elf_magic;
use vstd::prelude::*;

verus! {

/// Byte `k` of `b`, zero past its end.
pub open spec fn byte_or_zero(b: Seq<u8>, k: int) -> int {
    if 0 <= k < b.len() {
        b[k] as int
    } else {
        0
    }
}

/// The little-endian 16-bit field at `at`.
pub open spec fn le16(b: Seq<u8>, at: int) -> int {
    byte_or_zero(b, at) + byte_or_zero(b, at + 1) * 0x100
}

/// The little-endian 32-bit field at `at`.
pub open spec fn le32(b: Seq<u8>, at: int) -> int {
    le16(b, at) + le16(b, at + 2) * 0x10000
}

/// The little-endian 64-bit field at `at`.
pub open spec fn le64(b: Seq<u8>, at: int) -> int {
    le32(b, at) + le32(b, at + 4) * 0x1_0000_0000
}

/// An address-sized field at `at`: 4 bytes for a 32-bit image, 8 for a
/// 64-bit one.
pub open spec fn addr_at(c: ElfClass, b: Seq<u8>, at: int) -> int {
    match c {
        ElfClass::ThirtyTwo => le32(b, at),
        ElfClass::SixtyFour => le64(b, at),
    }
}

/// The little-endian fields hold every byte they span, lowest first, with
/// none dropped or reordered: byte `k` of a field is its value divided by
/// `256^k`, modulo 256, and the value fits the field's width.
pub proof fn law_le_fields_hold_their_bytes(b: Seq<u8>, at: int)
    ensures
        0 <= le16(b, at) < 0x1_0000,
        le16(b, at) % 256 == byte_or_zero(b, at),
        le16(b, at) / 256 == byte_or_zero(b, at + 1),
        0 <= le32(b, at) < 0x1_0000_0000,
        le32(b, at) % 256 == byte_or_zero(b, at),
        (le32(b, at) / 0x100) % 256 == byte_or_zero(b, at + 1),
        (le32(b, at) / 0x10000) % 256 == byte_or_zero(b, at + 2),
        le32(b, at) / 0x1000000 == byte_or_zero(b, at + 3),
        0 <= le64(b, at) < 0x1_0000_0000_0000_0000,
        le64(b, at) % 0x1_0000_0000 == le32(b, at),
        le64(b, at) / 0x1_0000_0000 == le32(b, at + 4),
{
    let x0: u8 = byte_or_zero(b, at) as u8;
    let x1: u8 = byte_or_zero(b, at + 1) as u8;
    let x2: u8 = byte_or_zero(b, at + 2) as u8;
    let x3: u8 = byte_or_zero(b, at + 3) as u8;
    assert(0 <= byte_or_zero(b, at) < 256 && 0 <= byte_or_zero(b, at + 1) < 256);
    assert(0 <= byte_or_zero(b, at + 2) < 256 && 0 <= byte_or_zero(b, at + 3) < 256);
    assert(x0 == byte_or_zero(b, at) && x1 == byte_or_zero(b, at + 1));
    assert(x2 == byte_or_zero(b, at + 2) && x3 == byte_or_zero(b, at + 3));
    let v: u32 = (x0 as int + x1 as int * 0x100 + x2 as int * 0x10000 + x3 as int * 0x1000000) as u32;
    assert(v == x0 as int + x1 as int * 0x100 + x2 as int * 0x10000 + x3 as int * 0x1000000);
    assert(le32(b, at) == v as int);
    assert(v % 256 == x0 && (v / 0x100) % 256 == x1 && (v / 0x10000) % 256 == x2 && v / 0x1000000 == x3)
        by (bit_vector)
        requires
            v == (x0 as int + x1 as int * 0x100 + x2 as int * 0x10000 + x3 as int * 0x1000000) as u32,
    ;
    let w: u16 = (x0 as int + x1 as int * 0x100) as u16;
    assert(le16(b, at) == w as int);
    assert(w % 256 == x0 && w / 256 == x1) by (bit_vector)
        requires
            w == (x0 as int + x1 as int * 0x100) as u16,
    ;
    let lo = le32(b, at);
    let hi = le32(b, at + 4);
    assert(0 <= hi < 0x1_0000_0000) by {
        assert(0 <= byte_or_zero(b, at + 4) < 256 && 0 <= byte_or_zero(b, at + 5) < 256);
        assert(0 <= byte_or_zero(b, at + 6) < 256 && 0 <= byte_or_zero(b, at + 7) < 256);
    }
    assert(le64(b, at) == lo + hi * 0x1_0000_0000);
    assert((lo + hi * 0x1_0000_0000) % 0x1_0000_0000 == lo && (lo + hi * 0x1_0000_0000) / 0x1_0000_0000 == hi)
        by (nonlinear_arith)
        requires
            0 <= lo < 0x1_0000_0000,
            0 <= hi < 0x1_0000_0000,
    ;
}

fn byte_at(b: &Vec<u8>, k: usize) -> (r: u8)
    ensures
        r == byte_or_zero(b@, k as int),
{
    if k < b.len() {
        b[k]
    } else {
        0
    }
}

fn read16(b: &Vec<u8>, at: usize) -> (r: u16)
    requires
        at + 2 <= usize::MAX,
    ensures
        r == le16(b@, at as int),
{
    let lo = byte_at(b, at) as u16;
    let hi = byte_at(b, at + 1) as u16;
    lo + hi * 0x100
}

fn read32(b: &Vec<u8>, at: usize) -> (r: u32)
    requires
        at + 4 <= usize::MAX,
    ensures
        r == le32(b@, at as int),
{
    let lo = read16(b, at) as u32;
    let hi = read16(b, at + 2) as u32;
    lo + hi * 0x10000
}

fn read64(b: &Vec<u8>, at: usize) -> (r: u64)
    requires
        at + 8 <= usize::MAX,
    ensures
        r == le64(b@, at as int),
{
    let lo = read32(b, at) as u64;
    let hi = read32(b, at + 4) as u64;
    lo + hi * 0x1_0000_0000
}

fn read_addr(c: ElfClass, b: &Vec<u8>, at: usize) -> (r: u64)
    requires
        at + 8 <= usize::MAX,
    ensures
        r == addr_at(c, b@, at as int),
{
    match c {
        ElfClass::ThirtyTwo => read32(b, at) as u64,
        ElfClass::SixtyFour => read64(b, at),
    }
}

/// The fields of an ELF file header that loading reads.
#[derive(Clone, Copy, PartialEq, Eq, Structural, Debug)]
pub struct ElfHeader {
    pub class: ElfClass,
    pub object_type: u16,
    pub entry_point: u64,
    pub ph_offset: u64,
    pub ph_entry_size: u16,
    pub ph_count: u16,
}

/// Bytes of the whole file header: 52 for a 32-bit image, 64 for a 64-bit one.
pub open spec fn spec_header_size(c: ElfClass) -> int {
    match c {
        ElfClass::ThirtyTwo => 52,
        ElfClass::SixtyFour => 64,
    }
}

/// Bytes of one program header: 32 for a 32-bit image, 56 for a 64-bit one.
pub open spec fn spec_ph_size(c: ElfClass) -> int {
    match c {
        ElfClass::ThirtyTwo => 32,
        ElfClass::SixtyFour => 56,
    }
}

/// Bytes of one program header of class `c`.
pub fn ph_size(c: ElfClass) -> (r: usize)
    ensures
        r == spec_ph_size(c),
{
    match c {
        ElfClass::ThirtyTwo => 32,
        ElfClass::SixtyFour => 56,
    }
}

/// The class named by identification byte `b`, if it names one.
pub open spec fn class_of(b: u8) -> Option<ElfClass> {
    if b == 1 {
        Some(ElfClass::ThirtyTwo)
    } else if b == 2 {
        Some(ElfClass::SixtyFour)
    } else {
        None
    }
}

/// The header decoded from `b`, whose class is `c`: the type at 16, the
/// entry point and program header offset after the version, the program
/// header entry size and count near the end.
pub open spec fn decoded_header(c: ElfClass, b: Seq<u8>) -> ElfHeader {
    let (entry, phoff, phent, phnum) = match c {
        ElfClass::ThirtyTwo => (24int, 28int, 42int, 44int),
        ElfClass::SixtyFour => (24int, 32int, 54int, 56int),
    };
    ElfHeader {
        class: c,
        object_type: le16(b, 16) as u16,
        entry_point: addr_at(c, b, entry) as u64,
        ph_offset: addr_at(c, b, phoff) as u64,
        ph_entry_size: le16(b, phent) as u16,
        ph_count: le16(b, phnum) as u16,
    }
}

/// Decode the file header from the bytes read at the start of the file.
/// `ENOEXEC` when fewer than 16 bytes were read, when the class byte names
/// no class, or when fewer bytes than the class's header size were read.
pub fn parse_header(b: &Vec<u8>) -> (r: Result<ElfHeader, u32>)
    requires
        b@.len() >= 16 ==> b@.subrange(0, 4) == elf_magic(),
    ensures
        b@.len() < 16 ==> r == Err::<ElfHeader, u32>(ENOEXEC),
        b@.len() >= 16 ==> match class_of(b@[4]) {
            None => r == Err::<ElfHeader, u32>(ENOEXEC),
            Some(c) => if b@.len() < spec_header_size(c) {
                r == Err::<ElfHeader, u32>(ENOEXEC)
            } else {
                r == Ok::<ElfHeader, u32>(decoded_header(c, b@))
            },
        },
{
    if b.len() < 16 {
        return Err(ENOEXEC);
    }
    let c = match parse_class(b[4]) {
        Ok(c) => c,
        Err(e) => return Err(e),
    };
    let (size, phoff, phent, phnum): (usize, usize, usize, usize) = match c {
        ElfClass::ThirtyTwo => (52, 28, 42, 44),
        ElfClass::SixtyFour => (64, 32, 54, 56),
    };
    if b.len() < size {
        return Err(ENOEXEC);
    }
    Ok(
        ElfHeader {
            class: c,
            object_type: read16(b, 16),
            entry_point: read_addr(c, b, 24),
            ph_offset: read_addr(c, b, phoff),
            ph_entry_size: read16(b, phent),
            ph_count: read16(b, phnum),
        },
    )
}

/// Program header `i` of the table in `b`, decoded for class `c`.
pub open spec fn decoded_ph(c: ElfClass, b: Seq<u8>, i: int) -> ProgramHeader {
    match c {
        ElfClass::ThirtyTwo => {
            let at = 32 * i;
            ProgramHeader {
                type_: le32(b, at) as u32,
                offset: le32(b, at + 4) as u64,
                virtual_addr: le32(b, at + 8) as u64,
                file_size: le32(b, at + 16) as u64,
                mem_size: le32(b, at + 20) as u64,
                flags: le32(b, at + 24) as u32,
            }
        },
        ElfClass::SixtyFour => {
            let at = 56 * i;
            ProgramHeader {
                type_: le32(b, at) as u32,
                flags: le32(b, at + 4) as u32,
                offset: le64(b, at + 8) as u64,
                virtual_addr: le64(b, at + 16) as u64,
                file_size: le64(b, at + 32) as u64,
                mem_size: le64(b, at + 40) as u64,
            }
        },
    }
}

fn parse_ph(c: ElfClass, b: &Vec<u8>, i: usize) -> (r: ProgramHeader)
    requires
        i < 0x10000,
    ensures
        r == decoded_ph(c, b@, i as int),
{
    match c {
        ElfClass::ThirtyTwo => {
            let at = 32 * i;
            ProgramHeader {
                type_: read32(b, at),
                offset: read32(b, at + 4) as u64,
                virtual_addr: read32(b, at + 8) as u64,
                file_size: read32(b, at + 16) as u64,
                mem_size: read32(b, at + 20) as u64,
                flags: read32(b, at + 24),
            }
        },
        ElfClass::SixtyFour => {
            let at = 56 * i;
            ProgramHeader {
                type_: read32(b, at),
                flags: read32(b, at + 4),
                offset: read64(b, at + 8),
                virtual_addr: read64(b, at + 16),
                file_size: read64(b, at + 32),
                mem_size: read64(b, at + 40),
            }
        },
    }
}

impl ElfImage {
    /// The image of header `h` with its program header table read into
    /// `ph_bytes` (from the header's table offset): `h.ph_count` entries of
    /// the class's size, in order; entries the read did not reach are
    /// zero.
    pub fn from_header(h: ElfHeader, ph_bytes: &Vec<u8>) -> (r: ElfImage)
        ensures
            r.class == h.class,
            r.object_type == h.object_type,
            r.entry_point == h.entry_point,
            r.ph_offset == h.ph_offset,
            r.ph_count == h.ph_count,
            r.ph_entry_size == h.ph_entry_size,
            r.program_headers@.len() == h.ph_count,
            forall|i: int|
                0 <= i < h.ph_count ==> #[trigger] r.program_headers@[i] == decoded_ph(
                    h.class,
                    ph_bytes@,
                    i,
                ),
    {
        let mut phs: Vec<ProgramHeader> = Vec::new();
        let mut i: usize = 0;
        let n = h.ph_count as usize;
        while i < n
            invariant
                i <= n,
                n == h.ph_count,
                phs@.len() == i,
                forall|k: int| 0 <= k < i ==> #[trigger] phs@[k] == decoded_ph(h.class, ph_bytes@, k),
            decreases n - i,
        {
            phs.push(parse_ph(h.class, ph_bytes, i));
            i = i + 1;
        }
        ElfImage {
            class: h.class,
            object_type: h.object_type,
            entry_point: h.entry_point,
            ph_offset: h.ph_offset,
            ph_count: h.ph_count,
            ph_entry_size: h.ph_entry_size,
            program_headers: phs,
        }
    }
}

} // verus!
