//! Reading an ELF file: its header, program headers and the `.interp`
//! section, field by field from the bytes, and the memory of the program
//! that the file holds.
//!
//! The fields are the ones `xmas_elf` reads (`ElfFile::new`,
//! `ElfFile::program_header`, `ProgramHeader::get_type`,
//! `ElfFile::find_section_by_name`, `SectionHeader::raw_data`), read here
//! little-endian as on this kernel's targets. `xmas_elf` reads them in place
//! and `zero::read` asserts that each header lies at an address aligned for
//! it, which depends on where the bytes lie in memory; here every read is
//! bounds-checked and a file that cannot be read gives `None`.
use vstd::prelude::*;
use crate::config::USER_HEAP_SIZE;
use crate::elf::{elf_fold, elf_layout_fits, from_elf, header_fits, image_ok, map_elf, ElfLayout, ProgramHeader, ProgramImage, PT_INTERP};

verus! {

/// The little-endian 16-bit number at byte `o` of `d`.
pub open spec fn le16(d: Seq<u8>, o: int) -> int {
    d[o] as int + d[o + 1] as int * 256
}

/// The little-endian 32-bit number at byte `o` of `d`.
pub open spec fn le32(d: Seq<u8>, o: int) -> int {
    le16(d, o) + le16(d, o + 2) * 65536
}

/// The little-endian 64-bit number at byte `o` of `d`.
pub open spec fn le64(d: Seq<u8>, o: int) -> int {
    le32(d, o) + le32(d, o + 4) * 0x1_0000_0000
}

fn read16(d: &[u8], o: usize) -> (r: u16)
    requires
        o + 2 <= d@.len(),
    ensures
        r == le16(d@, o as int),
{
    d[o] as u16 + (d[o + 1] as u16) * 256
}

fn read32(d: &[u8], o: usize) -> (r: u32)
    requires
        o + 4 <= d@.len(),
    ensures
        r == le32(d@, o as int),
{
    let n = d.len();
    let lo = read16(d, o) as u32;
    let hi = read16(d, o + 2) as u32;
    lo + hi * 65536
}

fn read64(d: &[u8], o: usize) -> (r: u64)
    requires
        o + 8 <= d@.len(),
    ensures
        r == le64(d@, o as int),
{
    let n = d.len();
    let lo = read32(d, o) as u64;
    let hi = read32(d, o + 4) as u64;
    lo + hi * 0x1_0000_0000
}

/// The fields of an ELF file header that loading reads.
#[derive(Clone, Copy, Debug, PartialEq, Eq, Structural)]
pub struct ElfHeader {
    pub is64: bool,
    pub entry_point: u64,
    pub ph_offset: u64,
    pub sh_offset: u64,
    pub ph_entry_size: u16,
    pub ph_count: u16,
    pub sh_entry_size: u16,
    pub sh_count: u16,
    pub sh_str_index: u16,
}

/// The header of the file `d`: `None` unless it starts with the ELF magic
/// number, has the 32-bit or the 64-bit class and is long enough for the
/// header of its class.
pub open spec fn elf_header(d: Seq<u8>) -> Option<ElfHeader> {
    if d.len() < 16 || d[0] != 0x7f || d[1] != 0x45 || d[2] != 0x4c || d[3] != 0x46 {
        None
    } else if d[4] == 2 {
        if d.len() < 64 {
            None
        } else {
            Some(
                ElfHeader {
                    is64: true,
                    entry_point: le64(d, 24) as u64,
                    ph_offset: le64(d, 32) as u64,
                    sh_offset: le64(d, 40) as u64,
                    ph_entry_size: le16(d, 54) as u16,
                    ph_count: le16(d, 56) as u16,
                    sh_entry_size: le16(d, 58) as u16,
                    sh_count: le16(d, 60) as u16,
                    sh_str_index: le16(d, 62) as u16,
                },
            )
        }
    } else if d[4] == 1 {
        if d.len() < 52 {
            None
        } else {
            Some(
                ElfHeader {
                    is64: false,
                    entry_point: le32(d, 24) as u64,
                    ph_offset: le32(d, 28) as u64,
                    sh_offset: le32(d, 32) as u64,
                    ph_entry_size: le16(d, 42) as u16,
                    ph_count: le16(d, 44) as u16,
                    sh_entry_size: le16(d, 46) as u16,
                    sh_count: le16(d, 48) as u16,
                    sh_str_index: le16(d, 50) as u16,
                },
            )
        }
    } else {
        None
    }
}

/// Reads the header of the file `d` (see `elf_header`).
pub fn parse_elf_header(d: &[u8]) -> (r: Option<ElfHeader>)
    ensures
        r == elf_header(d@),
        r matches Some(h) ==> ({
            &&& h.is64 == (d@[4] == 2)
            &&& h.entry_point == bytes_value(d@, 24, if h.is64 { 8 } else { 4 })
            &&& h.ph_offset == bytes_value(d@, if h.is64 { 32 } else { 28 }, if h.is64 { 8 } else { 4 })
            &&& h.ph_entry_size == bytes_value(d@, if h.is64 { 54 } else { 42 }, 2)
            &&& h.ph_count == bytes_value(d@, if h.is64 { 56 } else { 44 }, 2)
        }),
{
    proof {
        lemma_header_fields(d@);
    }
    if d.len() < 16 || d[0] != 0x7f || d[1] != 0x45 || d[2] != 0x4c || d[3] != 0x46 {
        return None;
    }
    if d[4] == 2 {
        if d.len() < 64 {
            return None;
        }
        Some(
            ElfHeader {
                is64: true,
                entry_point: read64(d, 24),
                ph_offset: read64(d, 32),
                sh_offset: read64(d, 40),
                ph_entry_size: read16(d, 54),
                ph_count: read16(d, 56),
                sh_entry_size: read16(d, 58),
                sh_count: read16(d, 60),
                sh_str_index: read16(d, 62),
            },
        )
    } else if d[4] == 1 {
        if d.len() < 52 {
            return None;
        }
        Some(
            ElfHeader {
                is64: false,
                entry_point: read32(d, 24) as u64,
                ph_offset: read32(d, 28) as u64,
                sh_offset: read32(d, 32) as u64,
                ph_entry_size: read16(d, 42),
                ph_count: read16(d, 44),
                sh_entry_size: read16(d, 46),
                sh_count: read16(d, 48),
                sh_str_index: read16(d, 50),
            },
        )
    } else {
        None
    }
}

/// Whether a program header type is one `xmas_elf` knows: 0 to 7, or in the
/// OS- or processor-specific ranges.
pub open spec fn ph_type_known(t: int) -> bool {
    t <= 7 || (0x6000_0000 <= t <= 0x7fff_ffff)
}

/// Where table entry `i` starts, for a table at `offset` of entries of
/// `size` bytes.
pub open spec fn entry_start(offset: u64, size: u16, i: int) -> int {
    offset + i * size
}

/// Program header `i` of the file `d` with header `h`: `None` when the file
/// has no program headers (offset or entry size 0), when the entry is too
/// short for its class or runs past the end, or when its type is unknown.
pub open spec fn elf_program_header(d: Seq<u8>, h: ElfHeader, i: int) -> Option<ProgramHeader> {
    let s = entry_start(h.ph_offset, h.ph_entry_size, i);
    if h.ph_offset == 0 || h.ph_entry_size < (if h.is64 { 56int } else { 32int }) || s + h.ph_entry_size
        > d.len() || !ph_type_known(le32(d, s)) {
        None
    } else if h.is64 {
        Some(
            ProgramHeader {
                p_type: le32(d, s) as u32,
                flags: le32(d, s + 4) as u32,
                offset: le64(d, s + 8) as u64,
                vaddr: le64(d, s + 16) as u64,
                file_size: le64(d, s + 32) as u64,
                mem_size: le64(d, s + 40) as u64,
            },
        )
    } else {
        Some(
            ProgramHeader {
                p_type: le32(d, s) as u32,
                offset: le32(d, s + 4) as u64,
                vaddr: le32(d, s + 8) as u64,
                file_size: le32(d, s + 16) as u64,
                mem_size: le32(d, s + 20) as u64,
                flags: le32(d, s + 24) as u32,
            },
        )
    }
}

/// The unsigned number whose `n` bytes, least significant first, start at
/// byte `o` of `d`.
pub open spec fn bytes_value(d: Seq<u8>, o: int, n: nat) -> int
    decreases n,
{
    if n == 0 {
        0
    } else {
        d[o] as int + 256 * bytes_value(d, o + 1, (n - 1) as nat)
    }
}

proof fn lemma_le_values(d: Seq<u8>, o: int)
    ensures
        le32(d, o) == bytes_value(d, o, 4),
        le64(d, o) == bytes_value(d, o, 8),
{
    reveal_with_fuel(bytes_value, 9);
    assert(le32(d, o + 4) == bytes_value(d, o + 4, 4));
}

proof fn lemma_le16_value(d: Seq<u8>, o: int)
    ensures
        le16(d, o) == bytes_value(d, o, 2),
{
    reveal_with_fuel(bytes_value, 3);
}

/// The header is read at the ELF layout's places: a file is ELF when it
/// starts with 0x7f 'E' 'L' 'F', 64-bit when byte 4 is 2 and 32-bit when it
/// is 1; for a 64-bit file the entry point, the program and section header
/// offsets are the 8 bytes at 24, 32 and 40, and the program header entry
/// size and count, the section header entry size and count and the name
/// table's index the 2 bytes at 54, 56, 58, 60 and 62; for a 32-bit file
/// the entry point and offsets are the 4 bytes at 24, 28 and 32, and the
/// sizes, counts and index the 2 bytes at 42, 44, 46, 48 and 50.
pub proof fn lemma_header_fields(d: Seq<u8>)
    ensures
        elf_header(d) is Some ==> d.len() >= 16 && d[0] == 0x7f && d[1] == 0x45 && d[2] == 0x4c && d[3] == 0x46
            && (d[4] == 1 || d[4] == 2),
        elf_header(d) matches Some(h) ==> (h.is64 == (d[4] == 2) && if h.is64 {
            &&& d.len() >= 64
            &&& h.entry_point == bytes_value(d, 24, 8)
            &&& h.ph_offset == bytes_value(d, 32, 8)
            &&& h.sh_offset == bytes_value(d, 40, 8)
            &&& h.ph_entry_size == bytes_value(d, 54, 2)
            &&& h.ph_count == bytes_value(d, 56, 2)
            &&& h.sh_entry_size == bytes_value(d, 58, 2)
            &&& h.sh_count == bytes_value(d, 60, 2)
            &&& h.sh_str_index == bytes_value(d, 62, 2)
        } else {
            &&& d.len() >= 52
            &&& h.entry_point == bytes_value(d, 24, 4)
            &&& h.ph_offset == bytes_value(d, 28, 4)
            &&& h.sh_offset == bytes_value(d, 32, 4)
            &&& h.ph_entry_size == bytes_value(d, 42, 2)
            &&& h.ph_count == bytes_value(d, 44, 2)
            &&& h.sh_entry_size == bytes_value(d, 46, 2)
            &&& h.sh_count == bytes_value(d, 48, 2)
            &&& h.sh_str_index == bytes_value(d, 50, 2)
        }),
        d.len() >= 64 && d[0] == 0x7f && d[1] == 0x45 && d[2] == 0x4c && d[3] == 0x46 && (d[4] == 1 || d[4] == 2)
            ==> elf_header(d) is Some,
{
    lemma_le_values(d, 24);
    lemma_le_values(d, 28);
    lemma_le_values(d, 32);
    lemma_le_values(d, 40);
    lemma_le16_value(d, 42);
    lemma_le16_value(d, 44);
    lemma_le16_value(d, 46);
    lemma_le16_value(d, 48);
    lemma_le16_value(d, 50);
    lemma_le16_value(d, 54);
    lemma_le16_value(d, 56);
    lemma_le16_value(d, 58);
    lemma_le16_value(d, 60);
    lemma_le16_value(d, 62);
}

/// Program header `i` is read at its place in the table, field by field in
/// the ELF layout of its class: for a 64-bit file the type is the 4 bytes
/// at the entry's start, the flags the 4 bytes at +4, the file offset, the
/// virtual address, the file size and the memory size the 8 bytes at +8,
/// +16, +32 and +40; for a 32-bit file the type at +0, the offset at +4, the
/// address at +8, the sizes at +16 and +20 and the flags at +24, 4 bytes
/// each. The flags never come from the type word.
pub proof fn lemma_program_header_fields(d: Seq<u8>, h: ElfHeader, i: int)
    ensures
        elf_program_header(d, h, i) matches Some(ph) ==> ({
            let s = h.ph_offset + i * h.ph_entry_size;
            if h.is64 {
                &&& ph.p_type == bytes_value(d, s, 4)
                &&& ph.flags == bytes_value(d, s + 4, 4)
                &&& ph.offset == bytes_value(d, s + 8, 8)
                &&& ph.vaddr == bytes_value(d, s + 16, 8)
                &&& ph.file_size == bytes_value(d, s + 32, 8)
                &&& ph.mem_size == bytes_value(d, s + 40, 8)
            } else {
                &&& ph.p_type == bytes_value(d, s, 4)
                &&& ph.offset == bytes_value(d, s + 4, 4)
                &&& ph.vaddr == bytes_value(d, s + 8, 4)
                &&& ph.file_size == bytes_value(d, s + 16, 4)
                &&& ph.mem_size == bytes_value(d, s + 20, 4)
                &&& ph.flags == bytes_value(d, s + 24, 4)
            }
        }),
{
    let s = h.ph_offset + i * h.ph_entry_size;
    lemma_le_values(d, s);
    lemma_le_values(d, s + 4);
    lemma_le_values(d, s + 8);
    lemma_le_values(d, s + 16);
    lemma_le_values(d, s + 20);
    lemma_le_values(d, s + 24);
    lemma_le_values(d, s + 32);
    lemma_le_values(d, s + 40);
}

/// Where entry `i` of a table starts, if that fits 64 bits.
fn entry_offset(offset: u64, size: u16, i: u16) -> (r: Option<u64>)
    ensures
        r is None ==> entry_start(offset, size, i as int) > u64::MAX,
        r matches Some(s) ==> s == entry_start(offset, size, i as int),
{
    let a = i as u64;
    let b = size as u64;
    proof {
        assert(a * b <= 65535 * 65535) by (nonlinear_arith)
            requires
                a <= 65535,
                b <= 65535,
        ;
    }
    let prod: u64 = a * b;
    offset.checked_add(prod)
}

/// Reads program header `i` of the file `d` (see `elf_program_header`).
pub fn read_program_header(d: &[u8], h: &ElfHeader, i: u16) -> (r: Option<ProgramHeader>)
    ensures
        r == elf_program_header(d@, *h, i as int),
        r matches Some(ph) ==> ({
            let s = h.ph_offset + i * h.ph_entry_size;
            &&& ph.p_type == bytes_value(d@, s, 4)
            &&& ph.flags == bytes_value(d@, if h.is64 { s + 4 } else { s + 24 }, 4)
        }),
{
    proof {
        lemma_program_header_fields(d@, *h, i as int);
    }
    let n = d.len();
    assert(d@.len() == n && n <= u64::MAX);
    let min: u16 = if h.is64 { 56 } else { 32 };
    if h.ph_offset == 0 || h.ph_entry_size < min {
        return None;
    }
    let s = match entry_offset(h.ph_offset, h.ph_entry_size, i) {
        Some(s) => s,
        None => return None,
    };
    if s > d.len() as u64 || (h.ph_entry_size as u64) > (d.len() as u64) - s {
        return None;
    }
    let s = s as usize;
    let t = read32(d, s);
    if !(t <= 7 || (0x6000_0000 <= t && t <= 0x7fff_ffff)) {
        return None;
    }
    if h.is64 {
        Some(
            ProgramHeader {
                p_type: t,
                flags: read32(d, s + 4),
                offset: read64(d, s + 8),
                vaddr: read64(d, s + 16),
                file_size: read64(d, s + 32),
                mem_size: read64(d, s + 40),
            },
        )
    } else {
        Some(
            ProgramHeader {
                p_type: t,
                offset: read32(d, s + 4) as u64,
                vaddr: read32(d, s + 8) as u64,
                file_size: read32(d, s + 16) as u64,
                mem_size: read32(d, s + 20) as u64,
                flags: read32(d, s + 24),
            },
        )
    }
}

/// The first `n` program headers of `d`, in order.
pub open spec fn elf_headers(d: Seq<u8>, h: ElfHeader, n: int) -> Seq<ProgramHeader> {
    Seq::new(n as nat, |i: int| elf_program_header(d, h, i)->Some_0)
}

/// Whether the file `d` holds a program that can be laid out: its header and
/// each of its program headers can be read, and the layout's arithmetic
/// fits the machine words with a heap of `USER_HEAP_SIZE` bytes on top.
pub open spec fn elf_loadable(d: Seq<u8>) -> bool {
    &&& elf_header(d) matches Some(h)
    &&& forall|i: int| 0 <= i < h.ph_count ==> (#[trigger] elf_program_header(d, h, i)) is Some
    &&& forall|i: int| 0 <= i < h.ph_count ==> header_fits(#[trigger] elf_headers(d, h, h.ph_count as int)[i], 0)
    &&& elf_fold(elf_headers(d, h, h.ph_count as int), 0, h.ph_count as int).1 + (h.ph_offset as usize)
        <= usize::MAX
    &&& elf_fold(elf_headers(d, h, h.ph_count as int), 0, h.ph_count as int).0 + USER_HEAP_SIZE
        <= usize::MAX
}

/// All program headers of `d`, or `None` when one cannot be read.
fn read_program_headers(d: &[u8], h: &ElfHeader) -> (r: Option<Vec<ProgramHeader>>)
    ensures
        r is Some <==> forall|i: int| 0 <= i < h.ph_count ==> (#[trigger] elf_program_header(d@, *h, i)) is Some,
        r matches Some(v) ==> v@ == elf_headers(d@, *h, h.ph_count as int),
{
    let mut phs: Vec<ProgramHeader> = Vec::new();
    let mut i: u16 = 0;
    while i < h.ph_count
        invariant
            0 <= i <= h.ph_count,
            phs@.len() == i,
            forall|k: int| 0 <= k < i ==> (#[trigger] elf_program_header(d@, *h, k)) is Some,
            forall|k: int| 0 <= k < i ==> #[trigger] phs@[k] == elf_headers(d@, *h, h.ph_count as int)[k],
        decreases h.ph_count - i,
    {
        match read_program_header(d, h, i) {
            Some(ph) => phs.push(ph),
            None => {
                assert(elf_program_header(d@, *h, i as int) is None);
                return None;
            },
        }
        i = i + 1;
    }
    assert(phs@ =~= elf_headers(d@, *h, h.ph_count as int));
    Some(phs)
}

/// The memory of the program in the ELF file `data`, laid out by
/// `from_elf`; `None` when the file cannot be read or laid out.
pub fn from_elf_bytes<F, T>(data: &[u8]) -> (r: Option<ProgramImage<F, T>>)
    ensures
        r is Some <==> elf_loadable(data@),
        r matches Some(img) ==> ({
            let h = elf_header(data@)->Some_0;
            image_ok(img, elf_headers(data@, h, h.ph_count as int), h.ph_count, h.ph_offset, h.entry_point, h.ph_entry_size)
        }),
{
    let h = match parse_elf_header(data) {
        Some(h) => h,
        None => return None,
    };
    let phs = match read_program_headers(data, &h) {
        Some(phs) => phs,
        None => return None,
    };
    if !elf_layout_fits(&phs, 0, h.ph_offset, USER_HEAP_SIZE) {
        assert(!elf_loadable(data@)) by {
            if elf_loadable(data@) {
                assert forall|k: int| 0 <= k < phs@.len() implies header_fits(#[trigger] phs@[k], 0) by {
                    assert(header_fits(elf_headers(data@, h, h.ph_count as int)[k], 0));
                }
            }
        }
        return None;
    }
    Some(from_elf(&phs, h.ph_count, h.ph_offset, h.entry_point, h.ph_entry_size))
}

/// The fields of a section header that finding a section reads.
#[derive(Clone, Copy, Debug, PartialEq, Eq, Structural)]
pub struct SectionInfo {
    pub name: u32,
    pub sh_type: u32,
    pub offset: u64,
    pub size: u64,
}

/// Section header `i` of the file `d` with header `h`: `None` for an index
/// in the reserved range (from 0xff00), an entry too short for its class, or
/// one that runs past the end.
pub open spec fn elf_section(d: Seq<u8>, h: ElfHeader, i: int) -> Option<SectionInfo> {
    let s = entry_start(h.sh_offset, h.sh_entry_size, i);
    if i >= 0xff00 || h.sh_entry_size < (if h.is64 { 64int } else { 40int }) || s + h.sh_entry_size > d.len() {
        None
    } else if h.is64 {
        Some(
            SectionInfo {
                name: le32(d, s) as u32,
                sh_type: le32(d, s + 4) as u32,
                offset: le64(d, s + 24) as u64,
                size: le64(d, s + 32) as u64,
            },
        )
    } else {
        Some(
            SectionInfo {
                name: le32(d, s) as u32,
                sh_type: le32(d, s + 4) as u32,
                offset: le32(d, s + 16) as u64,
                size: le32(d, s + 20) as u64,
            },
        )
    }
}

/// Reads section header `i` of the file `d` (see `elf_section`).
fn read_section(d: &[u8], h: &ElfHeader, i: u16) -> (r: Option<SectionInfo>)
    ensures
        r == elf_section(d@, *h, i as int),
{
    let n = d.len();
    assert(d@.len() == n && n <= u64::MAX);
    let min: u16 = if h.is64 { 64 } else { 40 };
    if i >= 0xff00 || h.sh_entry_size < min {
        return None;
    }
    let s = match entry_offset(h.sh_offset, h.sh_entry_size, i) {
        Some(s) => s,
        None => return None,
    };
    if s > d.len() as u64 || (h.sh_entry_size as u64) > (d.len() as u64) - s {
        return None;
    }
    let s = s as usize;
    if h.is64 {
        Some(SectionInfo { name: read32(d, s), sh_type: read32(d, s + 4), offset: read64(d, s + 24), size: read64(d, s + 32) })
    } else {
        Some(
            SectionInfo {
                name: read32(d, s),
                sh_type: read32(d, s + 4),
                offset: read32(d, s + 16) as u64,
                size: read32(d, s + 20) as u64,
            },
        )
    }
}

/// Whether a section type is one `xmas_elf` knows: 0 to 11, 14 to 18, or
/// in the OS-, processor- or user-specific ranges.
pub open spec fn sh_type_known(t: int) -> bool {
    t <= 11 || (14 <= t <= 18) || t >= 0x6000_0000
}

/// The bytes of the name `.interp`, with the NUL that ends it.
pub open spec fn interp_name() -> Seq<u8> {
    seq![0x2eu8, 0x69u8, 0x6eu8, 0x74u8, 0x65u8, 0x72u8, 0x70u8, 0u8]
}

/// What comparing the name of a section with `.interp` gives.
#[derive(Clone, Copy, Debug, PartialEq, Eq, Structural)]
pub enum NameCheck {
    /// The name cannot be read: the string table's header, its start or the
    /// name's start lies outside the file, or no NUL ends the name.
    Fail,
    /// A section without a name (null or unknown type), or another name.
    Other,
    /// The name is `.interp`.
    Interp,
}

/// Whether some byte from `p` on is a NUL.
pub open spec fn nul_from(d: Seq<u8>, p: int) -> bool {
    exists|k: int| p <= k < d.len() && d[k] == 0
}

/// Comparing the name of section `sec` of `d` with `.interp`, as
/// `find_section_by_name` does.
pub open spec fn name_check(d: Seq<u8>, h: ElfHeader, sec: SectionInfo) -> NameCheck {
    if !sh_type_known(sec.sh_type as int) || sec.sh_type == 0 {
        NameCheck::Other
    } else {
        match elf_section(d, h, h.sh_str_index as int) {
            None => NameCheck::Fail,
            Some(t) => {
                let p = t.offset + sec.name;
                if t.offset > d.len() || p > d.len() || !nul_from(d, p) {
                    NameCheck::Fail
                } else if p + 8 <= d.len() && d.subrange(p, p + 8) == interp_name() {
                    NameCheck::Interp
                } else {
                    NameCheck::Other
                }
            }
        }
    }
}

/// The first section from `i` on whose name is `.interp`: `Some(None)` when
/// there is none, `None` when a section header or a name before it cannot
/// be read.
pub open spec fn find_interp_from(d: Seq<u8>, h: ElfHeader, i: int) -> Option<Option<SectionInfo>>
    decreases h.sh_count - i,
{
    if i >= h.sh_count {
        Some(None)
    } else {
        match elf_section(d, h, i) {
            None => None,
            Some(sec) => match name_check(d, h, sec) {
                NameCheck::Fail => None,
                NameCheck::Interp => Some(Some(sec)),
                NameCheck::Other => find_interp_from(d, h, i + 1),
            },
        }
    }
}

/// Whether any byte from `p` on is a NUL.
fn has_nul(d: &[u8], p: usize) -> (r: bool)
    requires
        p <= d@.len(),
    ensures
        r == nul_from(d@, p as int),
{
    let mut k = p;
    while k < d.len()
        invariant
            p <= k <= d@.len(),
            forall|j: int| p <= j < k ==> d@[j] != 0,
        decreases d@.len() - k,
    {
        if d[k] == 0 {
            return true;
        }
        k = k + 1;
    }
    false
}

/// Compares the name of section `sec` with `.interp` (see `name_check`).
fn check_name(d: &[u8], h: &ElfHeader, sec: &SectionInfo) -> (r: NameCheck)
    ensures
        r == name_check(d@, *h, *sec),
{
    let t = sec.sh_type;
    if !(t <= 11 || (14 <= t && t <= 18) || t >= 0x6000_0000) || t == 0 {
        return NameCheck::Other;
    }
    let table = match read_section(d, h, h.sh_str_index) {
        Some(t) => t,
        None => return NameCheck::Fail,
    };
    let n = d.len() as u64;
    if table.offset > n || (sec.name as u64) > n - table.offset {
        return NameCheck::Fail;
    }
    let p = (table.offset + sec.name as u64) as usize;
    if !has_nul(d, p) {
        return NameCheck::Fail;
    }
    if d.len() - p >= 8 && d[p] == 0x2e && d[p + 1] == 0x69 && d[p + 2] == 0x6e && d[p + 3] == 0x74
        && d[p + 4] == 0x65 && d[p + 5] == 0x72 && d[p + 6] == 0x70 && d[p + 7] == 0 {
        assert(d@.subrange(p as int, p + 8) =~= interp_name());
        NameCheck::Interp
    } else {
        proof {
            if p + 8 <= d@.len() && d@.subrange(p as int, p + 8) == interp_name() {
                assert(d@.subrange(p as int, p + 8)[0] == d@[p as int]);
                assert(d@.subrange(p as int, p + 8)[1] == d@[p + 1]);
                assert(d@.subrange(p as int, p + 8)[2] == d@[p + 2]);
                assert(d@.subrange(p as int, p + 8)[3] == d@[p + 3]);
                assert(d@.subrange(p as int, p + 8)[4] == d@[p + 4]);
                assert(d@.subrange(p as int, p + 8)[5] == d@[p + 5]);
                assert(d@.subrange(p as int, p + 8)[6] == d@[p + 6]);
                assert(d@.subrange(p as int, p + 8)[7] == d@[p + 7]);
            }
        }
        NameCheck::Other
    }
}

/// Whether the file has a `PT_INTERP` program header, among those before
/// the first one that cannot be read: `None` when one before it cannot be.
pub open spec fn interp_ph_from(d: Seq<u8>, h: ElfHeader, i: int) -> Option<bool>
    decreases h.ph_count - i,
{
    if i >= h.ph_count {
        Some(false)
    } else {
        match elf_program_header(d, h, i) {
            None => None,
            Some(ph) => if ph.p_type == PT_INTERP {
                Some(true)
            } else {
                interp_ph_from(d, h, i + 1)
            },
        }
    }
}

/// The bytes of a section, unless they run past the end of the file.
pub open spec fn section_bytes(d: Seq<u8>, sec: SectionInfo) -> Option<Seq<u8>> {
    if sec.offset + sec.size > d.len() {
        None
    } else {
        Some(d.subrange(sec.offset as int, sec.offset + sec.size))
    }
}

/// `b` without one NUL at its end, if it ends with one.
pub open spec fn strip_nul(b: Seq<u8>) -> Seq<u8> {
    if b.len() > 0 && b.last() == 0 {
        b.drop_last()
    } else {
        b
    }
}

/// What the file says of a dynamic linker to load with it.
#[derive(Clone, Debug)]
pub enum InterpLookup {
    /// The file has no `PT_INTERP` program header.
    Static,
    /// The path of its dynamic linker, from its `.interp` section.
    Dynamic(Vec<u8>),
    /// The file cannot be read far enough to tell, or it has a `PT_INTERP`
    /// header but no readable `.interp` section.
    Bad,
}

/// What the file `d` says of its dynamic linker, as `load_interp` reads it:
/// the program headers up to the first `PT_INTERP` one decide whether it
/// has one; the path is then the `.interp` section without its ending NUL.
pub open spec fn interp_spec(d: Seq<u8>) -> Option<Option<Seq<u8>>> {
    match elf_header(d) {
        None => None,
        Some(h) => match interp_ph_from(d, h, 0) {
            None => None,
            Some(false) => Some(None),
            Some(true) => match find_interp_from(d, h, 0) {
                Some(Some(sec)) => match section_bytes(d, sec) {
                    Some(b) => Some(Some(strip_nul(b))),
                    None => None,
                },
                _ => None,
            },
        },
    }
}

/// Finds the first section from `i` on named `.interp` (see
/// `find_interp_from`).
fn find_interp_section(d: &[u8], h: &ElfHeader) -> (r: Option<Option<SectionInfo>>)
    ensures
        r == find_interp_from(d@, *h, 0),
{
    let mut j: u16 = 0;
    while j < h.sh_count
        invariant
            0 <= j <= h.sh_count,
            find_interp_from(d@, *h, 0) == find_interp_from(d@, *h, j as int),
        decreases h.sh_count - j,
    {
        let s = match read_section(d, h, j) {
            Some(s) => s,
            None => {
                assert(find_interp_from(d@, *h, j as int) is None);
                return None;
            },
        };
        match check_name(d, h, &s) {
            NameCheck::Fail => {
                assert(find_interp_from(d@, *h, j as int) is None);
                return None;
            },
            NameCheck::Interp => {
                assert(find_interp_from(d@, *h, j as int) == Some(Some(s)));
                return Some(Some(s));
            },
            NameCheck::Other => {
                assert(find_interp_from(d@, *h, j as int) == find_interp_from(d@, *h, j + 1));
            },
        }
        j = j + 1;
    }
    Some(None)
}

/// What the ELF file `d` says of its dynamic linker (see `interp_spec`):
/// `Static` without one, `Dynamic` with the path of one, `Bad` when the file
/// cannot be read that far.
pub fn interp_path(d: &[u8]) -> (r: InterpLookup)
    ensures
        interp_spec(d@) is None <==> r is Bad,
        interp_spec(d@) == Some(None::<Seq<u8>>) <==> r is Static,
        interp_spec(d@) matches Some(Some(p)) ==> (r matches InterpLookup::Dynamic(v) && v@ == p),
{
    let h = match parse_elf_header(d) {
        Some(h) => h,
        None => return InterpLookup::Bad,
    };
    let mut i: u16 = 0;
    let mut found = false;
    while i < h.ph_count
        invariant_except_break
            0 <= i <= h.ph_count,
            elf_header(d@) == Some(h),
            !found,
            interp_ph_from(d@, h, 0) == interp_ph_from(d@, h, i as int),
        ensures
            found ==> interp_ph_from(d@, h, 0) == Some(true),
            !found ==> interp_ph_from(d@, h, 0) == Some(false),
        decreases h.ph_count - i,
    {
        match read_program_header(d, &h, i) {
            None => {
                assert(interp_ph_from(d@, h, i as int) is None);
                assert(interp_ph_from(d@, h, 0) is None);
                assert(elf_header(d@) == Some(h));
                assert(interp_spec(d@) is None);
                return InterpLookup::Bad;
            },
            Some(ph) => {
                if ph.p_type == PT_INTERP {
                    assert(interp_ph_from(d@, h, i as int) == Some(true));
                    found = true;
                    break;
                }
                assert(interp_ph_from(d@, h, i as int) == interp_ph_from(d@, h, i + 1));
            },
        }
        i = i + 1;
    }
    if !found {
        return InterpLookup::Static;
    }
    let sec = find_interp_section(d, &h);
    let sec = match sec {
        Some(x) => x,
        None => return InterpLookup::Bad,
    };
    let s = match sec {
        Some(s) => s,
        None => {
            assert(find_interp_from(d@, h, 0) == Some(None::<SectionInfo>));
            return InterpLookup::Bad;
        },
    };
    let n = d.len() as u64;
    if s.offset > n || s.size > n - s.offset {
        return InterpLookup::Bad;
    }
    let start = s.offset as usize;
    let end = (s.offset + s.size) as usize;
    let mut out: Vec<u8> = Vec::new();
    let mut k = start;
    while k < end
        invariant
            start <= k <= end,
            end <= d@.len(),
            out@ == d@.subrange(start as int, k as int),
        decreases end - k,
    {
        out.push(d[k]);
        assert(d@.subrange(start as int, k + 1) =~= d@.subrange(start as int, k as int).push(d@[k as int]));
        k = k + 1;
    }
    if out.len() > 0 && out[out.len() - 1] == 0 {
        out.pop();
    }
    InterpLookup::Dynamic(out)
}

/// The layout of the dynamic linker in the ELF file `interp`, loaded at
/// `offset` (its program headers read and laid out by `map_elf`), and its
/// entry point moved by `offset`: where the program starts. `None` when the
/// file cannot be read or laid out there.
pub fn interp_image<F, T>(interp: &[u8], offset: usize) -> (r: Option<(ElfLayout<F, T>, usize)>)
    ensures
        r is Some <==> (elf_header(interp@) matches Some(h) && {
            &&& forall|i: int| 0 <= i < h.ph_count ==> (#[trigger] elf_program_header(interp@, h, i)) is Some
            &&& forall|i: int| 0 <= i < h.ph_count ==> header_fits(#[trigger] elf_headers(interp@, h, h.ph_count as int)[i], offset)
            &&& elf_fold(elf_headers(interp@, h, h.ph_count as int), offset, h.ph_count as int).1 + (h.ph_offset as usize) <= usize::MAX
            &&& elf_fold(elf_headers(interp@, h, h.ph_count as int), offset, h.ph_count as int).0 <= usize::MAX
            &&& h.entry_point + offset <= usize::MAX
        }),
        r matches Some(p) ==> ({
            let h = elf_header(interp@)->Some_0;
            let phs = elf_headers(interp@, h, h.ph_count as int);
            &&& p.1 == h.entry_point + offset
            &&& p.0.segments@.len() == phs.len()
            &&& p.0.max_virt_mem == elf_fold(phs, offset, phs.len() as int).0
            &&& p.0.header_va == elf_fold(phs, offset, phs.len() as int).1
            &&& p.0.tls_addr == elf_fold(phs, offset, phs.len() as int).3
            &&& p.0.ph_count == h.ph_count
        }),
{
    let h = match parse_elf_header(interp) {
        Some(h) => h,
        None => return None,
    };
    let phs = match read_program_headers(interp, &h) {
        Some(phs) => phs,
        None => return None,
    };
    if h.entry_point > (usize::MAX - offset) as u64 {
        return None;
    }
    if !elf_layout_fits(&phs, offset, h.ph_offset, 0) {
        assert(phs@ == elf_headers(interp@, h, h.ph_count as int));
        proof {
            if forall|i: int| 0 <= i < h.ph_count ==> header_fits(#[trigger] elf_headers(interp@, h, h.ph_count as int)[i], offset) {
                assert forall|k: int| 0 <= k < phs@.len() implies header_fits(#[trigger] phs@[k], offset) by {
                    assert(header_fits(elf_headers(interp@, h, h.ph_count as int)[k], offset));
                }
            }
        }
        return None;
    }
    let layout = map_elf(&phs, offset, h.ph_count, h.ph_offset);
    Some((layout, h.entry_point as usize + offset))
}

} // verus!
