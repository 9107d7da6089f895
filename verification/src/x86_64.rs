//! x86-64 four-level page-table entries: flag bits, entry construction and
//! decoding, and the kernel part of a fresh PML4.
use vstd::prelude::*;
use crate::addr::{PhysAddr, PhysPage};
use crate::pagetable::{MappingFlags, MF_A, MF_D, MF_R, MF_U, MF_W, MF_X};

verus! {

pub const PTE_P: u64 = 0x1;

pub const PTE_RW: u64 = 0x2;

pub const PTE_US: u64 = 0x4;

pub const PTE_PWT: u64 = 0x8;

pub const PTE_PCD: u64 = 0x10;

pub const PTE_A: u64 = 0x20;

pub const PTE_D: u64 = 0x40;

pub const PTE_PS: u64 = 0x80;

pub const PTE_G: u64 = 0x100;

pub const PTE_USER_9: u64 = 0x200;

pub const PTE_USER_10: u64 = 0x400;

pub const PTE_USER_11: u64 = 0x800;

pub const PTE_XD: u64 = 0x8000_0000_0000_0000;

/// Every flag bit that an x86-64 entry defines.
pub const PTE_ALL: u64 = 0x8000_0000_0000_0fff;

/// Kernel virtual addresses start here.
pub const VIRT_ADDR_START: u64 = 0xffff_ff80_0000_0000;

/// Entry count of one table page.
pub const PTE_NUM_IN_PAGE: usize = 0x200;

/// Flag bits of an x86-64 page-table entry.
#[derive(Clone, Copy, Debug, PartialEq, Eq, Structural)]
pub struct PTEFlags {
    pub bits: u64,
}

#[allow(non_snake_case)]
impl PTEFlags {
    /// Whether every bit of `mask` is set.
    pub open spec fn has(self, mask: u64) -> bool {
        self.bits & mask == mask
    }

    pub fn empty() -> (r: Self)
        ensures
            r.bits == 0,
    {
        PTEFlags { bits: 0 }
    }

    /// The flags of `bits` that x86-64 defines; the other bits are dropped.
    pub fn from_bits_truncate(bits: u64) -> (r: Self)
        ensures
            r.bits == bits & PTE_ALL,
    {
        PTEFlags { bits: bits & PTE_ALL }
    }

    pub fn P() -> (r: Self)
        ensures
            r.bits == PTE_P,
    {
        PTEFlags { bits: PTE_P }
    }

    pub fn RW() -> (r: Self)
        ensures
            r.bits == PTE_RW,
    {
        PTEFlags { bits: PTE_RW }
    }

    pub fn US() -> (r: Self)
        ensures
            r.bits == PTE_US,
    {
        PTEFlags { bits: PTE_US }
    }

    pub fn A() -> (r: Self)
        ensures
            r.bits == PTE_A,
    {
        PTEFlags { bits: PTE_A }
    }

    pub fn D() -> (r: Self)
        ensures
            r.bits == PTE_D,
    {
        PTEFlags { bits: PTE_D }
    }

    pub fn XD() -> (r: Self)
        ensures
            r.bits == PTE_XD,
    {
        PTEFlags { bits: PTE_XD }
    }

    pub fn bits(&self) -> (r: u64)
        ensures
            r == self.bits,
    {
        self.bits
    }

    /// Whether all flags of `other` are set in `self`.
    pub fn contains(&self, other: Self) -> (r: bool)
        ensures
            r == self.has(other.bits),
    {
        self.bits & other.bits == other.bits
    }

    /// The flags set in either.
    pub fn union(self, other: Self) -> (r: Self)
        ensures
            r.bits == self.bits | other.bits,
    {
        PTEFlags { bits: self.bits | other.bits }
    }

    /// Sets the flags of `other`.
    pub fn insert(&mut self, other: Self)
        ensures
            final(self).bits == old(self).bits | other.bits,
    {
        self.bits = self.bits | other.bits;
    }

    /// Clears the flags of `other`.
    pub fn remove(&mut self, other: Self)
        ensures
            final(self).bits == old(self).bits & !other.bits,
    {
        self.bits = self.bits & !other.bits;
    }

    /// The entry flags for mapping flags `flags`: present, plus read/write for
    /// W, user for U, accessed for A and dirty for D; never execute-disable.
    pub fn from_mapping_flags(flags: MappingFlags) -> (r: Self)
        ensures
            r.bits == x86_bits_of_mapping(flags.bits),
            !r.has(PTE_XD),
            r.bits & PTE_P == PTE_P,
            (r.bits & PTE_RW == PTE_RW) == (flags.bits & MF_W == MF_W),
            (r.bits & PTE_US == PTE_US) == (flags.bits & MF_U == MF_U),
    {
        proof {
            lemma_x86_bits_name_flags(flags.bits);
        }
        let m = flags.bits;
        let bits = PTE_P | (if m & MF_W == MF_W { PTE_RW } else { 0 }) | (if m & MF_U == MF_U {
            PTE_US
        } else {
            0
        }) | (if m & MF_A == MF_A { PTE_A } else { 0 }) | (if m & MF_D == MF_D {
            PTE_D
        } else {
            0
        });
        assert(bits & PTE_XD != PTE_XD) by (bit_vector)
            requires
                bits == 1u64 | (if m & 8 == 8 { 2u64 } else { 0 }) | (if m & 2 == 2 {
                    4u64
                } else {
                    0
                }) | (if m & 0x20 == 0x20 { 0x20u64 } else { 0 }) | (if m & 0x40 == 0x40 {
                    0x40u64
                } else {
                    0
                }),
        ;
        PTEFlags { bits }
    }

    /// The mapping flags for these entry flags: W for read/write, U for user,
    /// A, D, and X unless execute-disable is set.
    pub fn to_mapping_flags(self) -> (r: MappingFlags)
        ensures
            r.bits == mapping_bits_of_x86(self.bits),
            (r.bits & MF_W == MF_W) == (self.bits & PTE_RW == PTE_RW),
            (r.bits & MF_U == MF_U) == (self.bits & PTE_US == PTE_US),
            (r.bits & MF_X == MF_X) == (self.bits & PTE_XD != PTE_XD),
    {
        proof {
            lemma_x86_flags_name_bits(self.bits);
        }
        let p = self.bits;
        let bits = 0u64 | (if p & PTE_RW == PTE_RW { MF_W } else { 0 }) | (if p & PTE_US
            == PTE_US {
            MF_U
        } else {
            0
        }) | (if p & PTE_A == PTE_A { MF_A } else { 0 }) | (if p & PTE_D == PTE_D {
            MF_D
        } else {
            0
        }) | (if p & PTE_XD != PTE_XD { MF_X } else { 0 });
        MappingFlags::from_bits_retain(bits)
    }
}

/// Entry bits for the mapping flags `m`.
pub open spec fn x86_bits_of_mapping(m: u64) -> u64 {
    PTE_P | (if m & MF_W == MF_W { PTE_RW } else { 0 }) | (if m & MF_U == MF_U {
        PTE_US
    } else {
        0
    }) | (if m & MF_A == MF_A { PTE_A } else { 0 }) | (if m & MF_D == MF_D { PTE_D } else { 0 })
}

/// Mapping flags for the entry bits `p`.
pub open spec fn mapping_bits_of_x86(p: u64) -> u64 {
    0u64 | (if p & PTE_RW == PTE_RW { MF_W } else { 0 }) | (if p & PTE_US == PTE_US {
        MF_U
    } else {
        0
    }) | (if p & PTE_A == PTE_A { MF_A } else { 0 }) | (if p & PTE_D == PTE_D { MF_D } else { 0 })
        | (if p & PTE_XD != PTE_XD { MF_X } else { 0 })
}

/// Each mapping flag becomes the x86-64 bit of the same meaning: the entry
/// is present, writable exactly for MF_W, user-accessible exactly for MF_U,
/// accessed and dirty exactly for MF_A and MF_D, and never execute-disabled.
pub proof fn lemma_x86_bits_name_flags(m: u64)
    ensures
        x86_bits_of_mapping(m) & PTE_P == PTE_P,
        (x86_bits_of_mapping(m) & PTE_RW == PTE_RW) == (m & MF_W == MF_W),
        (x86_bits_of_mapping(m) & PTE_US == PTE_US) == (m & MF_U == MF_U),
        (x86_bits_of_mapping(m) & PTE_A == PTE_A) == (m & MF_A == MF_A),
        (x86_bits_of_mapping(m) & PTE_D == PTE_D) == (m & MF_D == MF_D),
        x86_bits_of_mapping(m) & PTE_XD == 0,
{
    let r = x86_bits_of_mapping(m);
    let bw = m & 8 == 8;
    let bu = m & 2 == 2;
    let ba = m & 0x20 == 0x20;
    let bd = m & 0x40 == 0x40;
    assert(r == 1u64 | (if bw { 2u64 } else { 0 }) | (if bu { 4u64 } else { 0 }) | (if ba { 0x20u64 } else { 0 })
        | (if bd { 0x40u64 } else { 0 }));
    assert({
        &&& r & 1 == 1
        &&& (r & 2 == 2) == bw
        &&& (r & 4 == 4) == bu
        &&& (r & 0x20 == 0x20) == ba
        &&& (r & 0x40 == 0x40) == bd
        &&& r & 0x8000_0000_0000_0000 == 0
    }) by (bit_vector)
        requires
            r == 1u64 | (if bw { 2u64 } else { 0 }) | (if bu { 4u64 } else { 0 }) | (if ba { 0x20u64 } else { 0 })
                | (if bd { 0x40u64 } else { 0 }),
    ;
}

/// Each x86-64 bit becomes the mapping flag of the same meaning: writable
/// gives MF_W, user-accessible MF_U, accessed and dirty MF_A and MF_D, and
/// an entry without execute-disable is executable (MF_X).
pub proof fn lemma_x86_flags_name_bits(p: u64)
    ensures
        (mapping_bits_of_x86(p) & MF_W == MF_W) == (p & PTE_RW == PTE_RW),
        (mapping_bits_of_x86(p) & MF_U == MF_U) == (p & PTE_US == PTE_US),
        (mapping_bits_of_x86(p) & MF_A == MF_A) == (p & PTE_A == PTE_A),
        (mapping_bits_of_x86(p) & MF_D == MF_D) == (p & PTE_D == PTE_D),
        (mapping_bits_of_x86(p) & MF_X == MF_X) == (p & PTE_XD != PTE_XD),
        mapping_bits_of_x86(p) & MF_R == 0,
{
    let r = mapping_bits_of_x86(p);
    let bw = p & 2 == 2;
    let bu = p & 4 == 4;
    let ba = p & 0x20 == 0x20;
    let bd = p & 0x40 == 0x40;
    let bx = p & 0x8000_0000_0000_0000 != 0x8000_0000_0000_0000;
    assert(r == 0u64 | (if bw { 8u64 } else { 0 }) | (if bu { 2u64 } else { 0 }) | (if ba { 0x20u64 } else { 0 })
        | (if bd { 0x40u64 } else { 0 }) | (if bx { 0x10u64 } else { 0 }));
    assert({
        &&& (r & 8 == 8) == bw
        &&& (r & 2 == 2) == bu
        &&& (r & 0x20 == 0x20) == ba
        &&& (r & 0x40 == 0x40) == bd
        &&& (r & 0x10 == 0x10) == bx
        &&& r & 4 == 0
    }) by (bit_vector)
        requires
            r == 0u64 | (if bw { 8u64 } else { 0 }) | (if bu { 2u64 } else { 0 }) | (if ba { 0x20u64 } else { 0 })
                | (if bd { 0x40u64 } else { 0 }) | (if bx { 0x10u64 } else { 0 }),
    ;
}

/// An x86-64 page-table entry.
#[derive(Clone, Copy, Debug, PartialEq, Eq, Structural)]
pub struct PTE(pub usize);

impl PTE {
    /// The flag bits of this entry.
    pub open spec fn flag_bits(self) -> u64 {
        (self.0 as u64) & PTE_ALL
    }

    /// Present.
    pub fn is_valid(&self) -> (r: bool)
        ensures
            r == (self.flag_bits() & PTE_P == PTE_P),
    {
        self.flags().contains(PTEFlags::P())
    }

    /// Points to a next-level table (any present entry above the last level).
    pub fn is_table(&self) -> (r: bool)
        ensures
            r == (self.flag_bits() & PTE_P == PTE_P),
    {
        self.flags().contains(PTEFlags::P())
    }

    /// The flags of this entry.
    pub fn flags(&self) -> (r: PTEFlags)
        ensures
            r.bits == self.flag_bits(),
    {
        PTEFlags::from_bits_truncate(self.0 as u64)
    }

    /// An entry for the next-level table in page `ppn`: present, user, writable.
    pub fn new_table(ppn: PhysPage) -> (r: Self)
        ensures
            r.0 == (ppn.0 << 12usize) | 0x7,
    {
        let f = PTEFlags::P().union(PTEFlags::US()).union(PTEFlags::RW());
        assert((1u64 | 4u64) | 2u64 == 7u64) by (bit_vector);
        PTE(ppn.to_addr() | f.bits() as usize)
    }

    /// A leaf entry for page `ppn` with exactly the flags `flags`.
    pub fn new_page(ppn: PhysPage, flags: PTEFlags) -> (r: Self)
        ensures
            r.0 == (ppn.0 << 12usize) | (flags.bits as usize),
    {
        PTE(ppn.to_addr() | flags.bits() as usize)
    }

    /// The physical address that the entry points to (bits 12 to 47).
    pub fn address(&self) -> (r: PhysAddr)
        ensures
            r.0 == ((self.0 as u64) & 0xFFFF_FFFF_F000u64) as usize,
    {
        PhysAddr(((self.0 as u64) & 0xFFFF_FFFF_F000u64) as usize)
    }
}

/// The root (PML4) page table of an address space on x86-64.
pub struct PageTable;

impl PageTable {
    /// Installs the kernel's shared upper mapping in the last PML4 entry: the
    /// physical address of the kernel PDPT (`kernel_mapping_pdpt` is its
    /// kernel-virtual address), present and writable.
    pub fn restore(pml4: &mut Vec<PTE>, kernel_mapping_pdpt: usize)
        requires
            old(pml4).len() == PTE_NUM_IN_PAGE,
            kernel_mapping_pdpt as u64 >= VIRT_ADDR_START,
        ensures
            final(pml4)@ == old(pml4)@.update(
                0x1ff,
                PTE((((kernel_mapping_pdpt as u64) - VIRT_ADDR_START) as usize) | 0x3),
            ),
    {
        let phys = ((kernel_mapping_pdpt as u64) - VIRT_ADDR_START) as usize;
        pml4.set(0x1ff, PTE(phys | 0x3));
    }
}

/// Translating mapping flags to x86-64 entry flags and back keeps W, U, A
/// and D and always grants X (the entry never carries execute-disable).
pub proof fn lemma_mapping_round_trip(m: MappingFlags)
    ensures
        mapping_bits_of_x86(x86_bits_of_mapping(m.bits)) == (m.bits & 0x6a) | MF_X,
{
    let b = m.bits;
    let p = x86_bits_of_mapping(b);
    assert(mapping_bits_of_x86(p) == (b & 0x6a) | 0x10) by (bit_vector)
        requires
            p == 1u64 | (if b & 8 == 8 { 2u64 } else { 0 }) | (if b & 2 == 2 { 4u64 } else { 0 })
                | (if b & 0x20 == 0x20 { 0x20u64 } else { 0 }) | (if b & 0x40 == 0x40 {
                0x40u64
            } else {
                0
            }),
            mapping_bits_of_x86(p) == 0u64 | (if p & 2 == 2 { 8u64 } else { 0 }) | (if p & 4
                == 4 {
                2u64
            } else {
                0
            }) | (if p & 0x20 == 0x20 { 0x20u64 } else { 0 }) | (if p & 0x40 == 0x40 {
                0x40u64
            } else {
                0
            }) | (if p & 0x8000_0000_0000_0000 != 0x8000_0000_0000_0000 { 0x10u64 } else { 0 }),
    ;
}

} // verus!
