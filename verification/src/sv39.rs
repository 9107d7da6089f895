//! Sv39 (RISC-V) page-table entries: flag bits, entry construction and
//! decoding, and the kernel part of a fresh root table.
use vstd::prelude::*;
use crate::addr::{PhysAddr, PhysPage};
use crate::pagetable::{
    bit_if, MappingFlags, MF_A, MF_COW, MF_D, MF_P, MF_R, MF_U, MF_W, MF_X,
};

verus! {

pub const PTE_V: u64 = 0x1;

pub const PTE_R: u64 = 0x2;

pub const PTE_W: u64 = 0x4;

pub const PTE_X: u64 = 0x8;

pub const PTE_U: u64 = 0x10;

pub const PTE_G: u64 = 0x20;

pub const PTE_A: u64 = 0x40;

pub const PTE_D: u64 = 0x80;

pub const PTE_COW: u64 = 0x100;

/// Every flag bit that an Sv39 entry defines.
pub const PTE_ALL: u64 = 0x1ff;

/// Flag bits of an Sv39 page-table entry.
#[derive(Clone, Copy, Debug, PartialEq, Eq, Structural)]
pub struct PTEFlags {
    pub bits: u64,
}

#[allow(non_snake_case)]
impl PTEFlags {
    /// Whether every bit of `mask` is set.
    pub open spec fn has(self, mask: u64) -> bool {
        self.bits & mask == mask
    }

    pub fn empty() -> (r: Self)
        ensures
            r.bits == 0,
    {
        PTEFlags { bits: 0 }
    }

    /// The flags of `bits` that Sv39 defines; the other bits are dropped.
    pub fn from_bits_truncate(bits: u64) -> (r: Self)
        ensures
            r.bits == bits & PTE_ALL,
    {
        PTEFlags { bits: bits & PTE_ALL }
    }

    pub fn V() -> (r: Self)
        ensures
            r.bits == PTE_V,
    {
        PTEFlags { bits: PTE_V }
    }

    pub fn R() -> (r: Self)
        ensures
            r.bits == PTE_R,
    {
        PTEFlags { bits: PTE_R }
    }

    pub fn W() -> (r: Self)
        ensures
            r.bits == PTE_W,
    {
        PTEFlags { bits: PTE_W }
    }

    pub fn X() -> (r: Self)
        ensures
            r.bits == PTE_X,
    {
        PTEFlags { bits: PTE_X }
    }

    pub fn U() -> (r: Self)
        ensures
            r.bits == PTE_U,
    {
        PTEFlags { bits: PTE_U }
    }

    pub fn G() -> (r: Self)
        ensures
            r.bits == PTE_G,
    {
        PTEFlags { bits: PTE_G }
    }

    pub fn A() -> (r: Self)
        ensures
            r.bits == PTE_A,
    {
        PTEFlags { bits: PTE_A }
    }

    pub fn D() -> (r: Self)
        ensures
            r.bits == PTE_D,
    {
        PTEFlags { bits: PTE_D }
    }

    pub fn cow() -> (r: Self)
        ensures
            r.bits == PTE_COW,
    {
        PTEFlags { bits: PTE_COW }
    }

    /// Valid, readable, writable and executable.
    pub fn VRWX() -> (r: Self)
        ensures
            r.bits == PTE_V | PTE_R | PTE_W | PTE_X,
    {
        PTEFlags { bits: PTE_V | PTE_R | PTE_W | PTE_X }
    }

    /// Accessed, dirty, user, valid, readable and executable.
    pub fn ADUVRX() -> (r: Self)
        ensures
            r.bits == PTE_A | PTE_D | PTE_U | PTE_V | PTE_R | PTE_X,
    {
        PTEFlags { bits: PTE_A | PTE_D | PTE_U | PTE_V | PTE_R | PTE_X }
    }

    /// Accessed, dirty, valid, readable, writable and executable.
    pub fn ADVRWX() -> (r: Self)
        ensures
            r.bits == PTE_A | PTE_D | (PTE_V | PTE_R | PTE_W | PTE_X),
    {
        PTEFlags { bits: PTE_A | PTE_D | (PTE_V | PTE_R | PTE_W | PTE_X) }
    }

    /// `ADVRWX` and global.
    pub fn ADGVRWX() -> (r: Self)
        ensures
            r.bits == PTE_G | (PTE_A | PTE_D | (PTE_V | PTE_R | PTE_W | PTE_X)),
    {
        PTEFlags { bits: PTE_G | (PTE_A | PTE_D | (PTE_V | PTE_R | PTE_W | PTE_X)) }
    }

    pub fn bits(&self) -> (r: u64)
        ensures
            r == self.bits,
    {
        self.bits
    }

    pub fn is_empty(&self) -> (r: bool)
        ensures
            r == (self.bits == 0),
    {
        self.bits == 0
    }

    /// Whether all flags of `other` are set in `self`.
    pub fn contains(&self, other: Self) -> (r: bool)
        ensures
            r == self.has(other.bits),
    {
        self.bits & other.bits == other.bits
    }

    /// The flags set in either.
    pub fn union(self, other: Self) -> (r: Self)
        ensures
            r.bits == self.bits | other.bits,
    {
        PTEFlags { bits: self.bits | other.bits }
    }

    /// Sets the flags of `other`.
    pub fn insert(&mut self, other: Self)
        ensures
            final(self).bits == old(self).bits | other.bits,
    {
        self.bits = self.bits | other.bits;
    }

    /// The entry flags that stand for the mapping flags `flags`: none for no
    /// flags, otherwise valid plus each of R, W, X, U, A, D and COW that is set.
    pub fn from_mapping_flags(flags: MappingFlags) -> (r: Self)
        ensures
            r.bits == pte_bits_of_mapping(flags.bits),
            flags.bits == 0 ==> r.bits == 0,
            flags.bits != 0 ==> r.bits & PTE_V == PTE_V,
            flags.bits != 0 ==> ((r.bits & PTE_R == PTE_R) == (flags.bits & MF_R == MF_R)),
            flags.bits != 0 ==> ((r.bits & PTE_W == PTE_W) == (flags.bits & MF_W == MF_W)),
            flags.bits != 0 ==> ((r.bits & PTE_X == PTE_X) == (flags.bits & MF_X == MF_X)),
            flags.bits != 0 ==> ((r.bits & PTE_U == PTE_U) == (flags.bits & MF_U == MF_U)),
    {
        proof {
            if flags.bits != 0 {
                lemma_entry_bits_name_flags(flags.bits);
            }
        }
        let m = flags.bits;
        if m == 0 {
            PTEFlags::empty()
        } else {
            let bits = PTE_V | (if m & MF_R == MF_R { PTE_R } else { 0 }) | (if m & MF_W == MF_W {
                PTE_W
            } else {
                0
            }) | (if m & MF_X == MF_X { PTE_X } else { 0 }) | (if m & MF_U == MF_U {
                PTE_U
            } else {
                0
            }) | (if m & MF_A == MF_A { PTE_A } else { 0 }) | (if m & MF_D == MF_D {
                PTE_D
            } else {
                0
            }) | (if m & MF_COW == MF_COW { PTE_COW } else { 0 });
            PTEFlags { bits }
        }
    }

    /// The mapping flags that these entry flags stand for: present for valid,
    /// and each of R, W, X, U, A, D and COW that is set.
    pub fn to_mapping_flags(self) -> (r: MappingFlags)
        ensures
            r.bits == mapping_bits_of_pte(self.bits),
            (r.bits & MF_P == MF_P) == (self.bits & PTE_V == PTE_V),
            (r.bits & MF_R == MF_R) == (self.bits & PTE_R == PTE_R),
            (r.bits & MF_W == MF_W) == (self.bits & PTE_W == PTE_W),
            (r.bits & MF_X == MF_X) == (self.bits & PTE_X == PTE_X),
            (r.bits & MF_U == MF_U) == (self.bits & PTE_U == PTE_U),
    {
        proof {
            lemma_mapping_flags_name_bits(self.bits);
        }
        let p = self.bits;
        let bits = 0u64 | (if p & PTE_V == PTE_V { MF_P } else { 0 }) | (if p & PTE_R == PTE_R {
            MF_R
        } else {
            0
        }) | (if p & PTE_W == PTE_W { MF_W } else { 0 }) | (if p & PTE_X == PTE_X {
            MF_X
        } else {
            0
        }) | (if p & PTE_U == PTE_U { MF_U } else { 0 }) | (if p & PTE_A == PTE_A {
            MF_A
        } else {
            0
        }) | (if p & PTE_D == PTE_D { MF_D } else { 0 }) | (if p & PTE_COW == PTE_COW {
            MF_COW
        } else {
            0
        });
        MappingFlags::from_bits_retain(bits)
    }
}

/// Entry bits for the mapping flags `m`.
pub open spec fn pte_bits_of_mapping(m: u64) -> u64 {
    if m == 0 {
        0
    } else {
        PTE_V | bit_if(m & MF_R == MF_R, PTE_R) | bit_if(m & MF_W == MF_W, PTE_W) | bit_if(
            m & MF_X == MF_X,
            PTE_X,
        ) | bit_if(m & MF_U == MF_U, PTE_U) | bit_if(m & MF_A == MF_A, PTE_A) | bit_if(
            m & MF_D == MF_D,
            PTE_D,
        ) | bit_if(m & MF_COW == MF_COW, PTE_COW)
    }
}

/// Mapping flags for the entry bits `p`.
pub open spec fn mapping_bits_of_pte(p: u64) -> u64 {
    0 | bit_if(p & PTE_V == PTE_V, MF_P) | bit_if(p & PTE_R == PTE_R, MF_R) | bit_if(
        p & PTE_W == PTE_W,
        MF_W,
    ) | bit_if(p & PTE_X == PTE_X, MF_X) | bit_if(p & PTE_U == PTE_U, MF_U) | bit_if(
        p & PTE_A == PTE_A,
        MF_A,
    ) | bit_if(p & PTE_D == PTE_D, MF_D) | bit_if(p & PTE_COW == PTE_COW, MF_COW)
}

/// Each mapping flag becomes the entry bit of the same name: a non-empty
/// set is valid, and it has R, W, X, U, A, D or COW exactly when the
/// mapping flags have that flag; no other bit is set.
pub proof fn lemma_entry_bits_name_flags(m: u64)
    requires
        m != 0,
    ensures
        pte_bits_of_mapping(m) & PTE_V == PTE_V,
        (pte_bits_of_mapping(m) & PTE_R == PTE_R) == (m & MF_R == MF_R),
        (pte_bits_of_mapping(m) & PTE_W == PTE_W) == (m & MF_W == MF_W),
        (pte_bits_of_mapping(m) & PTE_X == PTE_X) == (m & MF_X == MF_X),
        (pte_bits_of_mapping(m) & PTE_U == PTE_U) == (m & MF_U == MF_U),
        (pte_bits_of_mapping(m) & PTE_A == PTE_A) == (m & MF_A == MF_A),
        (pte_bits_of_mapping(m) & PTE_D == PTE_D) == (m & MF_D == MF_D),
        (pte_bits_of_mapping(m) & PTE_COW == PTE_COW) == (m & MF_COW == MF_COW),
        pte_bits_of_mapping(m) & PTE_G == 0,
{
    let r = pte_bits_of_mapping(m);
    let br = m & 4 == 4;
    let bw = m & 8 == 8;
    let bx = m & 0x10 == 0x10;
    let bu = m & 2 == 2;
    let ba = m & 0x20 == 0x20;
    let bd = m & 0x40 == 0x40;
    let bc = m & 0x80 == 0x80;
    assert(r == 1u64 | (if br { 2u64 } else { 0 }) | (if bw { 4u64 } else { 0 }) | (if bx { 8u64 } else { 0 })
        | (if bu { 0x10u64 } else { 0 }) | (if ba { 0x40u64 } else { 0 }) | (if bd { 0x80u64 } else { 0 })
        | (if bc { 0x100u64 } else { 0 }));
    assert({
        &&& r & 1 == 1
        &&& (r & 2 == 2) == br
        &&& (r & 4 == 4) == bw
        &&& (r & 8 == 8) == bx
        &&& (r & 0x10 == 0x10) == bu
        &&& (r & 0x40 == 0x40) == ba
        &&& (r & 0x80 == 0x80) == bd
        &&& (r & 0x100 == 0x100) == bc
        &&& r & 0x20 == 0
    }) by (bit_vector)
        requires
            r == 1u64 | (if br { 2u64 } else { 0 }) | (if bw { 4u64 } else { 0 }) | (if bx { 8u64 } else { 0 })
                | (if bu { 0x10u64 } else { 0 }) | (if ba { 0x40u64 } else { 0 }) | (if bd { 0x80u64 } else { 0 })
                | (if bc { 0x100u64 } else { 0 }),
    ;
}

/// Each entry bit becomes the mapping flag of the same name: valid gives
/// present, and R, W, X, U, A, D and COW give R, W, X, U, A, D and COW.
pub proof fn lemma_mapping_flags_name_bits(p: u64)
    ensures
        (mapping_bits_of_pte(p) & MF_P == MF_P) == (p & PTE_V == PTE_V),
        (mapping_bits_of_pte(p) & MF_R == MF_R) == (p & PTE_R == PTE_R),
        (mapping_bits_of_pte(p) & MF_W == MF_W) == (p & PTE_W == PTE_W),
        (mapping_bits_of_pte(p) & MF_X == MF_X) == (p & PTE_X == PTE_X),
        (mapping_bits_of_pte(p) & MF_U == MF_U) == (p & PTE_U == PTE_U),
        (mapping_bits_of_pte(p) & MF_A == MF_A) == (p & PTE_A == PTE_A),
        (mapping_bits_of_pte(p) & MF_D == MF_D) == (p & PTE_D == PTE_D),
        (mapping_bits_of_pte(p) & MF_COW == MF_COW) == (p & PTE_COW == PTE_COW),
{
    let r = mapping_bits_of_pte(p);
    let bv = p & 1 == 1;
    let br = p & 2 == 2;
    let bw = p & 4 == 4;
    let bx = p & 8 == 8;
    let bu = p & 0x10 == 0x10;
    let ba = p & 0x40 == 0x40;
    let bd = p & 0x80 == 0x80;
    let bc = p & 0x100 == 0x100;
    assert(r == 0u64 | (if bv { 1u64 } else { 0 }) | (if br { 4u64 } else { 0 }) | (if bw { 8u64 } else { 0 })
        | (if bx { 0x10u64 } else { 0 }) | (if bu { 2u64 } else { 0 }) | (if ba { 0x20u64 } else { 0 })
        | (if bd { 0x40u64 } else { 0 }) | (if bc { 0x80u64 } else { 0 }));
    assert({
        &&& (r & 1 == 1) == bv
        &&& (r & 4 == 4) == br
        &&& (r & 8 == 8) == bw
        &&& (r & 0x10 == 0x10) == bx
        &&& (r & 2 == 2) == bu
        &&& (r & 0x20 == 0x20) == ba
        &&& (r & 0x40 == 0x40) == bd
        &&& (r & 0x80 == 0x80) == bc
    }) by (bit_vector)
        requires
            r == 0u64 | (if bv { 1u64 } else { 0 }) | (if br { 4u64 } else { 0 }) | (if bw { 8u64 } else { 0 })
                | (if bx { 0x10u64 } else { 0 }) | (if bu { 2u64 } else { 0 }) | (if ba { 0x20u64 } else { 0 })
                | (if bd { 0x40u64 } else { 0 }) | (if bc { 0x80u64 } else { 0 }),
    ;
}

/// The flags after `from_ppn` has marked readable or executable entries as
/// accessed and writable entries as dirty.
pub open spec fn with_access_bits(f: u64) -> u64 {
    let f1 = if f & PTE_R == PTE_R || f & PTE_X == PTE_X {
        f | PTE_A
    } else {
        f
    };
    if f1 & PTE_W == PTE_W {
        f1 | PTE_D
    } else {
        f1
    }
}

/// The entry that `PTE::from_ppn(ppn, flags)` builds.
pub open spec fn pte_from_ppn(ppn: usize, flags: u64) -> PTE {
    PTE((ppn << 10usize) | (with_access_bits(flags) as usize))
}

/// An Sv39 page-table entry: physical page number from bit 10 up, flags below.
#[derive(Clone, Copy, Debug, PartialEq, Eq, Structural)]
pub struct PTE(pub usize);

impl PTE {
    /// The flag bits of this entry.
    pub open spec fn flag_bits(self) -> u64 {
        (self.0 & 0x1ff) as u64
    }

    /// An entry for page `ppn`; readable or executable entries are marked
    /// accessed, writable ones dirty, so that the hardware need not set them.
    pub fn from_ppn(ppn: usize, flags: PTEFlags) -> (r: Self)
        ensures
            r == pte_from_ppn(ppn, flags.bits),
    {
        let mut flags = flags;
        if flags.contains(PTEFlags::R()) || flags.contains(PTEFlags::X()) {
            flags = flags.union(PTEFlags::A())
        }
        if flags.contains(PTEFlags::W()) {
            flags = flags.union(PTEFlags::D())
        }
        PTE(ppn << 10usize | flags.bits() as usize)
    }

    /// An entry for the page that holds address `addr`.
    pub fn from_addr(addr: usize, flags: PTEFlags) -> (r: Self)
        ensures
            r == pte_from_ppn(addr >> 12usize, flags.bits),
    {
        Self::from_ppn(addr >> 12usize, flags)
    }

    /// The flags of this entry.
    pub fn flags(&self) -> (r: PTEFlags)
        ensures
            r.bits == self.flag_bits(),
    {
        let x = self.0;
        assert(((x & 0x1ff) as u64) & 0x1ff == (x & 0x1ff) as u64) by (bit_vector);
        PTEFlags::from_bits_truncate((self.0 & 0x1ff) as u64)
    }

    /// Valid and pointing above the first 256 bytes.
    pub fn is_valid(&self) -> (r: bool)
        ensures
            r == (self.flag_bits() & PTE_V == PTE_V && self.0 > 255),
    {
        let f = self.flags();
        f.contains(PTEFlags::V()) && self.0 > u8::MAX as usize
    }

    /// A leaf entry that maps a (possibly huge) page: valid, and at least one
    /// of R, W and X set.
    pub fn is_huge(&self) -> (r: bool)
        ensures
            r == (self.flag_bits() & PTE_V == PTE_V && (self.flag_bits() & PTE_R == PTE_R
                || self.flag_bits() & PTE_W == PTE_W || self.flag_bits() & PTE_X == PTE_X)),
    {
        return self.flags().contains(PTEFlags::V()) && (self.flags().contains(PTEFlags::R())
            || self.flags().contains(PTEFlags::W()) || self.flags().contains(PTEFlags::X()));
    }

    /// An entry that points to a next-level table: valid, none of R, W and X.
    pub fn is_table(&self) -> (r: bool)
        ensures
            r == (self.flag_bits() & PTE_V == PTE_V && !(self.flag_bits() & PTE_R == PTE_R
                || self.flag_bits() & PTE_W == PTE_W || self.flag_bits() & PTE_X == PTE_X)),
    {
        return self.flags().contains(PTEFlags::V()) && !(self.flags().contains(PTEFlags::R())
            || self.flags().contains(PTEFlags::W()) || self.flags().contains(PTEFlags::X()));
    }

    /// An entry that points to the next-level table in page `ppn`.
    pub fn new_table(ppn: PhysPage) -> (r: Self)
        ensures
            r.0 == (ppn.0 << 10usize) | 1,
    {
        PTE((ppn.0 << 10usize) | (PTEFlags::V()).bits() as usize)
    }

    /// A leaf entry for page `ppn` with exactly the flags `flags`.
    pub fn new_page(ppn: PhysPage, flags: PTEFlags) -> (r: Self)
        ensures
            r.0 == (ppn.0 << 10usize) | (flags.bits as usize),
    {
        PTE((ppn.0 << 10usize) | flags.bits() as usize)
    }

    /// The physical address that the entry points to (bits 12 to 47).
    pub fn address(&self) -> (r: PhysAddr)
        ensures
            r.0 == (((self.0 as u64) << 2u64) & 0xFFFF_FFFF_F000u64) as usize,
    {
        PhysAddr((((self.0 as u64) << 2u64) & 0xFFFF_FFFF_F000u64) as usize)
    }
}

/// Entry count of one Sv39 table page.
pub const PTE_NUM_IN_PAGE: usize = 0x200;

/// The kernel entries of a root table after `PageTable::restore`: the lower
/// half cleared; 1 GiB identity-like kernel mappings at 0x100, 0x101, 0x102 and
/// 0x106; the trampoline table `trx_mapping` at 0x104; the rest unchanged.
pub open spec fn restored_root(old: Seq<PTE>, trx_mapping: usize) -> Seq<PTE> {
    let kernel = PTE_G | (PTE_A | PTE_D | (PTE_V | PTE_R | PTE_W | PTE_X));
    Seq::new(
        old.len(),
        |i: int|
            if i < 0x100 {
                PTE(0)
            } else if i == 0x100 {
                pte_from_ppn(0usize >> 12usize, kernel)
            } else if i == 0x101 {
                pte_from_ppn(0x4000_0000usize >> 12usize, kernel)
            } else if i == 0x102 || i == 0x106 {
                pte_from_ppn(0x8000_0000usize >> 12usize, kernel)
            } else if i == 0x104 {
                pte_from_ppn(trx_mapping >> 12usize, PTE_V)
            } else {
                old[i]
            },
    )
}

/// The root page table of an address space on Sv39.
pub struct PageTable;

impl PageTable {
    /// Resets the entries `arr` of a root table to the kernel's shared
    /// mappings: user half cleared, kernel gigapages and trampoline installed.
    pub fn restore(arr: &mut Vec<PTE>, trx_mapping: usize)
        requires
            old(arr).len() == PTE_NUM_IN_PAGE,
        ensures
            final(arr)@ == restored_root(old(arr)@, trx_mapping),
    {
        arr.set(0x100, PTE::from_addr(0x0000_0000, PTEFlags::ADGVRWX()));
        arr.set(0x101, PTE::from_addr(0x4000_0000, PTEFlags::ADGVRWX()));
        arr.set(0x102, PTE::from_addr(0x8000_0000, PTEFlags::ADGVRWX()));
        arr.set(0x104, PTE::from_addr(trx_mapping, PTEFlags::V()));
        arr.set(0x106, PTE::from_addr(0x8000_0000, PTEFlags::ADGVRWX()));
        let ghost target = restored_root(old(arr)@, trx_mapping);
        assert(forall|j: int| 0x100 <= j < PTE_NUM_IN_PAGE ==> arr@[j] == target[j]);
        let mut i: usize = 0;
        while i < 0x100
            invariant
                0 <= i <= 0x100,
                arr.len() == PTE_NUM_IN_PAGE,
                target.len() == PTE_NUM_IN_PAGE,
                forall|j: int| 0 <= j < i ==> arr@[j] == PTE(0),
                forall|j: int| 0 <= j < 0x100 ==> target[j] == PTE(0),
                forall|j: int| 0x100 <= j < PTE_NUM_IN_PAGE ==> arr@[j] == target[j],
            decreases 0x100 - i,
        {
            arr.set(i, PTE(0));
            i = i + 1;
        }
        assert(arr@ =~= target);
    }
}

/// An entry built from an address gives that address back, rounded down to
/// its page, for flags that Sv39 defines.
pub proof fn lemma_from_addr_address(addr: usize, flags: PTEFlags)
    requires
        flags.bits <= PTE_ALL,
    ensures
        (((pte_from_ppn(addr >> 12usize, flags.bits).0 as u64) << 2u64) & 0xFFFF_FFFF_F000u64)
            == (addr as u64) & 0xFFFF_FFFF_F000u64,
{
    let f = flags.bits;
    let w = with_access_bits(f);
    assert(w <= 0x3ff) by (bit_vector)
        requires
            f <= 0x1ff,
            w == (if (if f & 2 == 2 || f & 8 == 8 { f | 0x40 } else { f }) & 4 == 4 {
                (if f & 2 == 2 || f & 8 == 8 { f | 0x40 } else { f }) | 0x80
            } else {
                (if f & 2 == 2 || f & 8 == 8 { f | 0x40 } else { f })
            }),
    ;
    assert(((((addr >> 12usize) << 10usize) | (w as usize)) as u64) << 2u64 & 0xFFFF_FFFF_F000u64
        == (addr as u64) & 0xFFFF_FFFF_F000u64) by (bit_vector)
        requires
            w <= 0x3ff,
    ;
}

/// The flags read back from a built entry are the given flags with the access
/// bits that `from_ppn` adds.
pub proof fn lemma_from_ppn_flags(ppn: usize, flags: PTEFlags)
    requires
        flags.bits <= PTE_ALL,
    ensures
        pte_from_ppn(ppn, flags.bits).flag_bits() == with_access_bits(flags.bits),
{
    let f = flags.bits;
    let w = with_access_bits(f);
    assert(w <= 0x1ff) by (bit_vector)
        requires
            f <= 0x1ff,
            w == (if (if f & 2 == 2 || f & 8 == 8 { f | 0x40 } else { f }) & 4 == 4 {
                (if f & 2 == 2 || f & 8 == 8 { f | 0x40 } else { f }) | 0x80
            } else {
                (if f & 2 == 2 || f & 8 == 8 { f | 0x40 } else { f })
            }),
    ;
    assert((((ppn << 10usize) | (w as usize)) & 0x1ff) as u64 == w) by (bit_vector)
        requires
            w <= 0x1ff,
    ;
}

/// Translating mapping flags to entry flags and back keeps every flag that
/// both formats know and adds "present" (for non-empty flags).
pub proof fn lemma_mapping_round_trip(m: MappingFlags)
    requires
        m.bits != 0,
        m.bits & !0xfe == 0,
    ensures
        mapping_bits_of_pte(pte_bits_of_mapping(m.bits)) == m.bits | MF_P,
{
    let b = m.bits;
    let p = pte_bits_of_mapping(b);
    assert(mapping_bits_of_pte(p) == b | 1) by (bit_vector)
        requires
            b != 0,
            b & !0xfe == 0,
            p == 1u64 | (if b & 4 == 4 { 2u64 } else { 0 }) | (if b & 8 == 8 { 4u64 } else { 0 })
                | (if b & 0x10 == 0x10 { 8u64 } else { 0 }) | (if b & 2 == 2 { 0x10u64 } else { 0 })
                | (if b & 0x20 == 0x20 { 0x40u64 } else { 0 }) | (if b & 0x40 == 0x40 {
                0x80u64
            } else {
                0
            }) | (if b & 0x80 == 0x80 { 0x100u64 } else { 0 }),
            mapping_bits_of_pte(p) == 0u64 | (if p & 1 == 1 { 1u64 } else { 0 }) | (if p & 2 == 2 {
                4u64
            } else {
                0
            }) | (if p & 4 == 4 { 8u64 } else { 0 }) | (if p & 8 == 8 { 0x10u64 } else { 0 }) | (
            if p & 0x10 == 0x10 {
                2u64
            } else {
                0
            }) | (if p & 0x40 == 0x40 { 0x20u64 } else { 0 }) | (if p & 0x80 == 0x80 {
                0x40u64
            } else {
                0
            }) | (if p & 0x100 == 0x100 { 0x80u64 } else { 0 }),
    ;
}

} // verus!
