//! Architecture-neutral mapping flags that the page-table code of each
//! architecture translates to and from its own entry bits.
use vstd::prelude::*;

verus! {

/// Access and bookkeeping flags of a mapping, independent of the hardware format.
#[derive(Clone, Copy, Debug, PartialEq, Eq, Structural)]
pub struct MappingFlags {
    pub bits: u64,
}

pub const MF_P: u64 = 0x1;

pub const MF_U: u64 = 0x2;

pub const MF_R: u64 = 0x4;

pub const MF_W: u64 = 0x8;

pub const MF_X: u64 = 0x10;

pub const MF_A: u64 = 0x20;

pub const MF_D: u64 = 0x40;

pub const MF_COW: u64 = 0x80;

/// All flags that have a meaning.
pub const MF_ALL: u64 = 0xff;

/// `v` if `b` holds, else no bits.
pub open spec fn bit_if(b: bool, v: u64) -> u64 {
    if b {
        v
    } else {
        0
    }
}

#[allow(non_snake_case)]
impl MappingFlags {
    /// Whether every bit of `mask` is set.
    pub open spec fn has(self, mask: u64) -> bool {
        self.bits & mask == mask
    }

    pub fn empty() -> (r: Self)
        ensures
            r.bits == 0,
    {
        MappingFlags { bits: 0 }
    }

    /// The flags whose bits are exactly `bits`.
    pub fn from_bits_retain(bits: u64) -> (r: Self)
        ensures
            r.bits == bits,
    {
        MappingFlags { bits }
    }

    /// Present.
    pub fn P() -> (r: Self)
        ensures
            r.bits == MF_P,
    {
        MappingFlags { bits: MF_P }
    }

    /// Accessible from user mode.
    pub fn U() -> (r: Self)
        ensures
            r.bits == MF_U,
    {
        MappingFlags { bits: MF_U }
    }

    /// Readable.
    pub fn R() -> (r: Self)
        ensures
            r.bits == MF_R,
    {
        MappingFlags { bits: MF_R }
    }

    /// Writable.
    pub fn W() -> (r: Self)
        ensures
            r.bits == MF_W,
    {
        MappingFlags { bits: MF_W }
    }

    /// Executable.
    pub fn X() -> (r: Self)
        ensures
            r.bits == MF_X,
    {
        MappingFlags { bits: MF_X }
    }

    /// Accessed.
    pub fn A() -> (r: Self)
        ensures
            r.bits == MF_A,
    {
        MappingFlags { bits: MF_A }
    }

    /// Dirty.
    pub fn D() -> (r: Self)
        ensures
            r.bits == MF_D,
    {
        MappingFlags { bits: MF_D }
    }

    /// Copy-on-write page.
    pub fn cow() -> (r: Self)
        ensures
            r.bits == MF_COW,
    {
        MappingFlags { bits: MF_COW }
    }

    pub fn bits(&self) -> (r: u64)
        ensures
            r == self.bits,
    {
        self.bits
    }

    pub fn is_empty(&self) -> (r: bool)
        ensures
            r == (self.bits == 0),
    {
        self.bits == 0
    }

    /// Whether all flags of `other` are set in `self`.
    pub fn contains(&self, other: Self) -> (r: bool)
        ensures
            r == self.has(other.bits),
    {
        self.bits & other.bits == other.bits
    }

    /// The flags set in either.
    pub fn union(self, other: Self) -> (r: Self)
        ensures
            r.bits == self.bits | other.bits,
    {
        MappingFlags { bits: self.bits | other.bits }
    }

    /// Sets the flags of `other`.
    pub fn insert(&mut self, other: Self)
        ensures
            final(self).bits == old(self).bits | other.bits,
    {
        self.bits = self.bits | other.bits;
    }

    /// Clears the flags of `other`.
    pub fn remove(&mut self, other: Self)
        ensures
            final(self).bits == old(self).bits & !other.bits,
    {
        self.bits = self.bits & !other.bits;
    }
}


impl MappingFlags {
    /// The flags of a page shared copy-on-write by a fork: a writable or
    /// already shared page is marked shared and loses its write right; any
    /// other page keeps its flags.
    pub fn shared_on_fork(self) -> (r: Self)
        ensures
            (self.has(MF_W) || self.has(MF_COW)) ==> r.bits == (self.bits | MF_COW) & !MF_W,
            !(self.has(MF_W) || self.has(MF_COW)) ==> r == self,
    {
        let mut f = self;
        if f.contains(MappingFlags::W()) || f.contains(MappingFlags::cow()) {
            f.insert(MappingFlags::cow());
            f.remove(MappingFlags::W());
        }
        f
    }

    /// The flags of a page after its copy-on-write fault: writable again,
    /// no longer shared.
    pub fn after_cow_fault(self) -> (r: Self)
        ensures
            r.bits == (self.bits | MF_W) & !MF_COW,
    {
        let mut f = self;
        f.insert(MappingFlags::W());
        f.remove(MappingFlags::cow());
        f
    }
}

/// A fork shares the page and a later copy-on-write fault restores the
/// write right: a writable page is writable and unshared again, with all
/// other flags as they were.
pub proof fn lemma_cow_round_trip(bits: u64)
    requires
        bits & MF_W == MF_W,
        bits & MF_COW == 0,
    ensures
        (((bits | MF_COW) & !MF_W) | MF_W) & !MF_COW == bits,
{
    assert((((bits | 0x80u64) & !0x8u64) | 0x8u64) & !0x80u64 == bits) by (bit_vector)
        requires
            bits & 0x8u64 == 0x8u64,
            bits & 0x80u64 == 0,
    ;
}

} // verus!
