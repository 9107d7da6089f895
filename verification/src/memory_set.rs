//! Bookkeeping of user memory areas: permissions, map types, and the free
//! blocks that `mmap` reuses.
use vstd::prelude::*;
use crate::config::USER_MMAP_TOP;
use crate::pagetable::{MappingFlags, MF_R, MF_U, MF_W, MF_X};

verus! {

/// How the pages of an area are backed.
#[derive(Clone, Copy, Debug, PartialEq, Eq, Structural)]
pub enum MapType {
    Identical,
    Framed,
}

/// What an area holds.
#[derive(Clone, Copy, Debug, PartialEq, Eq, Structural)]
pub enum MapAreaType {
    Elf,
    Heap,
    Mmap,
    Stack,
}

pub const MAP_PERM_R: u8 = 1 << 1;

pub const MAP_PERM_W: u8 = 1 << 2;

pub const MAP_PERM_X: u8 = 1 << 3;

pub const MAP_PERM_U: u8 = 1 << 4;

/// Access rights of an area, in the bit positions of the Sv39 entry flags.
#[derive(Clone, Copy, Debug, PartialEq, Eq, Structural)]
pub struct MapPermission {
    pub bits: u8,
}

#[allow(non_snake_case)]
impl MapPermission {
    pub fn empty() -> (r: Self)
        ensures
            r.bits == 0,
    {
        MapPermission { bits: 0 }
    }

    pub fn R() -> (r: Self)
        ensures
            r.bits == MAP_PERM_R,
    {
        MapPermission { bits: MAP_PERM_R }
    }

    pub fn W() -> (r: Self)
        ensures
            r.bits == MAP_PERM_W,
    {
        MapPermission { bits: MAP_PERM_W }
    }

    pub fn X() -> (r: Self)
        ensures
            r.bits == MAP_PERM_X,
    {
        MapPermission { bits: MAP_PERM_X }
    }

    pub fn U() -> (r: Self)
        ensures
            r.bits == MAP_PERM_U,
    {
        MapPermission { bits: MAP_PERM_U }
    }

    pub fn bits(&self) -> (r: u8)
        ensures
            r == self.bits,
    {
        self.bits
    }

    /// Whether all rights of `other` are granted.
    pub fn contains(&self, other: Self) -> (r: bool)
        ensures
            r == (self.bits & other.bits == other.bits),
    {
        self.bits & other.bits == other.bits
    }

    /// The rights of either.
    pub fn union(self, other: Self) -> (r: Self)
        ensures
            r.bits == self.bits | other.bits,
    {
        MapPermission { bits: self.bits | other.bits }
    }

    /// The mapping flags for these rights: R, W, X and U as granted.
    pub fn to_mapping_flags(self) -> (r: MappingFlags)
        ensures
            r.bits == (if self.bits & MAP_PERM_R == MAP_PERM_R { MF_R } else { 0 }) | (if self.bits
                & MAP_PERM_W == MAP_PERM_W {
                MF_W
            } else {
                0
            }) | (if self.bits & MAP_PERM_X == MAP_PERM_X { MF_X } else { 0 }) | (if self.bits
                & MAP_PERM_U == MAP_PERM_U {
                MF_U
            } else {
                0
            }),
    {
        let p = self.bits;
        let bits = (if p & MAP_PERM_R == MAP_PERM_R { MF_R } else { 0 }) | (if p & MAP_PERM_W
            == MAP_PERM_W {
            MF_W
        } else {
            0
        }) | (if p & MAP_PERM_X == MAP_PERM_X { MF_X } else { 0 }) | (if p & MAP_PERM_U
            == MAP_PERM_U {
            MF_U
        } else {
            0
        });
        MappingFlags::from_bits_retain(bits)
    }
}

/// The permission for `mmap`'s `prot` argument: bits 1 to 4 of `prot` are
/// read, write, execute and user, in the positions of the permission bits.
pub fn from_prot(prot: i32) -> (perm: MapPermission)
    ensures
        perm.bits == (if prot & 2 != 0 { MAP_PERM_R } else { 0 }) | (if prot & 4 != 0 {
            MAP_PERM_W
        } else {
            0
        }) | (if prot & 8 != 0 { MAP_PERM_X } else { 0 }) | (if prot & 16 != 0 {
            MAP_PERM_U
        } else {
            0
        }),
{
    let bits = (if prot & 2 != 0 { MAP_PERM_R } else { 0 }) | (if prot & 4 != 0 {
        MAP_PERM_W
    } else {
        0
    }) | (if prot & 8 != 0 { MAP_PERM_X } else { 0 }) | (if prot & 16 != 0 {
        MAP_PERM_U
    } else {
        0
    });
    MapPermission { bits }
}

/// `x` rounded up with the mask `align - 1`: the result has the mask's bits
/// clear and lies in `x .. x + align`; for a power of two `align` it is the
/// smallest multiple of `align` at or above `x`.
pub fn align_up(x: u64, align: usize) -> (r: u64)
    requires
        align >= 1,
        x + align <= u64::MAX,
    ensures
        r == (x + align - 1) as u64 & !((align - 1) as u64),
        r & ((align - 1) as u64) == 0,
        x <= r < x + align,
{
    let align_64 = align as u64;
    let y = x + align_64 - 1;
    let m = align_64 - 1;
    let r = y & !m;
    assert(r & m == 0) by (bit_vector)
        requires
            r == y & !m,
    ;
    assert((y & !m) + (y & m) == y) by (bit_vector);
    assert(y & m <= m) by (bit_vector);
    r
}

pub const MAP_SHARED: i32 = 0x01;

pub const MAP_PRIVATE: i32 = 0x02;

pub const MAP_SHARED_VALIDATE: i32 = 0x03;

pub const MAP_TYPE_MASK: i32 = 0x03;

pub const MAP_FIXED: i32 = 0x10;

pub const MAP_ANONYMOUS: i32 = 0x20;

pub const MAP_NORESERVE: i32 = 0x04000;

/// Flags of `mmap`.
#[derive(Clone, Copy, Debug, PartialEq, Eq, Structural)]
pub struct MmapFlags {
    pub bits: i32,
}

impl MmapFlags {
    pub fn empty() -> (r: Self)
        ensures
            r.bits == 0,
    {
        MmapFlags { bits: 0 }
    }

    /// Whether all flags of `other` are set.
    pub fn contains(&self, other: Self) -> (r: bool)
        ensures
            r == (self.bits & other.bits == other.bits),
    {
        self.bits & other.bits == other.bits
    }
}

pub const PROT_READ: u32 = 1;

pub const PROT_WRITE: u32 = 2;

pub const PROT_EXEC: u32 = 4;

/// The permission for `mprotect` and `mmap` protections: always user, plus
/// read, write and execute as `prot` asks (bits 0, 1 and 2).
pub fn perm_from_mmap_prot(prot: u32) -> (perm: MapPermission)
    ensures
        perm.bits == MAP_PERM_U | (if prot & PROT_READ == PROT_READ { MAP_PERM_R } else { 0 }) | (
        if prot & PROT_WRITE == PROT_WRITE {
            MAP_PERM_W
        } else {
            0
        }) | (if prot & PROT_EXEC == PROT_EXEC { MAP_PERM_X } else { 0 }),
{
    let bits = MAP_PERM_U | (if prot & PROT_READ == PROT_READ { MAP_PERM_R } else { 0 }) | (if prot
        & PROT_WRITE == PROT_WRITE {
        MAP_PERM_W
    } else {
        0
    }) | (if prot & PROT_EXEC == PROT_EXEC { MAP_PERM_X } else { 0 });
    MapPermission { bits }
}

/// A free block of the mmap region: its start and its size in pages.
#[derive(Clone, Copy, Debug, PartialEq, Eq, Structural)]
pub struct MapFreeControl {
    pub start_va: usize,
    pub num: usize,
}

/// The first block in `blocks` with at least `num` pages, if any.
pub open spec fn first_fit(blocks: Seq<MapFreeControl>, num: usize) -> Option<int> {
    if exists|i: int| 0 <= i < blocks.len() && blocks[i].num >= num {
        Some(
            choose|i: int|
                0 <= i < blocks.len() && blocks[i].num >= num && forall|j: int|
                    0 <= j < i ==> #[trigger] blocks[j].num < num,
        )
    } else {
        None
    }
}

/// What `find_block` does to the free list: the first block that fits
/// shrinks by `num` pages (its start stays), and goes when it reaches zero,
/// the last block taking its place.
pub open spec fn take_block(blocks: Seq<MapFreeControl>, i: int, num: usize) -> Seq<MapFreeControl> {
    if blocks[i].num == num {
        blocks.update(i, blocks.last()).drop_last()
    } else {
        blocks.update(i, MapFreeControl { start_va: blocks[i].start_va, num: (blocks[i].num - num) as usize })
    }
}

proof fn lemma_first_fit<'a>(blocks: Seq<MapFreeControl>, num: usize, w: int)
    requires
        0 <= w < blocks.len(),
        blocks[w].num >= num,
    ensures
        exists|i: int|
            0 <= i < blocks.len() && blocks[i].num >= num && forall|j: int|
                0 <= j < i ==> #[trigger] blocks[j].num < num,
    decreases w,
{
    if forall|j: int| 0 <= j < w ==> #[trigger] blocks[j].num < num {
        assert(0 <= w < blocks.len() && blocks[w].num >= num);
    } else {
        let j = choose|j: int| 0 <= j < w && !(#[trigger] blocks[j].num < num);
        lemma_first_fit(blocks, num, j);
    }
}

/// Takes `num` pages from the first free block that has them and returns
/// that block's start, or 0 when no block is large enough.
pub fn find_free_block(blocks: &mut Vec<MapFreeControl>, num: usize) -> (r: usize)
    ensures
        match first_fit(old(blocks)@, num) {
            Some(i) => r == old(blocks)@[i].start_va && final(blocks)@ == take_block(
                old(blocks)@,
                i,
                num,
            ),
            None => r == 0 && final(blocks)@ == old(blocks)@,
        },
{
    let ghost pre = blocks@;
    let mut i: usize = 0;
    while i < blocks.len()
        invariant
            blocks@ == pre,
            pre == old(blocks)@,
            0 <= i <= blocks.len(),
            forall|j: int| 0 <= j < i ==> #[trigger] pre[j].num < num,
        decreases blocks.len() - i,
    {
        if blocks[i].num >= num {
            proof {
                lemma_first_fit(pre, num, i as int);
                let k = first_fit(pre, num)->Some_0;
                assert(k == i as int);
            }
            let start_va = blocks[i].start_va;
            let left = blocks[i].num - num;
            if left == 0 {
                let removed = blocks.swap_remove(i);
                return removed.start_va;
            } else {
                blocks.set(i, MapFreeControl { start_va, num: left });
                return start_va;
            }
        }
        i = i + 1;
    }
    0
}

/// The mmap state of an address space: the top of the mmap region and the
/// freed blocks below it.
#[derive(Clone)]
pub struct MapAreaControl {
    pub mmap_top: usize,
    pub mapfreeblock: Vec<MapFreeControl>,
}

impl MapAreaControl {
    pub fn new() -> (r: Self)
        ensures
            r.mmap_top == USER_MMAP_TOP,
            r.mapfreeblock@ == Seq::<MapFreeControl>::empty(),
    {
        MapAreaControl { mmap_top: USER_MMAP_TOP, mapfreeblock: Vec::new() }
    }

    /// A copy of this bookkeeping, for a forked address space.
    pub fn copy(&self) -> (r: Self)
        ensures
            r.mmap_top == self.mmap_top,
            r.mapfreeblock@ == self.mapfreeblock@,
    {
        let mut blocks: Vec<MapFreeControl> = Vec::new();
        let mut i: usize = 0;
        while i < self.mapfreeblock.len()
            invariant
                0 <= i <= self.mapfreeblock@.len(),
                blocks@ == self.mapfreeblock@.take(i as int),
            decreases self.mapfreeblock@.len() - i,
        {
            blocks.push(self.mapfreeblock[i]);
            i = i + 1;
            proof {
                assert(blocks@ =~= self.mapfreeblock@.take(i as int));
            }
        }
        proof {
            assert(self.mapfreeblock@.take(i as int) =~= self.mapfreeblock@);
        }
        MapAreaControl { mmap_top: self.mmap_top, mapfreeblock: blocks }
    }

    /// The start of the first free block with at least `num` pages, which
    /// loses those pages; 0 if there is none.
    pub fn find_block(&mut self, num: usize) -> (r: usize)
        ensures
            final(self).mmap_top == old(self).mmap_top,
            match first_fit(old(self).mapfreeblock@, num) {
                Some(i) => r == old(self).mapfreeblock@[i].start_va && final(self).mapfreeblock@
                    == take_block(old(self).mapfreeblock@, i, num),
                None => r == 0 && final(self).mapfreeblock@ == old(self).mapfreeblock@,
            },
    {
        find_free_block(&mut self.mapfreeblock, num)
    }
}

} // verus!
