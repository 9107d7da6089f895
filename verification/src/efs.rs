//! The on-disk layout of easy-fs: superblock, inode bitmap, inode area,
//! data bitmap and data area, and the allocation of inodes and data blocks.
use vstd::prelude::*;
use vstd::std_specs::bits::u64_trailing_ones;
use crate::config::BLOCK_SZ;

verus! {

/// Bits in one bitmap block.
pub const BLOCK_BITS: usize = 4096;

/// Size of an on-disk inode in bytes.
pub const DISK_INODE_SIZE: usize = 128;

/// Inodes in one block.
pub const INODES_PER_BLOCK: u32 = 4;

/// Whether bit `b` is set in the bitmap words `w`.
pub open spec fn bit_set(w: Seq<u64>, b: int) -> bool {
    (w[b / 64] >> ((b % 64) as u64)) & 1u64 == 1u64
}

/// The lowest bit that is clear in `w`, if any.
pub open spec fn lowest_clear(w: Seq<u64>) -> Option<int> {
    if exists|b: int| 0 <= b < w.len() * 64 && !bit_set(w, b) {
        Some(choose|b: int| 0 <= b < w.len() * 64 && !bit_set(w, b) && forall|c: int| 0 <= c < b ==> #[trigger] bit_set(w, c))
    } else {
        None
    }
}

proof fn lemma_bit_or(x: u64, k: u64, j: u64)
    requires
        k < 64,
        j < 64,
    ensures
        ((x | (1u64 << k)) >> j) & 1u64 == (if j == k { 1u64 } else { (x >> j) & 1u64 }),
{
    assert(((x | (1u64 << k)) >> j) & 1u64 == (if j == k { 1u64 } else { (x >> j) & 1u64 })) by (bit_vector)
        requires
            k < 64,
            j < 64,
    ;
}

proof fn lemma_bit_clear(x: u64, k: u64, j: u64)
    requires
        k < 64,
        j < 64,
        (x >> k) & 1u64 == 1u64,
    ensures
        ((x - (1u64 << k)) as u64 >> j) & 1u64 == (if j == k { 0u64 } else { (x >> j) & 1u64 }),
        x >= (1u64 << k),
{
    assert(((x - (1u64 << k)) as u64 >> j) & 1u64 == (if j == k { 0u64 } else { (x >> j) & 1u64 })
        && x >= (1u64 << k)) by (bit_vector)
        requires
            k < 64,
            j < 64,
            (x >> k) & 1u64 == 1u64,
    ;
}

proof fn lemma_full_word(x: u64, j: u64)
    requires
        x == 0xffff_ffff_ffff_ffffu64,
        j < 64,
    ensures
        (x >> j) & 1u64 == 1u64,
{
    assert((0xffff_ffff_ffff_ffffu64 >> j) & 1u64 == 1u64) by (bit_vector)
        requires
            j < 64,
    ;
}

proof fn lemma_lowest_clear(w: Seq<u64>, b: int)
    requires
        0 <= b < w.len() * 64,
        !bit_set(w, b),
    ensures
        exists|x: int| 0 <= x < w.len() * 64 && !bit_set(w, x) && forall|c: int| 0 <= c < x ==> #[trigger] bit_set(w, c),
    decreases b,
{
    if forall|c: int| 0 <= c < b ==> #[trigger] bit_set(w, c) {
        assert(0 <= b < w.len() * 64 && !bit_set(w, b));
    } else {
        let c = choose|c: int| 0 <= c < b && !#[trigger] bit_set(w, c);
        lemma_lowest_clear(w, c);
    }
}

/// A bitmap of `blocks` blocks starting at disk block `start_block_id`,
/// held as 64-bit words, bit `b` of the map being bit `b % 64` of word `b / 64`.
pub struct Bitmap {
    pub start_block_id: usize,
    pub blocks: usize,
    pub words: Vec<u64>,
}

impl Bitmap {
    pub open spec fn wf(&self) -> bool {
        &&& self.words@.len() == self.blocks * 64
        &&& self.blocks * BLOCK_BITS <= usize::MAX
    }

    /// A bitmap with every bit clear.
    pub fn new(start_block_id: usize, blocks: usize) -> (r: Self)
        requires
            blocks * BLOCK_BITS <= usize::MAX,
        ensures
            r.wf(),
            r.start_block_id == start_block_id,
            r.blocks == blocks,
            forall|b: int| 0 <= b < blocks * BLOCK_BITS ==> !bit_set(r.words@, b),
    {
        assert(blocks * 64 <= blocks * 4096) by (nonlinear_arith);
        let n = blocks * 64;
        let words = vec![0u64; n];
        assert forall|b: int| 0 <= b < blocks * BLOCK_BITS implies !bit_set(words@, b) by {
            let j = (b % 64) as u64;
            assert(b / 64 < blocks * 64) by (nonlinear_arith)
                requires
                    0 <= b < blocks * 4096,
            ;
            assert(words@[b / 64] == 0u64);
            assert((0u64 >> j) & 1u64 == 0u64) by (bit_vector);
        }
        Bitmap { start_block_id, blocks, words }
    }

    /// A bitmap with the words read from disk.
    pub fn from_words(start_block_id: usize, blocks: usize, words: Vec<u64>) -> (r: Self)
        requires
            words@.len() == blocks * 64,
            blocks * BLOCK_BITS <= usize::MAX,
        ensures
            r.wf(),
            r.start_block_id == start_block_id,
            r.blocks == blocks,
            r.words@ == words@,
    {
        Bitmap { start_block_id, blocks, words }
    }

    /// How many bits the bitmap has.
    pub fn maximum(&self) -> (r: usize)
        requires
            self.blocks * BLOCK_BITS <= usize::MAX,
        ensures
            r == self.blocks * BLOCK_BITS,
    {
        self.blocks * BLOCK_BITS
    }

    /// Sets the lowest clear bit and returns its number; `None` when all are set.
    pub fn allocate(&mut self) -> (r: Option<usize>)
        requires
            old(self).wf(),
        ensures
            final(self).wf(),
            final(self).start_block_id == old(self).start_block_id,
            final(self).blocks == old(self).blocks,
            match lowest_clear(old(self).words@) {
                None => r is None && final(self).words@ == old(self).words@,
                Some(b) => r == Some(b as usize) && bit_set(final(self).words@, b) && forall|c: int|
                    0 <= c < final(self).words@.len() * 64 && c != b ==> bit_set(final(self).words@, c)
                        == bit_set(old(self).words@, c),
            },
    {
        let ghost w0 = self.words@;
        let mut i: usize = 0;
        while i < self.words.len()
            invariant
                self.words@ == w0,
                w0 == old(self).words@,
                self.wf(),
                self.blocks == old(self).blocks,
                self.start_block_id == old(self).start_block_id,
                0 <= i <= self.words.len(),
                forall|k: int| 0 <= k < i ==> #[trigger] w0[k] == 0xffff_ffff_ffff_ffffu64,
            decreases self.words.len() - i,
        {
            let word = self.words[i];
            if word != 0xffff_ffff_ffff_ffffu64 {
                let inner = word.trailing_ones();
                proof {
                    vstd::std_specs::bits::axiom_u64_trailing_ones(word);
                    let b = i * 64 + inner;
                    assert(b / 64 == i && b % 64 == inner);
                    assert(!bit_set(w0, b));
                    assert forall|c: int| 0 <= c < b implies #[trigger] bit_set(w0, c) by {
                        let q = c / 64;
                        if q < i {
                            lemma_full_word(w0[q], (c % 64) as u64);
                        } else {
                            assert(q == i);
                            assert(((word >> ((c % 64) as u64)) & 1u64) == 1u64);
                        }
                    }
                    lemma_lowest_clear(w0, b);
                }
                assert(i * 64 + inner < self.blocks * 4096) by (nonlinear_arith)
                    requires
                        i < self.blocks * 64,
                        inner < 64,
                ;
                let new_word = word | (1u64 << inner as u64);
                self.words.set(i, new_word);
                proof {
                    let b = i * 64 + inner;
                    assert forall|c: int| 0 <= c < self.words@.len() * 64 implies bit_set(self.words@, c)
                        == (if c == b { true } else { bit_set(w0, c) }) by {
                        let q = c / 64;
                        if q == i {
                            lemma_bit_or(word, inner as u64, (c % 64) as u64);
                        }
                    }
                }
                return Some(i * 64 + inner as usize);
            }
            i = i + 1;
        }
        proof {
            assert forall|b: int| 0 <= b < w0.len() * 64 implies bit_set(w0, b) by {
                lemma_full_word(w0[b / 64], (b % 64) as u64);
            }
        }
        None
    }

    /// Clears bit `bit`, which must be set.
    pub fn dealloc(&mut self, bit: usize)
        requires
            old(self).wf(),
            bit < old(self).words@.len() * 64,
            bit_set(old(self).words@, bit as int),
        ensures
            final(self).wf(),
            final(self).start_block_id == old(self).start_block_id,
            final(self).blocks == old(self).blocks,
            !bit_set(final(self).words@, bit as int),
            forall|c: int|
                0 <= c < final(self).words@.len() * 64 && c != bit ==> bit_set(final(self).words@, c)
                    == bit_set(old(self).words@, c),
    {
        let pos = bit / 64;
        let inner = bit % 64;
        let word = self.words[pos];
        proof {
            lemma_bit_clear(word, inner as u64, 0);
        }
        let new_word = word - (1u64 << inner as u64);
        self.words.set(pos, new_word);
        proof {
            let w0 = old(self).words@;
            assert forall|c: int| 0 <= c < self.words@.len() * 64 implies bit_set(self.words@, c)
                == (if c == bit { false } else { bit_set(w0, c) }) by {
                let q = c / 64;
                if q == pos {
                    lemma_bit_clear(word, inner as u64, (c % 64) as u64);
                }
            }
        }
    }
}

/// The sizes that the superblock records.
#[derive(Clone, Copy, Debug, PartialEq, Eq, Structural)]
pub struct EfsLayout {
    pub total_blocks: u32,
    pub inode_bitmap_blocks: u32,
    pub inode_area_blocks: u32,
    pub data_bitmap_blocks: u32,
    pub data_area_blocks: u32,
}

/// The layout of a new file system of `total_blocks` blocks whose inode
/// bitmap takes `inode_bitmap_blocks` blocks: after the superblock come the
/// inode bitmap, the inodes it can number, then the data bitmap and the data
/// blocks, where each data bitmap block covers itself and 4096 data blocks.
pub open spec fn layout_spec(total_blocks: u32, inode_bitmap_blocks: u32) -> EfsLayout {
    let inode_area_blocks = ((inode_bitmap_blocks * 4096 * 128 + 512 - 1) / 512) as u32;
    let inode_total_blocks = inode_bitmap_blocks + inode_area_blocks;
    let data_total_blocks = total_blocks - 1 - inode_total_blocks;
    let data_bitmap_blocks = (data_total_blocks + 4096) / 4097;
    EfsLayout {
        total_blocks,
        inode_bitmap_blocks,
        inode_area_blocks,
        data_bitmap_blocks: data_bitmap_blocks as u32,
        data_area_blocks: (data_total_blocks - data_bitmap_blocks) as u32,
    }
}

/// The inputs for which `create` computes its layout without overflow.
pub open spec fn layout_fits(total_blocks: u32, inode_bitmap_blocks: u32) -> bool {
    &&& inode_bitmap_blocks * 4096 * 128 + 512 <= usize::MAX
    &&& inode_bitmap_blocks * 1025 <= u32::MAX
    &&& total_blocks >= 1 + inode_bitmap_blocks * 1025
    &&& total_blocks + 4096 <= u32::MAX
    &&& inode_bitmap_blocks * 4096 <= usize::MAX
}

/// An easy-fs file system on a block device: where its inode and data areas
/// start and the two allocation bitmaps.
pub struct EasyFileSystem<D> {
    pub block_device: D,
    pub inode_bitmap: Bitmap,
    pub data_bitmap: Bitmap,
    pub inode_area_start_block: u32,
    pub data_area_start_block: u32,
}

impl<D> EasyFileSystem<D> {
    /// Computes the layout of a new file system, with empty bitmaps, and
    /// allocates inode 0 for the root directory. (Clearing the blocks and
    /// writing the superblock and the root inode are done by the caller.)
    pub fn create(block_device: D, total_blocks: u32, inode_bitmap_blocks: u32) -> (r: (Self, EfsLayout))
        requires
            layout_fits(total_blocks, inode_bitmap_blocks),
            inode_bitmap_blocks >= 1,
        ensures
            r.1 == layout_spec(total_blocks, inode_bitmap_blocks),
            r.1.inode_area_blocks == inode_bitmap_blocks * 1024,
            r.0.inode_bitmap.start_block_id == 1,
            r.0.inode_bitmap.blocks == inode_bitmap_blocks,
            r.0.data_bitmap.start_block_id == 1 + inode_bitmap_blocks + r.1.inode_area_blocks,
            r.0.data_bitmap.blocks == r.1.data_bitmap_blocks,
            r.0.inode_area_start_block == 1 + inode_bitmap_blocks,
            r.0.data_area_start_block == 1 + inode_bitmap_blocks + r.1.inode_area_blocks
                + r.1.data_bitmap_blocks,
            r.0.wf(),
            bit_set(r.0.inode_bitmap.words@, 0),
            forall|b: int| 0 < b < r.0.inode_bitmap.words@.len() * 64 ==> !bit_set(r.0.inode_bitmap.words@, b),
            forall|b: int| 0 <= b < r.0.data_bitmap.words@.len() * 64 ==> !bit_set(r.0.data_bitmap.words@, b),
    {
        let inode_bitmap = Bitmap::new(1, inode_bitmap_blocks as usize);
        let inode_num = inode_bitmap.maximum();
        assert(inode_num * 128 + 512 - 1 == inode_bitmap_blocks * 4096 * 128 + 511) by (nonlinear_arith)
            requires
                inode_num == inode_bitmap_blocks * 4096,
        ;
        let inode_area_blocks = ((inode_num * DISK_INODE_SIZE + BLOCK_SZ - 1) / BLOCK_SZ) as u32;
        assert(inode_area_blocks == inode_bitmap_blocks * 1024) by (nonlinear_arith)
            requires
                inode_area_blocks == ((inode_bitmap_blocks * 4096 * 128 + 511) / 512) as u32,
                inode_bitmap_blocks * 1025 <= u32::MAX,
        ;
        let inode_total_blocks = inode_bitmap_blocks + inode_area_blocks;
        let data_total_blocks = total_blocks - 1 - inode_total_blocks;
        let data_bitmap_blocks = (data_total_blocks + 4096) / 4097;
        let data_area_blocks = data_total_blocks - data_bitmap_blocks;
        assert(data_bitmap_blocks as usize * 4096 <= usize::MAX) by (nonlinear_arith)
            requires
                data_bitmap_blocks <= u32::MAX / 4097 + 1,
        ;
        let data_bitmap = Bitmap::new(
            (1 + inode_bitmap_blocks + inode_area_blocks) as usize,
            data_bitmap_blocks as usize,
        );
        let mut efs = EasyFileSystem {
            block_device,
            inode_bitmap,
            data_bitmap,
            inode_area_start_block: 1 + inode_bitmap_blocks,
            data_area_start_block: 1 + inode_total_blocks + data_bitmap_blocks,
        };
        let layout = EfsLayout {
            total_blocks,
            inode_bitmap_blocks,
            inode_area_blocks,
            data_bitmap_blocks,
            data_area_blocks,
        };
        proof {
            assert(!bit_set(efs.inode_bitmap.words@, 0));
            lemma_lowest_clear(efs.inode_bitmap.words@, 0);
            lemma_lowest_clear_bound(efs.inode_bitmap.words@);
        }
        let root = efs.inode_bitmap.allocate();
        assert(root == Some(0usize));
        (efs, layout)
    }

    /// The file system described by superblock `sb`, with the bitmap words
    /// read from disk.
    pub fn open(block_device: D, sb: &EfsLayout, inode_words: Vec<u64>, data_words: Vec<u64>) -> (r: Self)
        requires
            inode_words@.len() == sb.inode_bitmap_blocks * 64,
            data_words@.len() == sb.data_bitmap_blocks * 64,
            sb.inode_bitmap_blocks * BLOCK_BITS <= usize::MAX,
            sb.data_bitmap_blocks * BLOCK_BITS <= usize::MAX,
            1 + sb.inode_bitmap_blocks + sb.inode_area_blocks + sb.data_bitmap_blocks <= u32::MAX,
        ensures
            r.wf(),
            r.inode_bitmap.start_block_id == 1,
            r.inode_bitmap.words@ == inode_words@,
            r.data_bitmap.start_block_id == 1 + sb.inode_bitmap_blocks + sb.inode_area_blocks,
            r.data_bitmap.words@ == data_words@,
            r.inode_area_start_block == 1 + sb.inode_bitmap_blocks,
            r.data_area_start_block == 1 + sb.inode_bitmap_blocks + sb.inode_area_blocks
                + sb.data_bitmap_blocks,
    {
        let inode_total_blocks = sb.inode_bitmap_blocks + sb.inode_area_blocks;
        EasyFileSystem {
            block_device,
            inode_bitmap: Bitmap::from_words(1, sb.inode_bitmap_blocks as usize, inode_words),
            data_bitmap: Bitmap::from_words(
                (1 + inode_total_blocks) as usize,
                sb.data_bitmap_blocks as usize,
                data_words,
            ),
            inode_area_start_block: 1 + sb.inode_bitmap_blocks,
            data_area_start_block: 1 + inode_total_blocks + sb.data_bitmap_blocks,
        }
    }

    /// Both bitmaps are well formed.
    pub open spec fn wf(&self) -> bool {
        self.inode_bitmap.wf() && self.data_bitmap.wf()
    }

    /// The block and the byte offset of inode `inode_id`.
    pub fn get_disk_inode_pos(&self, inode_id: u32) -> (r: (u32, usize))
        requires
            self.inode_area_start_block + inode_id / 4 <= u32::MAX,
        ensures
            r.0 == self.inode_area_start_block + inode_id / INODES_PER_BLOCK,
            r.1 == (inode_id % INODES_PER_BLOCK) * DISK_INODE_SIZE,
    {
        let inode_size = DISK_INODE_SIZE;
        let inodes_per_block = (BLOCK_SZ / inode_size) as u32;
        let block_id = self.inode_area_start_block + inode_id / inodes_per_block;
        (block_id, (inode_id % inodes_per_block) as usize * inode_size)
    }

    /// The number of the inode at byte `block_offset` of block `block_id`.
    pub fn get_disk_inode_id(&self, block_id: u32, block_offset: usize) -> (r: u32)
        requires
            block_id >= self.inode_area_start_block,
            INODES_PER_BLOCK * (block_id - self.inode_area_start_block) + block_offset / DISK_INODE_SIZE
                <= u32::MAX,
        ensures
            r == INODES_PER_BLOCK * (block_id - self.inode_area_start_block) + block_offset
                / DISK_INODE_SIZE,
    {
        let inode_size = DISK_INODE_SIZE;
        let inodes_per_block = (BLOCK_SZ / inode_size) as u32;
        inodes_per_block * (block_id - self.inode_area_start_block) + (block_offset / inode_size) as u32
    }

    /// The disk block of data block `data_block_id`.
    pub fn get_data_block_id(&self, data_block_id: u32) -> (r: u32)
        requires
            self.data_area_start_block + data_block_id <= u32::MAX,
        ensures
            r == self.data_area_start_block + data_block_id,
    {
        self.data_area_start_block + data_block_id
    }

    /// Allocates the lowest free inode number.
    pub fn alloc_inode(&mut self) -> (r: u32)
        requires
            old(self).wf(),
            lowest_clear(old(self).inode_bitmap.words@) is Some,
            old(self).inode_bitmap.blocks * BLOCK_BITS <= u32::MAX,
        ensures
            final(self).wf(),
            r == lowest_clear(old(self).inode_bitmap.words@)->Some_0,
            bit_set(final(self).inode_bitmap.words@, r as int),
            final(self).inode_bitmap.words@.len() == old(self).inode_bitmap.words@.len(),
            final(self).inode_bitmap.blocks == old(self).inode_bitmap.blocks,
            forall|c: int|
                0 <= c < old(self).inode_bitmap.words@.len() * 64 && c != r ==> bit_set(
                    final(self).inode_bitmap.words@,
                    c,
                ) == bit_set(old(self).inode_bitmap.words@, c),
            final(self).data_bitmap == old(self).data_bitmap,
            final(self).inode_area_start_block == old(self).inode_area_start_block,
            final(self).data_area_start_block == old(self).data_area_start_block,
    {
        let b = self.inode_bitmap.allocate();
        proof {
            lemma_lowest_clear_bound(old(self).inode_bitmap.words@);
        }
        match b {
            Some(b) => b as u32,
            None => 0,
        }
    }

    /// Allocates the lowest free data block and returns its disk block.
    pub fn alloc_data(&mut self) -> (r: u32)
        requires
            old(self).wf(),
            lowest_clear(old(self).data_bitmap.words@) is Some,
            old(self).data_area_start_block + old(self).data_bitmap.blocks * BLOCK_BITS <= u32::MAX,
        ensures
            final(self).wf(),
            r == lowest_clear(old(self).data_bitmap.words@)->Some_0 + old(self).data_area_start_block,
            bit_set(final(self).data_bitmap.words@, r - old(self).data_area_start_block),
            final(self).data_bitmap.words@.len() == old(self).data_bitmap.words@.len(),
            final(self).data_bitmap.blocks == old(self).data_bitmap.blocks,
            forall|c: int|
                0 <= c < old(self).data_bitmap.words@.len() * 64 && c != r - old(
                    self,
                ).data_area_start_block ==> bit_set(final(self).data_bitmap.words@, c) == bit_set(
                    old(self).data_bitmap.words@,
                    c,
                ),
            final(self).inode_bitmap == old(self).inode_bitmap,
            final(self).inode_area_start_block == old(self).inode_area_start_block,
            final(self).data_area_start_block == old(self).data_area_start_block,
    {
        let b = self.data_bitmap.allocate();
        proof {
            lemma_lowest_clear_bound(old(self).data_bitmap.words@);
        }
        match b {
            Some(b) => b as u32 + self.data_area_start_block,
            None => 0,
        }
    }

    /// Whether a data block can be allocated: some data bit is clear and
    /// block numbers stay within `u32`.
    pub fn can_alloc_data(&self) -> (r: bool)
        requires
            self.wf(),
        ensures
            r == (lowest_clear(self.data_bitmap.words@) is Some && self.data_area_start_block
                + self.data_bitmap.blocks * BLOCK_BITS <= u32::MAX),
    {
        let blocks = self.data_bitmap.blocks as u64;
        if blocks > (u32::MAX as u64) / 4096 || self.data_area_start_block as u64 + blocks * 4096 > u32::MAX as u64 {
            return false;
        }
        let w = &self.data_bitmap.words;
        let mut i: usize = 0;
        while i < w.len()
            invariant
                0 <= i <= w@.len(),
                w@ == self.data_bitmap.words@,
                self.data_area_start_block + self.data_bitmap.blocks * BLOCK_BITS <= u32::MAX,
                forall|k: int| 0 <= k < i ==> #[trigger] w@[k] == 0xffff_ffff_ffff_ffffu64,
            decreases w@.len() - i,
        {
            if w[i] != 0xffff_ffff_ffff_ffffu64 {
                proof {
                    let word = w@[i as int];
                    let b = i * 64 + word.trailing_ones() as int;
                    vstd::std_specs::bits::axiom_u64_trailing_ones(word);
                    assert(b / 64 == i && b % 64 == word.trailing_ones() as int);
                    assert(!bit_set(w@, b));
                    lemma_lowest_clear(w@, b);
                }
                return true;
            }
            i = i + 1;
        }
        proof {
            assert forall|b: int| 0 <= b < w@.len() * 64 implies bit_set(w@, b) by {
                lemma_full_word(w@[b / 64], (b % 64) as u64);
            }
        }
        false
    }

    /// A block pointer of a file made to name a block: kept when it already
    /// does (not 0), else the lowest free data block is allocated for it.
    pub fn ensure_data_block(&mut self, ptr: u32) -> (r: u32)
        requires
            old(self).wf(),
            ptr == 0 ==> lowest_clear(old(self).data_bitmap.words@) is Some,
            ptr == 0 ==> old(self).data_area_start_block + old(self).data_bitmap.blocks * BLOCK_BITS
                <= u32::MAX,
        ensures
            final(self).wf(),
            ptr != 0 ==> r == ptr && *final(self) == *old(self),
            ptr == 0 ==> r == lowest_clear(old(self).data_bitmap.words@)->Some_0
                + old(self).data_area_start_block && bit_set(
                final(self).data_bitmap.words@,
                r - old(self).data_area_start_block,
            ) && final(self).data_bitmap.words@.len() == old(self).data_bitmap.words@.len() && (forall|c: int|
                0 <= c < old(self).data_bitmap.words@.len() * 64 && c != r - old(
                    self,
                ).data_area_start_block ==> bit_set(final(self).data_bitmap.words@, c) == bit_set(
                    old(self).data_bitmap.words@,
                    c,
                )) && final(self).inode_bitmap == old(self).inode_bitmap
                && final(self).data_area_start_block == old(self).data_area_start_block,
    {
        if ptr != 0 {
            return ptr;
        }
        self.alloc_data()
    }

    /// Frees data block `block_id` (its disk block): zeroes its bytes, given
    /// as `data_block` (the block as the block cache holds it), and clears its
    /// bit.
    pub fn dealloc_data(&mut self, block_id: u32, data_block: &mut Vec<u8>)
        requires
            old(self).wf(),
            block_id >= old(self).data_area_start_block,
            block_id - old(self).data_area_start_block < old(self).data_bitmap.words@.len() * 64,
            bit_set(old(self).data_bitmap.words@, block_id - old(self).data_area_start_block),
        ensures
            final(self).wf(),
            !bit_set(final(self).data_bitmap.words@, block_id - old(self).data_area_start_block),
            forall|c: int|
                0 <= c < final(self).data_bitmap.words@.len() * 64 && c != block_id
                    - old(self).data_area_start_block ==> bit_set(final(self).data_bitmap.words@, c)
                    == bit_set(old(self).data_bitmap.words@, c),
            final(self).data_bitmap.words@.len() == old(self).data_bitmap.words@.len(),
            final(self).inode_bitmap == old(self).inode_bitmap,
            final(self).inode_area_start_block == old(self).inode_area_start_block,
            final(self).data_area_start_block == old(self).data_area_start_block,
            final(data_block)@.len() == old(data_block)@.len(),
            forall|k: int| 0 <= k < final(data_block)@.len() ==> #[trigger] final(data_block)@[k] == 0u8,
    {
        let mut i: usize = 0;
        while i < data_block.len()
            invariant
                0 <= i <= data_block@.len(),
                data_block@.len() == old(data_block)@.len(),
                forall|k: int| 0 <= k < i ==> #[trigger] data_block@[k] == 0u8,
            decreases data_block@.len() - i,
        {
            data_block.set(i, 0);
            i = i + 1;
        }
        self.data_bitmap.dealloc((block_id - self.data_area_start_block) as usize)
    }
}

pub proof fn lemma_lowest_clear_bound(w: Seq<u64>)
    ensures
        lowest_clear(w) matches Some(b) ==> 0 <= b < w.len() * 64 && !bit_set(w, b),
{
    if exists|b: int| 0 <= b < w.len() * 64 && !bit_set(w, b) {
        let b = choose|b: int| 0 <= b < w.len() * 64 && !bit_set(w, b);
        lemma_lowest_clear(w, b);
    }
}

/// The lowest clear bit is `k` when `k` is clear and every bit below it is
/// set; so allocations from a bitmap whose bits `0 .. k` are taken give
/// `k`, then `k + 1`, and so on.
pub proof fn lemma_lowest_clear_is(w: Seq<u64>, k: int)
    requires
        0 <= k < w.len() * 64,
        !bit_set(w, k),
        forall|c: int| 0 <= c < k ==> #[trigger] bit_set(w, c),
    ensures
        lowest_clear(w) == Some(k),
{
    lemma_lowest_clear(w, k);
    let x = lowest_clear(w)->Some_0;
    assert(!bit_set(w, x));
    if x < k {
        assert(bit_set(w, x));
    } else if x > k {
        assert(bit_set(w, k));
    }
}

/// An inode's position names the inode back: the number read from the
/// position of inode `id` is `id`.
pub proof fn lemma_inode_pos_round_trip(inode_area_start_block: u32, id: u32)
    requires
        inode_area_start_block + id / 4 <= u32::MAX,
    ensures
        ({
            let block = inode_area_start_block + id / INODES_PER_BLOCK;
            let offset: int = (id % INODES_PER_BLOCK) * DISK_INODE_SIZE;
            INODES_PER_BLOCK * (block - inode_area_start_block) + offset / (DISK_INODE_SIZE as int) == id
        }),
{
}

/// Every byte of an on-disk inode names the inode: for inode `id` at
/// block `block`, offset `offset`, the number read from `offset + k`, for
/// any `k` below the inode's size, is `id`.
pub proof fn lemma_inode_pos_any_byte(inode_area_start_block: u32, id: u32, k: int)
    requires
        inode_area_start_block + id / 4 <= u32::MAX,
        0 <= k < DISK_INODE_SIZE,
    ensures
        ({
            let block = inode_area_start_block + id / INODES_PER_BLOCK;
            let offset: int = (id % INODES_PER_BLOCK) * DISK_INODE_SIZE;
            INODES_PER_BLOCK * (block - inode_area_start_block) + (offset + k) / (DISK_INODE_SIZE as int) == id
        }),
{
    let q = id / 4;
    let r = id % 4;
    assert((r * 128 + k) / 128 == r) by (nonlinear_arith)
        requires
            0 <= k < 128,
            0 <= r < 4,
    ;
}

/// A new file system hands out inodes from 1 on: with inode 0 (the root)
/// taken and every other inode free, the lowest free inode is 1, and once
/// 1 is taken too it is 2.
pub proof fn lemma_first_inodes(w0: Seq<u64>, w1: Seq<u64>)
    requires
        w0.len() >= 1,
        bit_set(w0, 0),
        forall|b: int| 0 < b < w0.len() * 64 ==> !bit_set(w0, b),
        w1.len() == w0.len(),
        bit_set(w1, 1),
        forall|c: int| 0 <= c < w0.len() * 64 && c != 1 ==> bit_set(w1, c) == bit_set(w0, c),
    ensures
        lowest_clear(w0) == Some(1int),
        lowest_clear(w1) == Some(2int),
{
    lemma_lowest_clear_is(w0, 1);
    assert(bit_set(w1, 0));
    lemma_lowest_clear_is(w1, 2);
}

/// Allocating a bit and freeing it again leaves every bit as it was.
pub proof fn lemma_alloc_dealloc_restores(w0: Seq<u64>, w1: Seq<u64>, w2: Seq<u64>, b: int)
    requires
        w1.len() == w0.len(),
        w2.len() == w0.len(),
        lowest_clear(w0) == Some(b),
        forall|c: int| 0 <= c < w1.len() * 64 && c != b ==> bit_set(w1, c) == bit_set(w0, c),
        forall|c: int| 0 <= c < w2.len() * 64 && c != b ==> bit_set(w2, c) == bit_set(w1, c),
        !bit_set(w2, b),
    ensures
        forall|c: int| 0 <= c < w0.len() * 64 ==> bit_set(w2, c) == bit_set(w0, c),
{
    lemma_lowest_clear_bound(w0);
}

} // verus!
