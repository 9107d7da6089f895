//! The block pointers of an easy-fs inode (direct, single and double
//! indirect), how many blocks a file of a given size takes, and the blocks
//! that truncating a file frees.
use vstd::prelude::*;
use crate::efs::{bit_set, lowest_clear, EasyFileSystem, BLOCK_BITS};

verus! {

/// Block numbers in one indirect block (a 512-byte block of `u32`s).
pub const INODE_INDIRECT1_COUNT: usize = 128;

/// Bytes in one data block.
pub const DATA_BLOCK_SIZE: u32 = 512;

/// The block pointers of an inode: the direct pointers, then the block that
/// lists the next `INODE_INDIRECT1_COUNT` blocks, then the block that lists
/// indirect blocks for the rest.
pub struct InodeInner {
    pub valid: bool,
    pub direct: Vec<u32>,
    pub indirect1: u32,
    pub indirect2: u32,
}

/// The contents of the indirect blocks of an inode, as the block cache holds
/// them: its single indirect block, its double indirect block, and the
/// indirect blocks that the double indirect block lists, in its order.
pub struct IndirectBlocks {
    pub indirect1: Vec<u32>,
    pub indirect2: Vec<u32>,
    pub level2: Vec<Vec<u32>>,
}

/// Data blocks of a file of `size` bytes.
pub open spec fn data_blocks_spec(size: u32) -> int {
    (size + DATA_BLOCK_SIZE - 1) / (DATA_BLOCK_SIZE as int)
}

/// Blocks a file of `size` bytes takes with `d` direct pointers: its data
/// blocks, the single indirect block once they outgrow the direct pointers,
/// and the double indirect block with the indirect blocks under it once they
/// outgrow the single one.
pub open spec fn total_blocks_spec(size: u32, d: int) -> int {
    let n = data_blocks_spec(size);
    let b1 = d + INODE_INDIRECT1_COUNT;
    n + (if n > d { 1int } else { 0int }) + (if n > b1 {
        1 + (n - b1 + INODE_INDIRECT1_COUNT - 1) / (INODE_INDIRECT1_COUNT as int)
    } else {
        0int
    })
}

/// How many data blocks a file of `size` bytes takes.
pub fn data_blocks(size: u32) -> (r: u32)
    ensures
        r == data_blocks_spec(size),
{
    let r: u64 = (size as u64 + DATA_BLOCK_SIZE as u64 - 1) / DATA_BLOCK_SIZE as u64;
    r as u32
}

/// How many blocks a file of `size` bytes takes, indirect blocks included,
/// for an inode with `direct_count` direct pointers.
pub fn total_blocks(size: u32, direct_count: usize) -> (r: u32)
    requires
        direct_count <= u32::MAX,
    ensures
        r == total_blocks_spec(size, direct_count as int),
{
    let n = data_blocks(size) as u64;
    let d = direct_count as u64;
    let b1 = d + INODE_INDIRECT1_COUNT as u64;
    let mut total: u64 = n;
    if n > d {
        total = total + 1;
    }
    if n > b1 {
        total = total + 1 + (n - b1 + INODE_INDIRECT1_COUNT as u64 - 1) / INODE_INDIRECT1_COUNT as u64;
    }
    proof {
        assert(n <= 8388608);
    }
    total as u32
}

/// The blocks under the first `a` entries of the double indirect block:
/// each entry, then the whole indirect block it names.
pub open spec fn full_level2(ind2: Seq<u32>, lv: Seq<Seq<u32>>, a: int) -> Seq<u32>
    decreases a,
{
    if a <= 0 {
        Seq::empty()
    } else {
        full_level2(ind2, lv, a - 1) + seq![ind2[a - 1]] + lv[a - 1].take(INODE_INDIRECT1_COUNT as int)
    }
}

/// The blocks that truncating a file of `n` data blocks frees, in the order
/// they are listed: the direct blocks; then the single indirect block and
/// the blocks it lists; then the double indirect block and, for each
/// indirect block under it, that block and the blocks it lists.
pub open spec fn freed_blocks(
    direct: Seq<u32>,
    indirect1: u32,
    indirect2: u32,
    blocks: IndirectBlocks,
    n: int,
) -> Seq<u32> {
    let d = direct.len() as int;
    let c = INODE_INDIRECT1_COUNT as int;
    let first = direct.take(if n < d { n } else { d });
    if n <= d {
        first
    } else {
        let m1 = n - d;
        let second = first + seq![indirect1] + blocks.indirect1@.take(if m1 < c { m1 } else { c });
        if m1 <= c {
            second
        } else {
            let m2 = m1 - c;
            let a1 = m2 / c;
            let b1 = m2 % c;
            let lv = Seq::new(blocks.level2@.len(), |j: int| blocks.level2@[j]@);
            let third = second + seq![indirect2] + full_level2(blocks.indirect2@, lv, a1);
            if b1 > 0 {
                third + seq![blocks.indirect2@[a1]] + lv[a1].take(b1)
            } else {
                third
            }
        }
    }
}

proof fn lemma_full_level2_len(ind2: Seq<u32>, lv: Seq<Seq<u32>>, a: int)
    requires
        0 <= a <= ind2.len(),
        a <= lv.len(),
        forall|j: int| 0 <= j < a ==> (#[trigger] lv[j]).len() >= INODE_INDIRECT1_COUNT,
    ensures
        full_level2(ind2, lv, a).len() == a * (INODE_INDIRECT1_COUNT + 1),
    decreases a,
{
    if a > 0 {
        lemma_full_level2_len(ind2, lv, a - 1);
        assert(lv[a - 1].take(INODE_INDIRECT1_COUNT as int).len() == INODE_INDIRECT1_COUNT);
    }
}

/// Whether `blocks` holds the indirect blocks that truncating a file of `n`
/// data blocks reads, each a full block of `INODE_INDIRECT1_COUNT` numbers.
pub open spec fn blocks_cover(blocks: IndirectBlocks, d: int, n: int) -> bool {
    let c = INODE_INDIRECT1_COUNT as int;
    &&& n > d ==> blocks.indirect1@.len() == c
    &&& n > d + c ==> {
        &&& blocks.indirect2@.len() == c
        &&& n - d - c <= c * c
        &&& blocks.level2@.len() >= (n - d - c + c - 1) / c
        &&& forall|j: int| 0 <= j < blocks.level2@.len() ==> (#[trigger] blocks.level2@[j])@.len() == c
    }
}

/// Truncates a file of `*size` bytes to nothing and returns the blocks to
/// free (their contents are zeroed when they are freed): the direct blocks
/// in use are zeroed in the inode, the single and double indirect pointers
/// are cleared once the file reached them, and the size becomes 0.
pub fn clear_size(inner: &mut InodeInner, size: &mut u32, blocks: &IndirectBlocks) -> (r: Vec<u32>)
    requires
        blocks_cover(*blocks, old(inner).direct@.len() as int, data_blocks_spec(*old(size))),
    ensures
        *final(size) == 0,
        r@ == freed_blocks(
            old(inner).direct@,
            old(inner).indirect1,
            old(inner).indirect2,
            *blocks,
            data_blocks_spec(*old(size)),
        ),
        r@.len() == total_blocks_spec(*old(size), old(inner).direct@.len() as int),
        final(inner).valid == old(inner).valid,
        final(inner).direct@.len() == old(inner).direct@.len(),
        forall|k: int|
            0 <= k < old(inner).direct@.len() ==> #[trigger] final(inner).direct@[k] == (if k
                < data_blocks_spec(*old(size)) {
                0u32
            } else {
                old(inner).direct@[k]
            }),
        final(inner).indirect1 == (if data_blocks_spec(*old(size)) > old(inner).direct@.len() {
            0u32
        } else {
            old(inner).indirect1
        }),
        final(inner).indirect2 == (if data_blocks_spec(*old(size)) > old(inner).direct@.len()
            + INODE_INDIRECT1_COUNT {
            0u32
        } else {
            old(inner).indirect2
        }),
{
    let ghost d0 = inner.direct@;
    let ghost n0 = data_blocks_spec(*size);
    proof {
        lemma_freed_count(d0, inner.indirect1, inner.indirect2, *blocks, *size);
    }
    let mut v: Vec<u32> = Vec::new();
    let mut data = data_blocks(*size) as usize;
    *size = 0;
    let d = inner.direct.len();
    let lim = if data < d { data } else { d };
    let mut cur: usize = 0;
    while cur < lim
        invariant
            0 <= cur <= lim,
            lim <= d,
            d == inner.direct@.len(),
            d0.len() == d,
            lim == (if n0 < d { n0 } else { d as int }),
            v@ == d0.take(cur as int),
            forall|k: int| 0 <= k < cur ==> #[trigger] inner.direct@[k] == 0u32,
            forall|k: int| cur <= k < d ==> #[trigger] inner.direct@[k] == d0[k],
            inner.indirect1 == old(inner).indirect1,
            inner.indirect2 == old(inner).indirect2,
            inner.valid == old(inner).valid,
        decreases lim - cur,
    {
        v.push(inner.direct[cur]);
        inner.direct.set(cur, 0);
        assert(d0.take(cur + 1) =~= d0.take(cur as int).push(d0[cur as int]));
        cur = cur + 1;
    }
    if data <= d {
        return v;
    }
    let c = INODE_INDIRECT1_COUNT;
    v.push(inner.indirect1);
    data = data - d;
    let lim1 = if data < c { data } else { c };
    let ghost before1 = v@;
    let mut k: usize = 0;
    while k < lim1
        invariant
            0 <= k <= lim1,
            lim1 <= c,
            blocks.indirect1@.len() == c,
            v@ == before1 + blocks.indirect1@.take(k as int),
        decreases lim1 - k,
    {
        v.push(blocks.indirect1[k]);
        assert(blocks.indirect1@.take(k + 1) =~= blocks.indirect1@.take(k as int).push(blocks.indirect1@[k as int]));
        k = k + 1;
    }
    inner.indirect1 = 0;
    if data <= c {
        return v;
    }
    v.push(inner.indirect2);
    data = data - c;
    let a1 = data / c;
    let b1 = data % c;
    let ghost lv = Seq::new(blocks.level2@.len(), |j: int| blocks.level2@[j]@);
    let ghost before2 = v@;
    proof {
        assert(a1 <= c);
        assert(a1 + (if b1 > 0 { 1int } else { 0int }) <= blocks.level2@.len()) by (nonlinear_arith)
            requires
                a1 == data / 128,
                b1 == data % 128,
                blocks.level2@.len() >= (data + 127) / 128,
        ;
    }
    let mut j: usize = 0;
    while j < a1
        invariant
            0 <= j <= a1,
            c == INODE_INDIRECT1_COUNT,
            a1 <= c,
            a1 <= blocks.level2@.len(),
            blocks.indirect2@.len() == c,
            lv == Seq::new(blocks.level2@.len(), |j: int| blocks.level2@[j]@),
            forall|q: int| 0 <= q < blocks.level2@.len() ==> (#[trigger] blocks.level2@[q])@.len() == c,
            v@ == before2 + full_level2(blocks.indirect2@, lv, j as int),
        decreases a1 - j,
    {
        v.push(blocks.indirect2[j]);
        let ghost mid = v@;
        assert(mid =~= before2 + full_level2(blocks.indirect2@, lv, j as int) + seq![blocks.indirect2@[j as int]]);
        let child = &blocks.level2[j];
        let mut q: usize = 0;
        while q < c
            invariant
                0 <= q <= c,
                child@.len() == c,
                child@ == lv[j as int],
                v@ == mid + child@.take(q as int),
            decreases c - q,
        {
            v.push(child[q]);
            assert(child@.take(q + 1) =~= child@.take(q as int).push(child@[q as int]));
            q = q + 1;
        }
        proof {
            let f = full_level2(blocks.indirect2@, lv, j as int);
            let jj: int = j + 1;
            assert(jj - 1 == j as int);
            assert(full_level2(blocks.indirect2@, lv, jj) == full_level2(blocks.indirect2@, lv, jj - 1)
                + seq![blocks.indirect2@[jj - 1]] + lv[jj - 1].take(INODE_INDIRECT1_COUNT as int));
            assert(lv[j as int].take(c as int) =~= child@);
            assert(child@.take(c as int) =~= child@);
            assert(v@ == mid + child@);
            let x = blocks.indirect2@[j as int];
            let g = full_level2(blocks.indirect2@, lv, jj);
            assert(g == f + seq![x] + child@);
            assert(v@ == before2 + f + seq![x] + child@);
            assert(v@ =~= before2 + g);
        }
        j = j + 1;
    }
    if b1 > 0 {
        v.push(blocks.indirect2[a1]);
        let ghost mid = v@;
        let child = &blocks.level2[a1];
        let mut q: usize = 0;
        while q < b1
            invariant
                0 <= q <= b1,
                b1 < c,
                child@.len() == c,
                child@ == lv[a1 as int],
                v@ == mid + child@.take(q as int),
            decreases b1 - q,
        {
            v.push(child[q]);
            assert(child@.take(q + 1) =~= child@.take(q as int).push(child@[q as int]));
            q = q + 1;
        }
    }
    inner.indirect2 = 0;
    v
}

/// Truncating frees exactly the blocks that the file takes: as many
/// numbers as `total_blocks` counts for its size.
pub proof fn lemma_freed_count(direct: Seq<u32>, indirect1: u32, indirect2: u32, blocks: IndirectBlocks, size: u32)
    requires
        blocks_cover(blocks, direct.len() as int, data_blocks_spec(size)),
    ensures
        freed_blocks(direct, indirect1, indirect2, blocks, data_blocks_spec(size)).len() == total_blocks_spec(
            size,
            direct.len() as int,
        ),
{
    let n = data_blocks_spec(size);
    let d = direct.len() as int;
    let c = INODE_INDIRECT1_COUNT as int;
    if n > d + c {
        let m2 = n - d - c;
        let a1 = m2 / c;
        let b1 = m2 % c;
        let lv = Seq::new(blocks.level2@.len(), |j: int| blocks.level2@[j]@);
        assert(a1 + (if b1 > 0 { 1int } else { 0int }) <= blocks.level2@.len() && a1 <= c) by (nonlinear_arith)
            requires
                a1 == m2 / 128,
                b1 == m2 % 128,
                m2 > 0,
                m2 <= 128 * 128,
                blocks.level2@.len() >= (m2 + 127) / 128,
                c == 128,
        ;
        lemma_full_level2_len(blocks.indirect2@, lv, a1);
        assert(m2 == a1 * 128 + b1 && (m2 + 127) / 128 == a1 + (if b1 > 0 { 1int } else { 0int })) by (nonlinear_arith)
            requires
                a1 == m2 / 128,
                b1 == m2 % 128,
                m2 > 0,
        ;
        assert(a1 * (c + 1) == a1 * 128 + a1) by (nonlinear_arith)
            requires
                c == 128,
        ;
    }
}

/// One block's part of a read or write at a file offset: the block's index
/// in the file, where in the block the part starts, its length, and where
/// it starts in the caller's buffer.
#[derive(Clone, Copy, Debug, PartialEq, Eq, Structural)]
pub struct IoChunk {
    pub block: usize,
    pub in_block: usize,
    pub len: usize,
    pub buf_start: usize,
}

/// The end of the part of `s .. end` that lies in the block holding `s`.
pub open spec fn chunk_end(s: int, end: int) -> int {
    let b = (s / 512 + 1) * 512;
    if b < end { b } else { end }
}

/// The block parts of the bytes `s .. end` of a file, taken block by block
/// from `s`, the first going to buffer position `done`; a single empty part
/// when `s` is at `end`.
pub open spec fn io_chunks(s: int, end: int, done: int) -> Seq<IoChunk>
    decreases end - s,
{
    let e = chunk_end(s, end);
    let c = IoChunk { block: (s / 512) as usize, in_block: (s % 512) as usize, len: (e - s) as usize, buf_start: done as usize };
    if s >= end {
        seq![c]
    } else {
        proof {
            assert((s / 512 + 1) * 512 > s) by (nonlinear_arith);
        }
        if e >= end {
            seq![c]
        } else {
            seq![c] + io_chunks(e, end, done + (e - s))
        }
    }
}

/// The block parts of the bytes `start .. end`, block by block.
fn chunks(start: usize, end: usize) -> (r: Vec<IoChunk>)
    requires
        start <= end,
        end + 512 <= usize::MAX,
    ensures
        r@ == io_chunks(start as int, end as int, 0),
{
    let mut out: Vec<IoChunk> = Vec::new();
    let mut s = start;
    let mut done: usize = 0;
    loop
        invariant
            start <= s <= end,
            end + 512 <= usize::MAX,
            done == s - start,
            out@ + io_chunks(s as int, end as int, done as int) == io_chunks(start as int, end as int, 0),
        decreases end - s,
    {
        let b = (s / 512 + 1) * 512;
        let e = if b < end { b } else { end };
        proof {
            assert((s / 512 + 1) * 512 > s) by (nonlinear_arith);
        }
        let c = IoChunk { block: s / 512, in_block: s % 512, len: e - s, buf_start: done };
        let ghost rest = io_chunks(s as int, end as int, done as int);
        proof {
            if s < end && e < end {
                assert(rest == seq![c] + io_chunks(e as int, end as int, done + (e - s)));
            } else {
                assert(rest == seq![c]);
            }
        }
        out.push(c);
        if e >= end || s >= end {
            assert(out@ =~= out@.drop_last() + seq![c]);
            return out;
        }
        assert(out@.drop_last() + rest =~= out@ + io_chunks(e as int, end as int, done + (e - s)));
        done = done + (e - s);
        s = e;
    }
}

/// How a read of `len` bytes at `offset` from a file of `size` bytes runs:
/// block by block over the bytes from `offset` up to the end of the request
/// or of the file, whichever comes first; nothing (0 bytes read) when the
/// offset is at or past that end.
pub fn read_plan(offset: usize, len: usize, size: u32) -> (r: Vec<IoChunk>)
    requires
        offset + len + 512 <= usize::MAX,
    ensures
        ({
            let end = if offset + len < size { offset + len } else { size as int };
            &&& offset >= end ==> r@ == Seq::<IoChunk>::empty()
            &&& offset < end ==> r@ == io_chunks(offset as int, end, 0)
        }),
{
    let end = if offset + len < size as usize { offset + len } else { size as usize };
    if offset >= end {
        return Vec::new();
    }
    chunks(offset, end)
}

/// How a write of `len` bytes at `offset` to a file of `size` bytes whose
/// inode has `direct_count` direct pointers runs: `None` (0 bytes written)
/// for an offset past the end of the file or a write past the largest file
/// the pointers reach; else the parts block by block over `offset ..
/// offset + len` (a single empty part for an empty write) and the new size,
/// grown to the end of the write if it goes past the old end.
pub fn write_plan(offset: usize, len: usize, size: u32, direct_count: usize) -> (r: Option<(Vec<IoChunk>, usize)>)
    requires
        offset + len + 512 <= usize::MAX,
        (direct_count + 128 + 128 * 128) * 512 <= usize::MAX,
    ensures
        offset > size ==> r is None,
        offset <= size && offset + len > (direct_count + 128 + 128 * 128) * 512 ==> r is None,
        offset <= size && offset + len <= (direct_count + 128 + 128 * 128) * 512 ==> (r matches Some(p) && p.0@
            == io_chunks(offset as int, offset + len, 0) && p.1 == (if offset + len > size {
            offset + len
        } else {
            size as int
        })),
{
    if offset > size as usize {
        return None;
    }
    let bound = (direct_count + 128 + 128 * 128) * 512;
    if offset + len > bound {
        return None;
    }
    let plan = chunks(offset, offset + len);
    let new_size = if offset + len > size as usize { offset + len } else { size as usize };
    Some((plan, new_size))
}

/// Where the pointer to block `inner_id` of a file lives, for an inode with
/// `d` direct pointers.
#[derive(Clone, Copy, Debug, PartialEq, Eq, Structural)]
pub enum BlockSlot {
    /// Direct pointer `i`.
    Direct(usize),
    /// Entry `i` of the single indirect block.
    Indirect1(usize),
    /// Entry `j` of the indirect block named by entry `i` of the double
    /// indirect block.
    Indirect2(usize, usize),
}

/// Where the pointer to block `inner_id` lives: the first `d` blocks are
/// direct, the next `INODE_INDIRECT1_COUNT` in the single indirect block,
/// and block `d + INODE_INDIRECT1_COUNT + k` at entry `k % 128` of the
/// indirect block named by entry `k / 128` of the double indirect block.
pub open spec fn block_slot_spec(inner_id: int, d: int) -> BlockSlot {
    let c = INODE_INDIRECT1_COUNT as int;
    if inner_id < d {
        BlockSlot::Direct(inner_id as usize)
    } else if inner_id < d + c {
        BlockSlot::Indirect1((inner_id - d) as usize)
    } else {
        let last = inner_id - d - c;
        BlockSlot::Indirect2((last / c) as usize, (last % c) as usize)
    }
}

/// Where the pointer to block `inner_id` lives (see `block_slot_spec`); the
/// block must lie within what the double indirect block reaches.
pub fn block_slot(inner_id: u32, direct_count: usize) -> (r: BlockSlot)
    requires
        inner_id < direct_count + INODE_INDIRECT1_COUNT + INODE_INDIRECT1_COUNT * INODE_INDIRECT1_COUNT,
    ensures
        r == block_slot_spec(inner_id as int, direct_count as int),
{
    let id = inner_id as usize;
    let c = INODE_INDIRECT1_COUNT;
    if id < direct_count {
        BlockSlot::Direct(id)
    } else if id - direct_count < c {
        BlockSlot::Indirect1(id - direct_count)
    } else {
        let last = id - direct_count - c;
        BlockSlot::Indirect2(last / c, last % c)
    }
}

/// Bytes in one data block, as an index bound.
pub const BLOCK_BYTES: usize = 512;

/// The data of a file: its data blocks in file order (as `get_block_id`
/// finds them, block `i` holding bytes `512 * i ..`) and its size.
pub struct FileData {
    pub blocks: Vec<Vec<u8>>,
    pub size: u32,
}

/// Byte `k` of the data held by the blocks `b`.
pub open spec fn block_byte(b: Seq<Vec<u8>>, k: int) -> u8 {
    b[k / 512]@[k % 512]
}

impl FileData {
    /// Every block holds 512 bytes and the size lies within the blocks.
    pub open spec fn wf(&self) -> bool {
        &&& forall|i: int| 0 <= i < self.blocks@.len() ==> (#[trigger] self.blocks@[i])@.len() == 512
        &&& self.size <= self.blocks@.len() * 512
    }

    /// The bytes of the file.
    pub open spec fn contents(&self) -> Seq<u8> {
        Seq::new(self.size as nat, |k: int| block_byte(self.blocks@, k))
    }

    /// `read_at`: the bytes from `offset` up to `offset + len` or the end of
    /// the file, whichever comes first; none when `offset` is at or past the
    /// end.
    pub fn read_at(&self, offset: usize, len: usize) -> (r: Vec<u8>)
        requires
            self.wf(),
        ensures
            offset >= self.size ==> r@ == Seq::<u8>::empty(),
            offset < self.size ==> r@ == self.contents().subrange(
                offset as int,
                if offset + len < self.size { offset + len } else { self.size as int },
            ),
    {
        let size = self.size as usize;
        if offset >= size {
            return Vec::new();
        }
        let end = if len < size - offset { offset + len } else { size };
        let mut out: Vec<u8> = Vec::new();
        let mut k = offset;
        while k < end
            invariant
                self.wf(),
                offset <= k <= end,
                end <= self.size,
                out@ == self.contents().subrange(offset as int, k as int),
            decreases end - k,
        {
            proof {
                assert(k / 512 < self.blocks@.len() && k % 512 < 512) by (nonlinear_arith)
                    requires
                        k < self.blocks@.len() * 512,
                ;
            }
            let byte = self.blocks[k / 512][k % 512];
            out.push(byte);
            assert(self.contents().subrange(offset as int, k + 1) =~= self.contents().subrange(
                offset as int,
                k as int,
            ).push(byte));
            k = k + 1;
        }
        out
    }

    /// `write_at`: nothing (0 bytes written) for an offset past the end of
    /// the file or a write past `max_size`, the largest file the inode's
    /// pointers reach; else `buf` is written at `offset`, over the bytes
    /// there and on past the end, which then moves to the end of the write.
    /// The blocks must already hold the range (`get_block_id` allocates
    /// them).
    pub fn write_at(&mut self, offset: usize, buf: &[u8], max_size: usize) -> (r: usize)
        requires
            old(self).wf(),
            offset > old(self).size || offset + buf@.len() > max_size || offset + buf@.len() <= old(
                self,
            ).blocks@.len() * 512,
            max_size <= u32::MAX,
        ensures
            final(self).wf(),
            final(self).blocks@.len() == old(self).blocks@.len(),
            offset > old(self).size || offset + buf@.len() > max_size ==> r == 0 && final(self).contents()
                == old(self).contents(),
            !(offset > old(self).size || offset + buf@.len() > max_size) ==> r == buf@.len()
                && final(self).contents() == old(self).contents().subrange(0, offset as int) + buf@
                + (if offset + buf@.len() < old(self).size {
                old(self).contents().subrange(offset + buf@.len(), old(self).size as int)
            } else {
                Seq::<u8>::empty()
            }),
    {
        if offset > self.size as usize || buf.len() > max_size || offset > max_size - buf.len() {
            return 0;
        }
        let ghost old_blocks = self.blocks@;
        let ghost old_contents = self.contents();
        let mut j: usize = 0;
        while j < buf.len()
            invariant
                0 <= j <= buf@.len(),
                offset + buf@.len() <= self.blocks@.len() * 512,
                offset + buf@.len() <= max_size,
                max_size <= u32::MAX,
                self.blocks@.len() == old_blocks.len(),
                self.size == old(self).size,
                forall|i: int| 0 <= i < self.blocks@.len() ==> (#[trigger] self.blocks@[i])@.len() == 512,
                forall|k: int|
                    0 <= k < self.blocks@.len() * 512 ==> #[trigger] block_byte(self.blocks@, k) == (if offset
                        <= k < offset + j {
                        buf@[k - offset]
                    } else {
                        block_byte(old_blocks, k)
                    }),
            decreases buf@.len() - j,
        {
            let k0 = offset + j;
            let b = k0 / 512;
            let i = k0 % 512;
            proof {
                assert(b < self.blocks@.len() && i < 512) by (nonlinear_arith)
                    requires
                        k0 < self.blocks@.len() * 512,
                        b == k0 / 512,
                        i == k0 % 512,
                ;
            }
            let ghost before = self.blocks@;
            let mut blk = self.blocks[b].clone();
            assert(blk@ =~= before[b as int]@);
            blk.set(i, buf[j]);
            self.blocks.set(b, blk);
            assert(self.blocks@[b as int]@ == before[b as int]@.update(i as int, buf@[j as int]));
            proof {
                assert forall|k: int| 0 <= k < self.blocks@.len() * 512 implies #[trigger] block_byte(self.blocks@, k) == (if offset
                    <= k < offset + j + 1 {
                    buf@[k - offset]
                } else {
                    block_byte(old_blocks, k)
                }) by {
                    assert(0 <= k / 512 && k % 512 < 512 && (k / 512 == b && k % 512 == i ==> k == k0)) by (nonlinear_arith)
                        requires
                            0 <= k,
                            b == k0 / 512,
                            i == k0 % 512,
                    ;
                    assert(k / 512 < self.blocks@.len()) by (nonlinear_arith)
                        requires
                            0 <= k < self.blocks@.len() * 512,
                    ;
                    if k == k0 {
                        assert(block_byte(self.blocks@, k) == buf@[j as int]);
                    } else {
                        if k / 512 == b {
                            assert(self.blocks@[b as int]@[k % 512] == before[b as int]@[k % 512]);
                        } else {
                            assert(self.blocks@[k / 512] == before[k / 512]);
                        }
                        assert(block_byte(self.blocks@, k) == block_byte(before, k));
                    }
                }
            }
            j = j + 1;
        }
        let new_end = offset + buf.len();
        if new_end > self.size as usize {
            self.size = new_end as u32;
        }
        proof {
            let n = self.contents();
            let want = old_contents.subrange(0, offset as int) + buf@ + (if offset + buf@.len() < old(self).size {
                old_contents.subrange(offset + buf@.len(), old(self).size as int)
            } else {
                Seq::<u8>::empty()
            });
            assert(n.len() == want.len());
            assert forall|k: int| 0 <= k < n.len() implies n[k] == want[k] by {
                assert(block_byte(self.blocks@, k) == (if offset <= k < offset + buf@.len() {
                    buf@[k - offset]
                } else {
                    block_byte(old_blocks, k)
                }));
            }
            assert(n =~= want);
        }
        buf.len()
    }
}

/// What a read gives back of a write: after `buf` was written at `offset`
/// (with room in the blocks and within the largest file), reading
/// `buf.len()` bytes at `offset` gives `buf`.
pub proof fn lemma_read_back(old_contents: Seq<u8>, new_contents: Seq<u8>, offset: int, buf: Seq<u8>)
    requires
        0 <= offset <= old_contents.len(),
        new_contents == old_contents.subrange(0, offset) + buf + (if offset + buf.len() < old_contents.len() {
            old_contents.subrange(offset + buf.len(), old_contents.len() as int)
        } else {
            Seq::<u8>::empty()
        }),
    ensures
        offset + buf.len() <= new_contents.len(),
        new_contents.subrange(offset, offset + buf.len()) == buf,
        forall|k: int| 0 <= k < offset ==> new_contents[k] == old_contents[k],
        forall|k: int| offset + buf.len() <= k < old_contents.len() ==> new_contents[k] == old_contents[k],
{
    assert(new_contents.subrange(offset, offset + buf.len()) =~= buf);
}

/// The file system after allocating data block `b` from `pre`: the lowest
/// free data block, its bit now set, nothing else changed.
pub open spec fn data_alloc<D>(pre: EasyFileSystem<D>, post: EasyFileSystem<D>, b: u32) -> bool {
    &&& lowest_clear(pre.data_bitmap.words@) matches Some(x) && b == x + pre.data_area_start_block
    &&& post.data_bitmap.words@.len() == pre.data_bitmap.words@.len()
    &&& bit_set(post.data_bitmap.words@, b - pre.data_area_start_block)
    &&& forall|c: int|
        0 <= c < pre.data_bitmap.words@.len() * 64 && c != b - pre.data_area_start_block ==> bit_set(
            post.data_bitmap.words@,
            c,
        ) == bit_set(pre.data_bitmap.words@, c)
    &&& post.data_bitmap.blocks == pre.data_bitmap.blocks
    &&& post.inode_bitmap == pre.inode_bitmap
    &&& post.data_area_start_block == pre.data_area_start_block
    &&& post.inode_area_start_block == pre.inode_area_start_block
}

/// Whether a data block can be allocated from `efs`.
pub open spec fn can_alloc<D>(efs: EasyFileSystem<D>) -> bool {
    lowest_clear(efs.data_bitmap.words@) is Some && efs.data_area_start_block + efs.data_bitmap.blocks
        * BLOCK_BITS <= u32::MAX
}

/// Allocates a data block if one is free.
fn fresh_block<D>(efs: &mut EasyFileSystem<D>) -> (r: Option<u32>)
    requires
        old(efs).wf(),
    ensures
        final(efs).wf(),
        r is None ==> *final(efs) == *old(efs) && !can_alloc(*old(efs)),
        r matches Some(b) ==> data_alloc(*old(efs), *final(efs), b),
{
    if !efs.can_alloc_data() {
        return None;
    }
    Some(efs.alloc_data())
}

/// Data bits only get set from `pre` to `post`.
pub open spec fn bits_grow<D>(pre: EasyFileSystem<D>, post: EasyFileSystem<D>) -> bool {
    &&& post.data_bitmap.words@.len() == pre.data_bitmap.words@.len()
    &&& post.data_bitmap.blocks == pre.data_bitmap.blocks
    &&& post.inode_bitmap == pre.inode_bitmap
    &&& post.data_area_start_block == pre.data_area_start_block
    &&& post.inode_area_start_block == pre.inode_area_start_block
    &&& forall|c: int|
        0 <= c < pre.data_bitmap.words@.len() * 64 && #[trigger] bit_set(pre.data_bitmap.words@, c)
            ==> bit_set(post.data_bitmap.words@, c)
}

/// Whether block pointer `p` names a block newly allocated from `pre` to
/// `post`: its data bit was clear and is set.
pub open spec fn newly_allocated<D>(pre: EasyFileSystem<D>, post: EasyFileSystem<D>, p: u32) -> bool {
    let c = p - pre.data_area_start_block;
    &&& 0 <= c < pre.data_bitmap.words@.len() * 64
    &&& !bit_set(pre.data_bitmap.words@, c)
    &&& bit_set(post.data_bitmap.words@, c)
}

/// A pointer kept when it names a block, else newly allocated.
pub open spec fn filled<D>(pre: EasyFileSystem<D>, post: EasyFileSystem<D>, old_p: u32, new_p: u32) -> bool {
    if old_p != 0 {
        new_p == old_p
    } else {
        newly_allocated(pre, post, new_p)
    }
}

proof fn lemma_alloc_grows<D>(a: EasyFileSystem<D>, b: EasyFileSystem<D>, c: EasyFileSystem<D>, x: u32)
    requires
        bits_grow(a, b),
        data_alloc(b, c, x),
    ensures
        bits_grow(a, c),
        newly_allocated(b, c, x),
        forall|p: u32| newly_allocated(a, b, p) ==> newly_allocated(a, c, p),
        newly_allocated(a, c, x),
{
    let w = b.data_bitmap.words@;
    crate::efs::lemma_lowest_clear_bound(w);
    assert forall|c2: int|
        0 <= c2 < a.data_bitmap.words@.len() * 64 && #[trigger] bit_set(a.data_bitmap.words@, c2) implies bit_set(
        c.data_bitmap.words@,
        c2,
    ) by {
        assert(bit_set(w, c2));
    }
    let i = x - b.data_area_start_block;
    if bit_set(a.data_bitmap.words@, i) {
        assert(bit_set(w, i));
    }
}

/// What the path of a direct block ends as: slot `i` kept or filled, the
/// result, and nothing else changed.
pub open spec fn direct_post<D>(
    e0: EasyFileSystem<D>,
    e1: EasyFileSystem<D>,
    i0: InodeInner,
    i1: InodeInner,
    n0: IndirectBlocks,
    n1: IndirectBlocks,
    i: int,
    r: u32,
) -> bool {
    &&& r == i1.direct@[i]
    &&& filled(e0, e1, i0.direct@[i], i1.direct@[i])
    &&& i1.direct@ == i0.direct@.update(i, i1.direct@[i])
    &&& i1.indirect1 == i0.indirect1
    &&& i1.indirect2 == i0.indirect2
    &&& n1.indirect1@ == n0.indirect1@
    &&& n1.indirect2@ == n0.indirect2@
    &&& n1.level2@ == n0.level2@
}

/// What the path through the single indirect block ends as: the inode's
/// pointer kept or filled, entry `i` kept or filled (a new indirect block
/// starting all 0), the result, and nothing else changed.
pub open spec fn indirect1_post<D>(
    e0: EasyFileSystem<D>,
    e1: EasyFileSystem<D>,
    i0: InodeInner,
    i1: InodeInner,
    n0: IndirectBlocks,
    n1: IndirectBlocks,
    i: int,
    r: u32,
) -> bool {
    &&& r == n1.indirect1@[i]
    &&& filled(e0, e1, i0.indirect1, i1.indirect1)
    &&& i1.direct@ == i0.direct@
    &&& i1.indirect2 == i0.indirect2
    &&& filled(e0, e1, if i0.indirect1 != 0 { n0.indirect1@[i] } else { 0 }, n1.indirect1@[i])
    &&& n1.indirect1@.len() == INODE_INDIRECT1_COUNT
    &&& forall|k: int|
        0 <= k < INODE_INDIRECT1_COUNT && k != i ==> n1.indirect1@[k] == (if i0.indirect1 != 0 {
            n0.indirect1@[k]
        } else {
            0u32
        })
    &&& n1.indirect2@ == n0.indirect2@
    &&& n1.level2@ == n0.level2@
}

/// What the path through the double indirect block ends as: the inode's
/// pointer, entry `a` and entry `b` of the indirect block under it each
/// kept or filled (new indirect blocks starting all 0), the result, and
/// nothing else changed.
pub open spec fn indirect2_post<D>(
    e0: EasyFileSystem<D>,
    e1: EasyFileSystem<D>,
    i0: InodeInner,
    i1: InodeInner,
    n0: IndirectBlocks,
    n1: IndirectBlocks,
    a: int,
    b: int,
    r: u32,
) -> bool {
    let e_old: u32 = if i0.indirect2 != 0 { n0.indirect2@[a] } else { 0 };
    &&& r == n1.level2@[a]@[b]
    &&& filled(e0, e1, i0.indirect2, i1.indirect2)
    &&& i1.direct@ == i0.direct@
    &&& i1.indirect1 == i0.indirect1
    &&& n1.indirect1@ == n0.indirect1@
    &&& filled(e0, e1, e_old, n1.indirect2@[a])
    &&& n1.indirect2@.len() == INODE_INDIRECT1_COUNT
    &&& forall|k: int|
        0 <= k < INODE_INDIRECT1_COUNT && k != a ==> n1.indirect2@[k] == (if i0.indirect2 != 0 {
            n0.indirect2@[k]
        } else {
            0u32
        })
    &&& filled(e0, e1, if e_old != 0 { n0.level2@[a]@[b] } else { 0 }, n1.level2@[a]@[b])
    &&& n1.level2@.len() == n0.level2@.len()
    &&& n1.level2@[a]@.len() == INODE_INDIRECT1_COUNT
    &&& forall|k: int|
        0 <= k < INODE_INDIRECT1_COUNT && k != b ==> n1.level2@[a]@[k] == (if e_old != 0 {
            n0.level2@[a]@[k]
        } else {
            0u32
        })
    &&& forall|j: int| 0 <= j < n0.level2@.len() && j != a ==> n1.level2@[j] == n0.level2@[j]
}

/// Fills a missing pointer with a newly allocated block.
fn fill<D>(efs: &mut EasyFileSystem<D>, ptr: u32, Ghost(e0): Ghost<EasyFileSystem<D>>) -> (r: Option<u32>)
    requires
        old(efs).wf(),
        bits_grow(e0, *old(efs)),
    ensures
        final(efs).wf(),
        bits_grow(e0, *final(efs)),
        forall|p: u32| newly_allocated(e0, *old(efs), p) ==> newly_allocated(e0, *final(efs), p),
        r is None ==> ptr == 0 && !can_alloc(*final(efs)),
        r matches Some(x) ==> (if ptr != 0 { x == ptr && *final(efs) == *old(efs) } else {
            newly_allocated(e0, *final(efs), x)
        }),
{
    if ptr != 0 {
        return Some(ptr);
    }
    let ghost e1 = *efs;
    match fresh_block(efs) {
        None => None,
        Some(b) => {
            proof {
                lemma_alloc_grows(e0, e1, *efs, b);
            }
            Some(b)
        },
    }
}

/// What `get_block_id` finds: the disk block of block `inner_id` of the
/// file, each missing pointer on the way (the inode's pointer, the single or
/// double indirect block, the indirect block under the double one, the
/// entry) given a newly allocated block, and a newly allocated indirect
/// block starting with all entries 0 (free blocks are kept zeroed). `None`
/// when a block was needed and none was free; pointers set before that stay
/// set.
pub fn get_block_id<D>(efs: &mut EasyFileSystem<D>, inner: &mut InodeInner, ind: &mut IndirectBlocks, inner_id: u32) -> (r: Option<u32>)
    requires
        old(efs).wf(),
        inner_id < old(inner).direct@.len() + INODE_INDIRECT1_COUNT + INODE_INDIRECT1_COUNT * INODE_INDIRECT1_COUNT,
        old(ind).indirect1@.len() == INODE_INDIRECT1_COUNT,
        old(ind).indirect2@.len() == INODE_INDIRECT1_COUNT,
        old(ind).level2@.len() == INODE_INDIRECT1_COUNT,
        forall|j: int| 0 <= j < INODE_INDIRECT1_COUNT ==> (#[trigger] old(ind).level2@[j])@.len() == INODE_INDIRECT1_COUNT,
    ensures
        final(efs).wf(),
        bits_grow(*old(efs), *final(efs)),
        r is None ==> !can_alloc(*final(efs)),
        final(inner).valid == old(inner).valid,
        r matches Some(x) ==> match block_slot_spec(inner_id as int, old(inner).direct@.len() as int) {
            BlockSlot::Direct(i) => direct_post(*old(efs), *final(efs), *old(inner), *final(inner), *old(ind), *final(ind), i as int, x),
            BlockSlot::Indirect1(i) => indirect1_post(*old(efs), *final(efs), *old(inner), *final(inner), *old(ind), *final(ind), i as int, x),
            BlockSlot::Indirect2(a, b) => indirect2_post(*old(efs), *final(efs), *old(inner), *final(inner), *old(ind), *final(ind), a as int, b as int, x),
        },
{
    let ghost e0 = *efs;
    let ghost i0 = *inner;
    let ghost n0 = *ind;
    proof {
        assert(bits_grow(e0, e0));
    }
    match block_slot(inner_id, inner.direct.len()) {
        BlockSlot::Direct(i) => {
            let p = match fill(efs, inner.direct[i], Ghost(e0)) {
                Some(p) => p,
                None => return None,
            };
            inner.direct.set(i, p);
            assert(inner.direct@ =~= i0.direct@.update(i as int, inner.direct@[i as int]));
            Some(p)
        },
        BlockSlot::Indirect1(i) => {
            let fresh1 = inner.indirect1 == 0;
            let p1 = match fill(efs, inner.indirect1, Ghost(e0)) {
                Some(p) => p,
                None => return None,
            };
            inner.indirect1 = p1;
            if fresh1 {
                ind.indirect1 = vec![0u32; 128];
            }
            let p = match fill(efs, ind.indirect1[i], Ghost(e0)) {
                Some(p) => p,
                None => return None,
            };
            ind.indirect1.set(i, p);
            Some(p)
        },
        BlockSlot::Indirect2(a, b) => {
            let fresh2 = inner.indirect2 == 0;
            let p2 = match fill(efs, inner.indirect2, Ghost(e0)) {
                Some(p) => p,
                None => return None,
            };
            inner.indirect2 = p2;
            if fresh2 {
                ind.indirect2 = vec![0u32; 128];
            }
            let fresh1 = ind.indirect2[a] == 0;
            let p1 = match fill(efs, ind.indirect2[a], Ghost(e0)) {
                Some(p) => p,
                None => return None,
            };
            ind.indirect2.set(a, p1);
            if fresh1 {
                ind.level2.set(a, vec![0u32; 128]);
            }
            let mut child = ind.level2[a].clone();
            assert(child@ =~= ind.level2@[a as int]@);
            let p = match fill(efs, child[b], Ghost(e0)) {
                Some(p) => p,
                None => return None,
            };
            child.set(b, p);
            ind.level2.set(a, child);
            Some(p)
        },
    }
}

} // verus!
