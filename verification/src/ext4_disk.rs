//! The disk under the ext4 file system, and how a byte range of the disk is
//! cut into pieces of its sectors.
use vstd::prelude::*;

verus! {

/// The device that holds an ext4 file system.
pub struct Ext4Disk<D> {
    pub dev: D,
}

impl<D> Ext4Disk<D> {
    pub fn new(dev: D) -> (r: Self)
        ensures
            r.dev == dev,
    {
        Ext4Disk { dev }
    }
}

/// One piece of a transfer: `len` bytes at `block_off` in sector
/// `block_id`, to or from `buf_off` in the caller's buffer.
#[derive(Clone, Copy, Debug, PartialEq, Eq, Structural)]
pub struct BlockChunk {
    pub block_id: usize,
    pub block_off: usize,
    pub buf_off: usize,
    pub len: usize,
}

/// Bytes moved before piece `k` of a transfer of `len` bytes from
/// `offset` over sectors of `sz` bytes, capped at `len`: the first piece
/// runs to the end of its sector, each later one is a whole sector.
pub open spec fn done_before(offset: usize, len: usize, sz: usize, k: int) -> int {
    if k <= 0 {
        0
    } else {
        let full = (sz - offset % sz) + (k - 1) * sz;
        if full < len {
            full
        } else {
            len as int
        }
    }
}

/// Piece `k` of the transfer. The sector of every piece is the start
/// sector plus the bytes moved before it, in whole sectors.
pub open spec fn chunk_at(offset: usize, len: usize, sz: usize, k: int) -> BlockChunk {
    let done = done_before(offset, len, sz, k);
    let room = if k == 0 {
        sz - offset % sz
    } else {
        sz as int
    };
    BlockChunk {
        block_id: (offset / sz + done / (sz as int)) as usize,
        block_off: if k == 0 {
            offset % sz
        } else {
            0
        },
        buf_off: done as usize,
        len: (if len - done < room {
            len - done
        } else {
            room
        }) as usize,
    }
}

/// The pieces of a transfer of `len` bytes starting at byte `offset` of a
/// disk of sectors of `sz` bytes, in order, until all bytes are covered.
pub fn disk_chunks(offset: usize, len: usize, sz: usize) -> (r: Vec<BlockChunk>)
    requires
        sz > 0,
        offset / sz + len / sz + 1 <= usize::MAX,
    ensures
        forall|k: int| 0 <= k < r@.len() ==> r@[k] == chunk_at(offset, len, sz, k),
        forall|k: int| 0 <= k < r@.len() ==> done_before(offset, len, sz, k) < len,
        done_before(offset, len, sz, r@.len() as int) >= len,
{
    let start_block = offset / sz;
    let mut block_off = offset % sz;
    let mut done: usize = 0;
    let mut chunks: Vec<BlockChunk> = Vec::new();
    let ghost mut k: int = 0;
    while done < len
        invariant
            sz > 0,
            start_block == offset / sz,
            offset / sz + len / sz + 1 <= usize::MAX,
            0 <= k,
            chunks@.len() == k,
            done == done_before(offset, len, sz, k),
            done <= len,
            block_off == if k == 0 {
                offset % sz
            } else {
                0
            },
            block_off < sz,
            forall|q: int| 0 <= q < k ==> chunks@[q] == chunk_at(offset, len, sz, q),
            forall|q: int| 0 <= q < k ==> done_before(offset, len, sz, q) < len,
        decreases len - done,
    {
        let room = sz - block_off;
        let n = if len - done < room {
            len - done
        } else {
            room
        };
        assert(done / sz <= len / sz) by (nonlinear_arith)
            requires
                done <= len,
                sz > 0,
        ;
        let c = BlockChunk { block_id: start_block + done / sz, block_off, buf_off: done, len: n };
        proof {
            assert(c == chunk_at(offset, len, sz, k));
            if k > 0 {
                assert((sz - offset % sz) + k * sz == (sz - offset % sz) + (k - 1) * sz + sz) by (nonlinear_arith);
            }
        }
        chunks.push(c);
        done = done + n;
        block_off = 0;
        proof {
            k = k + 1;
        }
    }
    chunks
}

} // verus!
