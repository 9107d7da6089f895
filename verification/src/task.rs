//! Per-task state that is plain data: the scheduling status and the mmap
//! bookkeeping of a task, with the file descriptors behind its mappings.
use vstd::prelude::*;
use crate::config::{KERNEL_STACK_SIZE, USER_MMAP_TOP, USER_STACK_TOP};
use crate::addr::PAGE_SIZE;
use crate::memory_set::{find_free_block, first_fit, take_block};
pub use crate::memory_set::MapFreeControl;

verus! {

/// Scheduling state of a task.
#[derive(Clone, Copy, Debug, PartialEq, Eq, Structural)]
pub enum TaskStatus {
    Ready,
    Running,
    Zombie,
    Blocked,
}

/// A file mapping: the descriptor, the mapped length, and where it starts.
#[derive(Clone, Copy, Debug, PartialEq, Eq, Structural)]
pub struct MapFdControl {
    pub fd: usize,
    pub len: usize,
    pub start_va: usize,
}

/// The first file mapping in `maps` that starts at `start`, if any.
pub open spec fn first_at(maps: Seq<MapFdControl>, start: usize) -> Option<int> {
    if exists|i: int| 0 <= i < maps.len() && maps[i].start_va == start {
        Some(
            choose|i: int|
                0 <= i < maps.len() && maps[i].start_va == start && forall|j: int|
                    0 <= j < i ==> #[trigger] maps[j].start_va != start,
        )
    } else {
        None
    }
}

proof fn lemma_first_at(maps: Seq<MapFdControl>, start: usize, w: int)
    requires
        0 <= w < maps.len(),
        maps[w].start_va == start,
    ensures
        exists|i: int|
            0 <= i < maps.len() && maps[i].start_va == start && forall|j: int|
                0 <= j < i ==> #[trigger] maps[j].start_va != start,
    decreases w,
{
    if forall|j: int| 0 <= j < w ==> #[trigger] maps[j].start_va != start {
        assert(0 <= w < maps.len() && maps[w].start_va == start);
    } else {
        let j = choose|j: int| 0 <= j < w && !(#[trigger] maps[j].start_va != start);
        lemma_first_at(maps, start, j);
    }
}

/// The mmap state of a task: top of the mmap region, its file mappings and
/// the freed blocks below the top.
#[derive(Clone)]
pub struct MapAreaControl {
    pub mmap_top: usize,
    pub mapfd: Vec<MapFdControl>,
    pub mapfreeblock: Vec<MapFreeControl>,
}

impl MapAreaControl {
    pub fn new() -> (r: Self)
        ensures
            r.mmap_top == USER_MMAP_TOP,
            r.mapfd@ == Seq::<MapFdControl>::empty(),
            r.mapfreeblock@ == Seq::<MapFreeControl>::empty(),
    {
        MapAreaControl { mmap_top: USER_MMAP_TOP, mapfd: Vec::new(), mapfreeblock: Vec::new() }
    }

    /// The start of the first free block with at least `num` pages, which
    /// loses those pages; 0 if there is none.
    pub fn find_block(&mut self, num: usize) -> (r: usize)
        ensures
            final(self).mmap_top == old(self).mmap_top,
            final(self).mapfd@ == old(self).mapfd@,
            match first_fit(old(self).mapfreeblock@, num) {
                Some(i) => r == old(self).mapfreeblock@[i].start_va && final(self).mapfreeblock@
                    == take_block(old(self).mapfreeblock@, i, num),
                None => r == 0 && final(self).mapfreeblock@ == old(self).mapfreeblock@,
            },
    {
        find_free_block(&mut self.mapfreeblock, num)
    }

    /// Forgets the first file mapping that starts at `start`: stores its
    /// length in `len` and returns its descriptor; -1 (and `len` untouched)
    /// when there is none.
    pub fn find_fd(&mut self, start: usize, len: &mut usize) -> (r: isize)
        ensures
            final(self).mmap_top == old(self).mmap_top,
            final(self).mapfreeblock@ == old(self).mapfreeblock@,
            match first_at(old(self).mapfd@, start) {
                Some(i) => r == old(self).mapfd@[i].fd as isize && *final(len) == old(self).mapfd@[i].len
                    && final(self).mapfd@ == old(self).mapfd@.update(i, old(self).mapfd@.last()).drop_last(),
                None => r == -1 && *final(len) == *old(len) && final(self).mapfd@ == old(self).mapfd@,
            },
    {
        let ghost pre = self.mapfd@;
        let mut i: usize = 0;
        while i < self.mapfd.len()
            invariant
                self.mapfd@ == pre,
                pre == old(self).mapfd@,
                self.mmap_top == old(self).mmap_top,
                self.mapfreeblock@ == old(self).mapfreeblock@,
                *len == *old(len),
                0 <= i <= self.mapfd.len(),
                forall|j: int| 0 <= j < i ==> #[trigger] pre[j].start_va != start,
            decreases self.mapfd.len() - i,
        {
            if start == self.mapfd[i].start_va {
                proof {
                    lemma_first_at(pre, start, i as int);
                }
                *len = self.mapfd[i].len;
                return self.mapfd.swap_remove(i).fd as isize;
            }
            i = i + 1;
        }
        return -1;
    }
}


/// Pages needed for `len` bytes.
pub open spec fn page_count(len: usize) -> usize {
    if (len / PAGE_SIZE) * PAGE_SIZE == len {
        len / PAGE_SIZE
    } else {
        (len / PAGE_SIZE + 1) as usize
    }
}

fn pages_for(len: usize) -> (r: usize)
    ensures
        r == page_count(len),
        r * PAGE_SIZE <= len + PAGE_SIZE,
{
    let mut num = len / PAGE_SIZE;
    assert(num * PAGE_SIZE <= len) by (nonlinear_arith)
        requires
            num == len / PAGE_SIZE,
    ;
    if num * PAGE_SIZE != len {
        num = num + 1;
    }
    num
}

/// Whether an `mmap` of `len` bytes at file offset `off` goes ahead (it
/// fails with -1 otherwise): the length must not be 0, the offset must be 0,
/// and the descriptor must name an open file that can be read
/// (`file_readable`: `None` when the descriptor is out of the table or
/// empty, else whether its file is readable).
pub fn mmap_args_ok(len: usize, off: i32, file_readable: Option<bool>) -> (r: bool)
    ensures
        r == (len != 0 && off == 0 && file_readable == Some(true)),
{
    if len == 0 || off != 0 {
        return false;
    }
    match file_readable {
        Some(readable) => readable,
        None => false,
    }
}

impl MapAreaControl {
    /// Places a mapping of `len` bytes of file `fd` (`len` at least 1):
    /// in the first free block with enough pages, else (or when that block
    /// starts at 0) at the top of the mmap region, which then moves up by
    /// the pages taken. `None` when the mapping would reach
    /// `USER_STACK_TOP`; a free block taken stays taken then. On success the
    /// mapping is recorded with its descriptor.
    pub fn mmap_place(&mut self, len: usize, fd: usize) -> (r: Option<usize>)
        requires
            len >= 1,
            old(self).mmap_top + len + PAGE_SIZE <= usize::MAX,
        ensures
            ({
                let num = page_count(len);
                let fit = first_fit(old(self).mapfreeblock@, num);
                let found: usize = match fit {
                    Some(i) => old(self).mapfreeblock@[i].start_va,
                    None => 0,
                };
                let start: usize = if found == 0 { old(self).mmap_top } else { found };
                &&& final(self).mapfreeblock@ == match fit {
                    Some(i) => take_block(old(self).mapfreeblock@, i, num),
                    None => old(self).mapfreeblock@,
                }
                &&& len + start >= USER_STACK_TOP ==> {
                    &&& r is None
                    &&& final(self).mmap_top == old(self).mmap_top
                    &&& final(self).mapfd@ == old(self).mapfd@
                }
                &&& len + start < USER_STACK_TOP ==> {
                    &&& r == Some(start)
                    &&& final(self).mmap_top == if found == 0 {
                        old(self).mmap_top + num * PAGE_SIZE
                    } else {
                        old(self).mmap_top as int
                    }
                    &&& final(self).mapfd@ == old(self).mapfd@.push(MapFdControl { fd, len, start_va: start })
                }
            }),
    {
        let num = pages_for(len);
        let mut start = find_free_block(&mut self.mapfreeblock, num);
        let mut move_top = false;
        if start == 0 {
            start = self.mmap_top;
            move_top = true;
        }
        if start >= USER_STACK_TOP || len >= USER_STACK_TOP - start {
            return None;
        }
        if move_top {
            self.mmap_top = self.mmap_top + num * PAGE_SIZE;
        }
        self.mapfd.push(MapFdControl { fd, len, start_va: start });
        Some(start)
    }
}


impl MapAreaControl {
    /// The checks of `munmap` at `start`, in order: -1 for an address that
    /// is not page aligned, -2 for one at or above the mmap top, -3 when no
    /// mapping starts there (or its descriptor, as a signed number, is
    /// negative); else its descriptor and length are returned. A mapping
    /// found is forgotten.
    pub fn munmap_lookup(&mut self, start: usize) -> (r: Result<(isize, usize), isize>)
        ensures
            start % PAGE_SIZE != 0 ==> r == Err::<(isize, usize), isize>(-1isize) && *final(self) == *old(self),
            start % PAGE_SIZE == 0 && old(self).mmap_top <= start ==> r == Err::<(isize, usize), isize>(-2isize)
                && *final(self) == *old(self),
            start % PAGE_SIZE == 0 && old(self).mmap_top > start ==> match first_at(old(self).mapfd@, start) {
                Some(i) => r == (if (old(self).mapfd@[i].fd as isize) < 0 {
                    Err::<(isize, usize), isize>(-3isize)
                } else {
                    Ok::<(isize, usize), isize>((old(self).mapfd@[i].fd as isize, old(self).mapfd@[i].len))
                }) && final(self).mmap_top == old(self).mmap_top && final(self).mapfreeblock@ == old(
                    self,
                ).mapfreeblock@ && final(self).mapfd@ == old(self).mapfd@.update(i, old(self).mapfd@.last()).drop_last(),
                None => r == Err::<(isize, usize), isize>(-3isize) && final(self).mmap_top == old(self).mmap_top
                    && final(self).mapfreeblock@ == old(self).mapfreeblock@ && final(self).mapfd@ == old(
                    self,
                ).mapfd@,
            },
    {
        if start / PAGE_SIZE * PAGE_SIZE != start {
            assert(start / PAGE_SIZE * PAGE_SIZE != start ==> start % PAGE_SIZE != 0) by (nonlinear_arith);
            return Err(-1);
        }
        assert(start / PAGE_SIZE * PAGE_SIZE == start ==> start % PAGE_SIZE == 0) by (nonlinear_arith);
        if self.mmap_top <= start {
            return Err(-2);
        }
        let mut len: usize = 0;
        let fd = self.find_fd(start, &mut len);
        if fd < 0 {
            return Err(-3);
        }
        Ok((fd, len))
    }
}


/// The kernel stack of a task: `KERNEL_STACK_SIZE` bytes of zeroed 16-byte
/// words.
pub struct KernelStack {
    pub inner: std::sync::Arc<Vec<u128>>,
}

impl KernelStack {
    pub fn new() -> (r: Self)
        ensures
            r.inner@.len() * 16 == KERNEL_STACK_SIZE,
            forall|i: int| 0 <= i < r.inner@.len() ==> r.inner@[i] == 0,
    {
        let v: Vec<u128> = vec![0u128; KERNEL_STACK_SIZE / 16];
        KernelStack { inner: std::sync::Arc::new(v) }
    }

    /// The bounds of the stack whose lowest word is at address `bottom`:
    /// from `bottom` up to `KERNEL_STACK_SIZE` bytes above it.
    pub fn get_position(&self, bottom: usize) -> (r: (usize, usize))
        requires
            bottom + KERNEL_STACK_SIZE <= usize::MAX,
        ensures
            r == (bottom, (bottom + KERNEL_STACK_SIZE) as usize),
    {
        (bottom, bottom + KERNEL_STACK_SIZE)
    }
}


/// A mapping recorded at the end of the file mappings, where none began at
/// `start` before, is the one that `munmap_lookup(start)` finds.
pub proof fn lemma_placed_mapping_found(maps: Seq<MapFdControl>, m: MapFdControl)
    requires
        first_at(maps, m.start_va) is None,
    ensures
        first_at(maps.push(m), m.start_va) == Some(maps.len() as int),
{
    let s = maps.push(m);
    lemma_first_at(s, m.start_va, maps.len() as int);
    let k = first_at(s, m.start_va)->Some_0;
    if k < maps.len() {
        assert(s[k] == maps[k]);
    }
}

} // verus!
