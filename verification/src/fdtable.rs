//! The per-process file-descriptor table.
use vstd::prelude::*;
use crate::config::{RLimit, MAX_FD};
use crate::error::{SysError, SysResult};

verus! {

/// `O_CLOEXEC` in the flags of `open`.
pub const O_CLOEXEC: u32 = 0o2000000;

pub const FD_CLOEXEC: u8 = 1;

/// Flags of one descriptor.
#[derive(Clone, Copy, Debug, PartialEq, Eq, Structural)]
pub struct FdFlags {
    pub bits: u8,
}

#[allow(non_snake_case)]
impl FdFlags {
    pub fn empty() -> (r: Self)
        ensures
            r.bits == 0,
    {
        FdFlags { bits: 0 }
    }

    /// Close the descriptor on `exec`.
    pub fn CLOEXEC() -> (r: Self)
        ensures
            r.bits == FD_CLOEXEC,
    {
        FdFlags { bits: FD_CLOEXEC }
    }

    /// Close-on-exec exactly when the open flags ask for it.
    pub fn from_open_flags(open_flags: u32) -> (r: Self)
        ensures
            r.bits == (if open_flags & O_CLOEXEC == O_CLOEXEC { FD_CLOEXEC } else { 0 }),
    {
        if open_flags & O_CLOEXEC == O_CLOEXEC {
            FdFlags::CLOEXEC()
        } else {
            FdFlags::empty()
        }
    }
}

/// An open descriptor: an open file and the descriptor's flags.
pub struct Fd<F> {
    pub flags: FdFlags,
    pub file: F,
}

impl<F: Clone> Fd<F> {
    pub fn new(file: F, flags: FdFlags) -> (r: Self)
        ensures
            r.file == file,
            r.flags == flags,
    {
        Fd { flags, file }
    }

    /// Another handle to the open file.
    pub fn file(&self) -> (r: F)
        ensures
            cloned(self.file, r),
    {
        self.file.clone()
    }

    pub fn get_flags(&self) -> (r: FdFlags)
        ensures
            r == self.flags,
    {
        self.flags
    }

    pub fn set_flags(&mut self, flags: FdFlags)
        ensures
            final(self).flags == flags,
            final(self).file == old(self).file,
    {
        self.flags = flags;
    }
}

/// Whether `b` is a copy of `a` that keeps the flags and holds a clone of the file.
pub open spec fn fd_copied<F: Clone>(a: Fd<F>, b: Fd<F>) -> bool {
    a.flags == b.flags && cloned(a.file, b.file)
}

/// Every slot in `lo..hi` holds an open descriptor.
pub open spec fn all_used<F>(s: Seq<Option<Fd<F>>>, lo: int, hi: int) -> bool {
    forall|j: int| lo <= j < hi ==> #[trigger] s[j] is Some
}

/// The descriptor that `alloc_fd_from(start)` picks in table `s` under limit
/// `max`: the lowest free slot at or after `start`, or else one new slot at the
/// end while the table is below the limit.
pub open spec fn alloc_from_spec<F>(s: Seq<Option<Fd<F>>>, start: int, max: int) -> Option<int> {
    if exists|i: int| start <= i < s.len() && s[i] is None {
        Some(choose|i: int| start <= i < s.len() && s[i] is None && all_used(s, start, i))
    } else if s.len() < max {
        Some(s.len() as int)
    } else {
        None
    }
}

/// What `alloc_from_spec` picks: a free slot in range with only used slots
/// before it from `start` on, or the new slot at the end of a table that is
/// full from `start` on and below its limit; nothing when full at the limit.
pub proof fn lemma_alloc_from_spec<F>(s: Seq<Option<Fd<F>>>, start: int, max: int)
    requires
        0 <= start,
    ensures
        match alloc_from_spec(s, start, max) {
            Some(i) => (start <= i < s.len() && s[i] is None && all_used(s, start, i)) || (i
                == s.len() && all_used(s, start, s.len() as int) && s.len() < max),
            None => all_used(s, start, s.len() as int) && s.len() >= max,
        },
{
    if exists|i: int| start <= i < s.len() && s[i] is None {
        let w = choose|i: int| start <= i < s.len() && s[i] is None;
        lemma_lowest_free(s, start, w);
    }
}

proof fn lemma_lowest_free<F>(s: Seq<Option<Fd<F>>>, start: int, w: int)
    requires
        start <= w < s.len(),
        s[w] is None,
    ensures
        exists|i: int| start <= i < s.len() && s[i] is None && all_used(s, start, i),
    decreases w - start,
{
    if all_used(s, start, w) {
        assert(start <= w < s.len() && s[w] is None && all_used(s, start, w));
    } else {
        let j = choose|j: int| start <= j < w && !(s[j] is Some);
        lemma_lowest_free(s, start, j);
    }
}

/// Whether slot `b` is a copy of slot `a`: both empty, or both open with `b`
/// a copy of `a`.
pub open spec fn slot_copied<F: Clone>(a: Option<Fd<F>>, b: Option<Fd<F>>) -> bool {
    match (a, b) {
        (None, None) => true,
        (Some(x), Some(y)) => fd_copied(x, y),
        _ => false,
    }
}

/// The file-descriptor table of a process, with its descriptor limit.
pub struct FdTable<F> {
    pub fd_table: Vec<Option<Fd<F>>>,
    pub fd_table_rlimit: RLimit,
}

impl<F: Clone> FdTable<F> {
    /// The slots of the table.
    pub open spec fn slots(&self) -> Seq<Option<Fd<F>>> {
        self.fd_table@
    }

    /// A table holding standard input, output and error at 0, 1 and 2, with
    /// the default limit.
    pub fn new(stdin: F, stdout: F, stderr: F) -> (r: Self)
        ensures
            r.slots() == seq![
                Some(Fd { flags: FdFlags { bits: 0 }, file: stdin }),
                Some(Fd { flags: FdFlags { bits: 0 }, file: stdout }),
                Some(Fd { flags: FdFlags { bits: 0 }, file: stderr }),
            ],
            r.fd_table_rlimit == (RLimit { rlimit_cur: MAX_FD, rlimit_max: MAX_FD }),
    {
        let mut fd_table: Vec<Option<Fd<F>>> = Vec::new();
        fd_table.push(Some(Fd::new(stdin, FdFlags::empty())));
        fd_table.push(Some(Fd::new(stdout, FdFlags::empty())));
        fd_table.push(Some(Fd::new(stderr, FdFlags::empty())));
        FdTable { fd_table, fd_table_rlimit: RLimit { rlimit_cur: MAX_FD, rlimit_max: MAX_FD } }
    }

    /// The lowest free descriptor, or a new one at the end if the table is
    /// below its limit.
    pub fn alloc_fd(&mut self) -> (r: SysResult<usize>)
        ensures
            final(self).fd_table_rlimit == old(self).fd_table_rlimit,
            match alloc_from_spec(old(self).slots(), 0, old(self).fd_table_rlimit.rlimit_max as int) {
                Some(i) => r == Ok::<usize, SysError>(i as usize) && if i < old(self).slots().len() {
                    final(self).slots() == old(self).slots()
                } else {
                    final(self).slots() == old(self).slots().push(None)
                },
                None => r == Err::<usize, SysError>(SysError::EMFILE) && final(self).slots()
                    == old(self).slots(),
            },
    {
        let len = self.fd_table.len();
        let mut i: usize = 0;
        while i < len
            invariant
                0 <= i <= len,
                len == self.fd_table.len(),
                all_used(self.fd_table@, 0, i as int),
            decreases len - i,
        {
            if self.fd_table[i].is_none() {
                proof {
                    assert(self.fd_table@[i as int] is None);
                }
                return Ok(i);
            }
            i = i + 1;
        }
        if self.fd_table.len() < self.fd_table_rlimit.rlimit_max {
            self.fd_table.push(None);
            Ok(self.fd_table.len() - 1)
        } else {
            Err(SysError::EMFILE)
        }
    }

    /// The lowest free descriptor at or after `start`, or a new one at the end
    /// (whatever `start` is) if the table is below its limit.
    pub fn alloc_fd_from(&mut self, start: usize) -> (r: Option<usize>)
        ensures
            final(self).fd_table_rlimit == old(self).fd_table_rlimit,
            match alloc_from_spec(
                old(self).slots(),
                start as int,
                old(self).fd_table_rlimit.rlimit_max as int,
            ) {
                Some(i) => r == Some(i as usize) && if i < old(self).slots().len() {
                    final(self).slots() == old(self).slots()
                } else {
                    final(self).slots() == old(self).slots().push(None)
                },
                None => r is None && final(self).slots() == old(self).slots(),
            },
    {
        let len = self.fd_table.len();
        let mut i: usize = start;
        if i < len {
            while i < len
                invariant
                    start <= i <= len,
                    len == self.fd_table.len(),
                    all_used(self.fd_table@, start as int, i as int),
                decreases len - i,
            {
                if self.fd_table[i].is_none() {
                    proof {
                        assert(self.fd_table@[i as int] is None);
                    }
                    return Some(i);
                }
                i = i + 1;
            }
        }
        if self.fd_table.len() < self.fd_table_rlimit.rlimit_max {
            self.fd_table.push(None);
            return Some(self.fd_table.len() - 1);
        } else {
            return None;
        }
    }

    /// Another handle to the file open at `fd`.
    pub fn get_file(&self, fd: usize) -> (r: SysResult<F>)
        ensures
            fd < self.slots().len() && self.slots()[fd as int] is Some <==> r is Ok,
            r matches Ok(f) ==> cloned(self.slots()[fd as int]->Some_0.file, f),
            r matches Err(e) ==> e == SysError::EBADF,
    {
        if fd >= self.fd_table.len() {
            Err(SysError::EBADF)
        } else {
            match &self.fd_table[fd] {
                Some(d) => Ok(d.file()),
                None => Err(SysError::EBADF),
            }
        }
    }

    /// A new descriptor, the lowest free one, for the file open at `old_fd`,
    /// without flags.
    pub fn dup(&mut self, old_fd: usize) -> (r: SysResult<isize>)
        ensures
            final(self).fd_table_rlimit == old(self).fd_table_rlimit,
            !(old_fd < old(self).slots().len() && old(self).slots()[old_fd as int] is Some) ==> r
                == Err::<isize, SysError>(SysError::EBADF) && final(self).slots() == old(
                self,
            ).slots(),
            old_fd < old(self).slots().len() && old(self).slots()[old_fd as int] is Some ==> match alloc_from_spec(
                old(self).slots(),
                0,
                old(self).fd_table_rlimit.rlimit_max as int,
            ) {
                Some(i) => r == Ok::<isize, SysError>(i as isize) && final(self).slots().len()
                    == (if i < old(self).slots().len() {
                    old(self).slots().len() as int
                } else {
                    i + 1
                }) && (forall|j: int|
                    0 <= j < old(self).slots().len() && j != i ==> final(self).slots()[j] == old(
                        self,
                    ).slots()[j]) && final(self).slots()[i] is Some && final(self).slots()[i]->Some_0.flags
                    == FdFlags { bits: 0 } && cloned(
                    old(self).slots()[old_fd as int]->Some_0.file,
                    final(self).slots()[i]->Some_0.file,
                ),
                None => r == Err::<isize, SysError>(SysError::EMFILE) && final(self).slots() == old(
                    self,
                ).slots(),
            },
    {
        if old_fd >= self.fd_table.len() {
            return Err(SysError::EBADF);
        }
        let file = match self.get_file(old_fd) {
            Ok(f) => f,
            Err(e) => return Err(e),
        };
        let ghost before = self.slots();
        assert(before == old(self).slots());
        let new_fd = match self.alloc_fd() {
            Ok(n) => n,
            Err(e) => return Err(e),
        };
        proof {
            lemma_alloc_from_spec(before, 0, old(self).fd_table_rlimit.rlimit_max as int);
        }
        self.fd_table.set(new_fd, Some(Fd::new(file, FdFlags::empty())));
        return Ok(new_fd as isize);
    }

    /// A new descriptor for the file open at `old_fd`, the lowest free one at
    /// or after `arg`, with close-on-exec if `flags` ask for it.
    pub fn dup_with_arg(&mut self, old_fd: usize, arg: usize, flags: u32) -> (r: SysResult<isize>)
        ensures
            final(self).fd_table_rlimit == old(self).fd_table_rlimit,
            !(old_fd < old(self).slots().len() && old(self).slots()[old_fd as int] is Some) ==> r
                == Err::<isize, SysError>(SysError::EBADF) && final(self).slots() == old(
                self,
            ).slots(),
            old_fd < old(self).slots().len() && old(self).slots()[old_fd as int] is Some ==> match alloc_from_spec(
                old(self).slots(),
                arg as int,
                old(self).fd_table_rlimit.rlimit_max as int,
            ) {
                Some(i) => r == Ok::<isize, SysError>(i as isize) && final(self).slots().len()
                    == (if i < old(self).slots().len() {
                    old(self).slots().len() as int
                } else {
                    i + 1
                }) && (forall|j: int|
                    0 <= j < old(self).slots().len() && j != i ==> final(self).slots()[j] == old(
                        self,
                    ).slots()[j]) && final(self).slots()[i] is Some && final(self).slots()[i]->Some_0.flags
                    == FdFlags {
                    bits: if flags & O_CLOEXEC == O_CLOEXEC {
                        FD_CLOEXEC
                    } else {
                        0
                    },
                } && cloned(
                    old(self).slots()[old_fd as int]->Some_0.file,
                    final(self).slots()[i]->Some_0.file,
                ),
                None => r == Err::<isize, SysError>(SysError::ENFILE) && final(self).slots() == old(
                    self,
                ).slots(),
            },
    {
        if old_fd >= self.fd_table.len() {
            return Err(SysError::EBADF);
        }
        let file = match self.get_file(old_fd) {
            Ok(f) => f,
            Err(e) => return Err(e),
        };
        let ghost before = self.slots();
        proof {
            lemma_alloc_from_spec(before, arg as int, old(self).fd_table_rlimit.rlimit_max as int);
        }
        if let Some(new_fd) = self.alloc_fd_from(arg) {
            self.fd_table.set(new_fd, Some(Fd::new(file, FdFlags::from_open_flags(flags))));
            return Ok(new_fd as isize);
        }
        return Err(SysError::ENFILE);
    }

    /// Makes `new` refer to the file open at `old`, with the same flags,
    /// closing whatever `new` held and growing the table up to `new` if needed.
    /// When `old` and `new` are equal, nothing changes and `new` is returned.
    pub fn dup3(&mut self, oldfd: usize, newfd: usize, _flags: usize) -> (r: SysResult<isize>)
        ensures
            final(self).fd_table_rlimit == old(self).fd_table_rlimit,
            oldfd == newfd ==> r == Ok::<isize, SysError>(newfd as isize) && final(self).slots() == old(
                self,
            ).slots(),
            oldfd != newfd && !(oldfd < old(self).slots().len() && old(self).slots()[oldfd as int] is Some)
                ==> r == Err::<isize, SysError>(SysError::EBADF) && final(self).slots() == old(
                self,
            ).slots(),
            oldfd != newfd && oldfd < old(self).slots().len() && old(self).slots()[oldfd as int] is Some
                ==> r == Ok::<isize, SysError>(newfd as isize) && final(self).slots().len() == (if newfd
                < old(self).slots().len() {
                old(self).slots().len() as int
            } else {
                newfd + 1
            }) && (forall|j: int|
                0 <= j < old(self).slots().len() && j != newfd ==> final(self).slots()[j] == old(
                    self,
                ).slots()[j]) && (forall|j: int|
                old(self).slots().len() <= j < newfd ==> final(self).slots()[j] is None)
                && final(self).slots()[newfd as int] is Some && fd_copied(
                old(self).slots()[oldfd as int]->Some_0,
                final(self).slots()[newfd as int]->Some_0,
            ),
    {
        if oldfd == newfd {
            return Ok(newfd as isize);
        }
        if oldfd >= self.fd_table.len() {
            return Err(SysError::EBADF);
        }
        let copy = match &self.fd_table[oldfd] {
            Some(fd) => Fd::new(fd.file(), fd.flags),
            None => return Err(SysError::EBADF),
        };
        let ghost before = self.slots();
        if newfd >= self.fd_table.len() {
            let cnt = newfd - self.fd_table.len() + 1;
            let mut k: usize = 0;
            while k < cnt
                invariant
                    0 <= k <= cnt,
                    cnt == newfd - before.len() + 1,
                    self.fd_table_rlimit == old(self).fd_table_rlimit,
                    self.fd_table@.len() == before.len() + k,
                    forall|j: int| 0 <= j < before.len() ==> self.fd_table@[j] == before[j],
                    forall|j: int| before.len() <= j < self.fd_table@.len() ==> self.fd_table@[j] is None,
                decreases cnt - k,
            {
                self.fd_table.push(None);
                k = k + 1;
            }
        }
        self.fd_table.set(newfd, Some(copy));
        Ok(newfd as isize)
    }

    /// Puts `file` at the descriptor that `alloc_fd` picks.
    pub fn insert(&mut self, file: Option<Fd<F>>) -> (r: SysResult<usize>)
        ensures
            final(self).fd_table_rlimit == old(self).fd_table_rlimit,
            match alloc_from_spec(old(self).slots(), 0, old(self).fd_table_rlimit.rlimit_max as int) {
                Some(i) => r == Ok::<usize, SysError>(i as usize) && final(self).slots() == (if i
                    < old(self).slots().len() {
                    old(self).slots()
                } else {
                    old(self).slots().push(None)
                }).update(i, file),
                None => r == Err::<usize, SysError>(SysError::EMFILE) && final(self).slots()
                    == old(self).slots(),
            },
    {
        proof {
            lemma_alloc_from_spec(self.slots(), 0, self.fd_table_rlimit.rlimit_max as int);
        }
        let ghost before = self.slots();
        assert(before.len() == self.fd_table.len());
        let fd = match self.alloc_fd() {
            Ok(fd) => fd,
            Err(e) => return Err(e),
        };
        let ghost mid = self.slots();
        proof {
            let o = alloc_from_spec(before, 0, self.fd_table_rlimit.rlimit_max as int);
            assert(o is Some);
            assert(0 <= o->Some_0 <= before.len());
            assert(fd as int == o->Some_0);
        }
        self.fd_table.set(fd, file);
        assert(self.slots() == mid.update(fd as int, file));
        Ok(fd)
    }

    /// The descriptor open at `fd`.
    pub fn get(&self, fd: usize) -> (r: SysResult<&Fd<F>>)
        ensures
            fd < self.slots().len() && self.slots()[fd as int] is Some <==> r is Ok,
            r matches Ok(d) ==> *d == self.slots()[fd as int]->Some_0,
            r matches Err(e) ==> e == SysError::EBADF,
    {
        if fd >= self.fd_table.len() {
            Err(SysError::EBADF)
        } else {
            match &self.fd_table[fd] {
                Some(d) => Ok(d),
                None => Err(SysError::EBADF),
            }
        }
    }

    /// Closes `fd`.
    pub fn remove(&mut self, fd: usize) -> (r: SysResult<()>)
        ensures
            final(self).fd_table_rlimit == old(self).fd_table_rlimit,
            fd < old(self).slots().len() && old(self).slots()[fd as int] is Some ==> r is Ok
                && final(self).slots() == old(self).slots().update(fd as int, None),
            !(fd < old(self).slots().len() && old(self).slots()[fd as int] is Some) ==> r
                == Err::<(), SysError>(SysError::EBADF) && final(self).slots() == old(self).slots(),
    {
        if fd >= self.fd_table.len() {
            Err(SysError::EBADF)
        } else if self.fd_table[fd].is_none() {
            Err(SysError::EBADF)
        } else {
            self.fd_table.set(fd, None);
            Ok(())
        }
    }

    /// The descriptor limit.
    pub fn rlimit(&self) -> (r: RLimit)
        ensures
            r == self.fd_table_rlimit,
    {
        self.fd_table_rlimit
    }

    /// Sets the descriptor limit; a table at or above the new hard limit is
    /// cut down to it.
    pub fn set_rlimit(&mut self, rlimit: RLimit)
        ensures
            final(self).fd_table_rlimit == rlimit,
            final(self).slots() == (if rlimit.rlimit_max <= old(self).slots().len() {
                old(self).slots().subrange(0, rlimit.rlimit_max as int)
            } else {
                old(self).slots()
            }),
    {
        self.fd_table_rlimit = rlimit;
        if rlimit.rlimit_max <= self.fd_table.len() {
            self.fd_table.truncate(rlimit.rlimit_max);
        }
    }

    /// The table a forked child gets: a copy of every slot of `table`, each
    /// descriptor at its own number (empty slots stay empty), with the
    /// default limit.
    pub fn from_existed_table(table: &FdTable<F>) -> (r: Self)
        ensures
            r.fd_table_rlimit == (RLimit { rlimit_cur: MAX_FD, rlimit_max: MAX_FD }),
            r.slots().len() == table.slots().len(),
            forall|k: int|
                0 <= k < r.slots().len() ==> slot_copied(table.slots()[k], #[trigger] r.slots()[k]),
    {
        let mut fd_table: Vec<Option<Fd<F>>> = Vec::new();
        let mut i: usize = 0;
        while i < table.fd_table.len()
            invariant
                0 <= i <= table.slots().len(),
                fd_table@.len() == i,
                forall|k: int| 0 <= k < i ==> slot_copied(table.slots()[k], #[trigger] fd_table@[k]),
            decreases table.slots().len() - i,
        {
            let entry = match &table.fd_table[i] {
                Some(fd) => Some(Fd::new(fd.file(), fd.flags)),
                None => None,
            };
            fd_table.push(entry);
            i = i + 1;
        }
        FdTable { fd_table, fd_table_rlimit: RLimit { rlimit_cur: MAX_FD, rlimit_max: MAX_FD } }
    }
}

} // verus!
