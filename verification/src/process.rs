//! What the process system calls decide, on plain values: the caller reads
//! user memory and the clock, looks tasks up, and carries out the result.
use vstd::prelude::*;
use crate::addr::{VirtAddr, VirtPage, PAGE_SIZE};
use crate::config::{Resource, RLimit, USER_STACK_SIZE};
use crate::error::{SysError, SysResult};
use crate::map_area::MapArea;
use crate::memory_set::{
    MapAreaType, MapPermission, MapType, MmapFlags, MAP_PERM_R, MAP_PERM_U, MAP_PERM_W, MAP_PERM_X,
};
use crate::signal::{SignalFlags, MAX_SIG};
use crate::time::{TimeSpec, Tms};
use crate::vpn_range::VPNRange;

verus! {

pub const CLONE_VM: u64 = 0x100;

pub const CLONE_FS: u64 = 0x200;

pub const CLONE_FILES: u64 = 0x400;

pub const CLONE_SIGHAND: u64 = 0x800;

pub const CLONE_PIDFD: u64 = 0x1000;

pub const CLONE_PARENT: u64 = 0x8000;

pub const CLONE_THREAD: u64 = 0x10000;

pub const CLONE_SYSVSEM: u64 = 0x40000;

pub const CLONE_SETTLS: u64 = 0x80000;

pub const CLONE_PARENT_SETTID: u64 = 0x100000;

pub const CLONE_CHILD_CLEARTID: u64 = 0x200000;

pub const CLONE_DETACHED: u64 = 0x400000;

pub const CLONE_UNTRACED: u64 = 0x800000;

pub const CLONE_CHILD_SETTID: u64 = 0x1000000;

pub const CLONE_NEWCGROUP: u64 = 0x2000000;

pub const CLONE_NEWUTS: u64 = 0x4000000;

pub const CLONE_NEWIPC: u64 = 0x8000000;

pub const CLONE_NEWUSER: u64 = 0x10000000;

pub const CLONE_NEWPID: u64 = 0x20000000;

pub const CLONE_NEWNET: u64 = 0x40000000;

pub const CLONE_IO: u64 = 0x80000000;

/// All the flags above together.
pub const CLONE_ALL: u64 = 0xfffd9f00;

/// Flags of `clone`.
#[derive(Clone, Copy, Debug, PartialEq, Eq, Structural)]
pub struct CloneFlags {
    pub bits: u64,
}

impl CloneFlags {
    /// The set with exactly `bits`, if each of them is a known flag.
    pub fn from_bits(bits: u64) -> (r: Option<Self>)
        ensures
            r is Some <==> bits & !CLONE_ALL == 0,
            r matches Some(f) ==> f.bits == bits,
    {
        if bits & !CLONE_ALL == 0 {
            Some(CloneFlags { bits })
        } else {
            None
        }
    }

    /// Whether every flag of `other` is set.
    pub fn contains(&self, other: Self) -> (r: bool)
        ensures
            r == (self.bits & other.bits == other.bits),
    {
        self.bits & other.bits == other.bits
    }
}

/// The flags of a `clone` call: its argument without the low byte (the exit
/// signal); `EINVAL` when a bit above it is no known flag.
pub fn clone_flags(flags: usize) -> (r: SysResult<CloneFlags>)
    ensures
        ((flags as u64) & !0xffu64) & !CLONE_ALL == 0 ==> r == Ok::<CloneFlags, SysError>(
            CloneFlags { bits: (flags as u64) & !0xffu64 },
        ),
        ((flags as u64) & !0xffu64) & !CLONE_ALL != 0 ==> r == Err::<CloneFlags, SysError>(
            SysError::EINVAL,
        ),
{
    match CloneFlags::from_bits(flags as u64 & !0xffu64) {
        Some(f) => Ok(f),
        None => Err(SysError::EINVAL),
    }
}

/// The status a parent reads of a child that exited with `exit_code`: its
/// low byte, shifted into the second byte.
pub fn exit_status(exit_code: i32) -> (r: i32)
    ensures
        r == (exit_code & 0xff) * 256,
        0 <= r < 0x10000,
{
    let low = exit_code & 0xff;
    assert(0 <= low <= 0xff && low << 8 == low * 256) by (bit_vector)
        requires
            low == exit_code & 0xff,
    ;
    low << 8
}

/// The bounds of a task's heap that `brk` moves: the lowest break, the
/// current break, the bottom of the user stack, and the end of the pages
/// already given to the heap.
#[derive(Clone, Copy, Debug, PartialEq, Eq, Structural)]
pub struct HeapBounds {
    pub heap_bottom: usize,
    pub heap_top: usize,
    pub stack_bottom: usize,
    pub max_data_addr: usize,
}

/// Page number of the page that holds `a`.
pub open spec fn floor_page(a: usize) -> int {
    (a / PAGE_SIZE) as int
}

/// Page number of the first page that starts at or above `a`.
pub open spec fn ceil_page(a: usize) -> int {
    (a + PAGE_SIZE - 1) / PAGE_SIZE as int
}

impl HeapBounds {
    /// Whether `brk(new_brk)` asks for more than the pages already given.
    pub open spec fn grows(self, new_brk: usize) -> bool {
        &&& new_brk != 0
        &&& !(self.max_data_addr >= new_brk && new_brk < self.stack_bottom)
        &&& new_brk > self.heap_top
    }

    /// Whether a growing `brk(new_brk)` stays a page below the stack.
    pub open spec fn grows_below_stack(self, new_brk: usize) -> bool {
        self.grows(new_brk) && new_brk < self.stack_bottom - PAGE_SIZE
    }

    /// The end of the pages given to the heap after it grows to `new_brk`:
    /// the old end moved up by whole pages to the page past `new_brk`.
    pub open spec fn grown_max(self, new_brk: usize) -> int {
        self.max_data_addr + PAGE_SIZE * (ceil_page(new_brk) - floor_page(self.max_data_addr))
    }

    /// Whether `brk(new_brk)` can be computed: a growing break needs a
    /// stack at least a page up, and the grown end of the heap pages must
    /// fit a machine word.
    pub fn brk_fits(&self, new_brk: usize) -> (r: bool)
        ensures
            r == ((self.grows(new_brk) ==> self.stack_bottom >= PAGE_SIZE) && (self.grows_below_stack(new_brk)
                ==> self.grown_max(new_brk) <= usize::MAX)),
    {
        let grows = new_brk != 0 && !(self.max_data_addr >= new_brk && new_brk < self.stack_bottom)
            && new_brk > self.heap_top;
        if !grows {
            return true;
        }
        if self.stack_bottom < PAGE_SIZE {
            return false;
        }
        if new_brk >= self.stack_bottom - PAGE_SIZE {
            return true;
        }
        let cur_page = VirtAddr::new(self.max_data_addr).floor();
        let new_page = VirtAddr::new(new_brk).ceil();
        assert(cur_page.0 <= new_page.0) by (nonlinear_arith)
            requires
                cur_page.0 == self.max_data_addr / PAGE_SIZE,
                new_page.0 == (new_brk + PAGE_SIZE - 1) / PAGE_SIZE as int,
                self.max_data_addr < new_brk,
        ;
        let grown = (self.max_data_addr as u128) + (PAGE_SIZE as u128) * ((new_page.0 - cur_page.0) as u128);
        grown <= usize::MAX as u128
    }

    /// Moves the break to `new_brk` and returns the break after the call:
    ///  - 0 asks for the current break;
    ///  - a break within the pages already given (and below the stack) is
    ///    taken as it is;
    ///  - a higher break a page or more below the stack is taken, and the
    ///    heap area from the old end of the pages to it is returned, for the
    ///    caller to add; one closer to the stack leaves the break as it is;
    ///  - a lower break at or above the heap bottom is taken; one below it
    ///    is `ENXIO`.
    pub fn brk<F, T>(&mut self, new_brk: usize) -> (r: (SysResult<usize>, Option<MapArea<F, T>>))
        requires
            old(self).grows(new_brk) ==> old(self).stack_bottom >= PAGE_SIZE,
            old(self).grows_below_stack(new_brk) ==> old(self).grown_max(new_brk) <= usize::MAX,
        ensures
            ({
                let o = *old(self);
                let f = *final(self);
                if new_brk == 0 {
                    r.0 == Ok::<usize, SysError>(o.heap_top) && f == o && r.1 is None
                } else if o.max_data_addr >= new_brk && new_brk < o.stack_bottom {
                    r.0 == Ok::<usize, SysError>(new_brk) && f == (HeapBounds { heap_top: new_brk, ..o })
                        && r.1 is None
                } else if new_brk > o.heap_top {
                    if new_brk >= o.stack_bottom - PAGE_SIZE {
                        r.0 == Ok::<usize, SysError>(o.heap_top) && f == o && r.1 is None
                    } else {
                        &&& r.0 == Ok::<usize, SysError>(new_brk)
                        &&& f == (HeapBounds {
                            heap_top: new_brk,
                            max_data_addr: o.grown_max(new_brk) as usize,
                            ..o
                        })
                        &&& r.1 matches Some(a) && {
                            &&& a.wf()
                            &&& a.vpn_range == (VPNRange {
                                l: VirtPage(floor_page(o.max_data_addr) as usize),
                                r: VirtPage(ceil_page(new_brk) as usize),
                                start: VirtAddr(o.max_data_addr),
                                end: VirtAddr(new_brk),
                            })
                            &&& a.data_frames@.len() == 0
                            &&& a.map_type == MapType::Framed
                            &&& a.map_perm == (MapPermission {
                                bits: MAP_PERM_R | MAP_PERM_U | MAP_PERM_W | MAP_PERM_X,
                            })
                            &&& a.area_type == MapAreaType::Heap
                            &&& a.map_file is None
                            &&& a.mmap_flag == (MmapFlags { bits: 0 })
                        }
                    }
                } else if new_brk == o.heap_top {
                    r.0 == Ok::<usize, SysError>(o.heap_top) && f == o && r.1 is None
                } else if new_brk < o.heap_bottom {
                    r.0 == Err::<usize, SysError>(SysError::ENXIO) && f == o && r.1 is None
                } else {
                    r.0 == Ok::<usize, SysError>(new_brk) && f == (HeapBounds { heap_top: new_brk, ..o })
                        && r.1 is None
                }
            }),
    {
        let cur_brk = self.heap_top;
        if new_brk == 0 {
            return (Ok(cur_brk), None);
        }
        if self.max_data_addr >= new_brk && new_brk < self.stack_bottom {
            self.heap_top = new_brk;
            return (Ok(new_brk), None);
        }
        if new_brk > cur_brk {
            if new_brk >= self.stack_bottom - PAGE_SIZE {
                return (Ok(cur_brk), None);
            }
            let cur_page = VirtAddr::new(self.max_data_addr).floor();
            let new_page = VirtAddr::new(new_brk).ceil();
            assert(cur_page.0 <= new_page.0) by (nonlinear_arith)
                requires
                    cur_page.0 == self.max_data_addr / PAGE_SIZE,
                    new_page.0 == (new_brk + PAGE_SIZE - 1) / PAGE_SIZE as int,
                    self.max_data_addr < new_brk,
            ;
            let page_count = new_page.0 - cur_page.0;
            let area = MapArea::new(
                VirtAddr::new(self.max_data_addr),
                VirtAddr::new(new_brk),
                MapType::Framed,
                MapPermission { bits: MAP_PERM_R | MAP_PERM_U | MAP_PERM_W | MAP_PERM_X },
                MapAreaType::Heap,
            );
            assert(PAGE_SIZE * page_count <= usize::MAX - self.max_data_addr);
            self.max_data_addr = self.max_data_addr + PAGE_SIZE * page_count;
            self.heap_top = new_brk;
            return (Ok(new_brk), Some(area));
        } else if new_brk == cur_brk {
            return (Ok(cur_brk), None);
        } else {
            if new_brk < self.heap_bottom {
                return (Err(SysError::ENXIO), None);
            }
            self.heap_top = new_brk;
            return (Ok(new_brk), None);
        }
    }
}

/// How long `nanosleep` sleeps, in nanoseconds: `sec * 10^9 + usec`;
/// `EINVAL` when the sub-second part is above 99999999.
pub fn nanosleep_duration(ts: &TimeSpec) -> (r: SysResult<usize>)
    requires
        ts.usec <= 99999999 ==> ts.sec * 1_000_000_000 + ts.usec <= usize::MAX,
    ensures
        ts.usec > 99999999 ==> r == Err::<usize, SysError>(SysError::EINVAL),
        ts.usec <= 99999999 ==> r == Ok::<usize, SysError>((ts.sec * 1_000_000_000 + ts.usec) as usize),
{
    if ts.usec > 99999999 {
        return Err(SysError::EINVAL);
    }
    Ok(ts.sec * 1000000000 + ts.usec)
}

/// Whether a sleep of `total` that began at `start` goes on at `now`.
pub fn still_sleeping(start: usize, now: usize, total: usize) -> (r: bool)
    requires
        start <= now,
    ensures
        r == (now - start < total),
{
    now - start < total
}

pub const CLOCK_REALTIME: usize = 0;

pub const CLOCK_MONOTONIC: usize = 1;

pub const TIMER_ABSTIME: usize = 1;

/// How long `clock_nanosleep` sleeps for a request of `req` at time `now`:
/// the request itself, or, with `TIMER_ABSTIME`, what is left until it (0
/// when it has passed); `EINVAL` for a clock other than the real-time and
/// the monotonic one.
pub fn clock_nanosleep_duration(clockid: usize, flags: usize, req: usize, now: usize) -> (r: SysResult<usize>)
    ensures
        clockid != CLOCK_REALTIME && clockid != CLOCK_MONOTONIC ==> r == Err::<usize, SysError>(
            SysError::EINVAL,
        ),
        (clockid == CLOCK_REALTIME || clockid == CLOCK_MONOTONIC) ==> r == Ok::<usize, SysError>(
            if flags == TIMER_ABSTIME {
                if req <= now {
                    0
                } else {
                    (req - now) as usize
                }
            } else {
                req
            },
        ),
{
    if clockid != CLOCK_REALTIME && clockid != CLOCK_MONOTONIC {
        return Err(SysError::EINVAL);
    }
    if flags == TIMER_ABSTIME {
        if req <= now {
            return Ok(0);
        }
        Ok(req - now)
    } else {
        Ok(req)
    }
}

/// What is left of a sleep of `total` begun at `start`, at `now`, in
/// seconds and nanoseconds; `None` once it is over.
pub fn sleep_remaining(start: usize, now: usize, total: usize) -> (r: Option<TimeSpec>)
    requires
        start <= now,
    ensures
        now - start >= total ==> r is None,
        now - start < total ==> (r matches Some(t) && t.sec == (total - (now - start)) / 1_000_000_000
            && t.usec == (total - (now - start)) % 1_000_000_000),
{
    let spent = now - start;
    if spent < total {
        let left = total - spent;
        Some(TimeSpec { sec: left / 1000000000, usec: left % 1000000000 })
    } else {
        None
    }
}

/// The value `get_time` reports for a clock reading of `usec`: whole
/// seconds, and the reading itself as the sub-second part.
pub fn time_spec_from_usec(usec: usize) -> (r: TimeSpec)
    ensures
        r.sec == usec / 1_000_000,
        r.usec == usec,
{
    TimeSpec { sec: usec / 1000000, usec }
}

/// The signal set that `tgkill` adds to its target: checks the signal
/// number (`EINVAL` above `MAX_SIG`), that the target was found (`ESRCH`;
/// `tgid` -1 is the caller, always found) and that `tgid` is the caller
/// (`EPERM`), then gives the set with bit `sig - 1`.
pub fn tgkill_signal(tgid: isize, sig: usize, current_tid: usize, target_found: bool) -> (r: SysResult<
    SignalFlags,
>)
    requires
        sig == 0 ==> (tgid != -1 && !target_found) || tgid as usize != current_tid,
    ensures
        sig > MAX_SIG ==> r == Err::<SignalFlags, SysError>(SysError::EINVAL),
        sig <= MAX_SIG && tgid != -1 && !target_found ==> r == Err::<SignalFlags, SysError>(
            SysError::ESRCH,
        ),
        sig <= MAX_SIG && (tgid == -1 || target_found) && tgid as usize != current_tid ==> r == Err::<
            SignalFlags,
            SysError,
        >(SysError::EPERM),
        sig <= MAX_SIG && (tgid == -1 || target_found) && tgid as usize == current_tid ==> (r matches Ok(f)
            && f.bits == 1u64 << ((sig - 1) as u64)),
{
    if sig > MAX_SIG {
        return Err(SysError::EINVAL);
    }
    if tgid != -1 && !target_found {
        return Err(SysError::ESRCH);
    }
    if tgid as usize != current_tid {
        return Err(SysError::EPERM);
    }
    let shift: u64 = (sig - 1) as u64;
    let bits: u64 = 1u64 << shift;
    assert(bits & !0x1_ffff_ffffu64 == 0) by (bit_vector)
        requires
            shift < 31,
            bits == 1u64 << shift,
    ;
    match SignalFlags::from_bits(bits) {
        Some(f) => Ok(f),
        None => Err(SysError::EINVAL),
    }
}

/// What `prlimit64` reports of resource number `resource` for task `pid`
/// (0: the caller), whose descriptor limit is `target_nofile` (`None` when
/// no task has that id), and whether a new limit is taken (only the
/// descriptor limit is): `ESRCH` for a missing task, checked first; `EINVAL`
/// for an unknown resource number; else the stack limit is the user stack
/// size, the descriptor limit the table's, and the others 0.
pub fn prlimit_query(pid: usize, target_nofile: Option<RLimit>, resource: i32) -> (r: SysResult<
    (RLimit, bool),
>)
    requires
        pid == 0 ==> target_nofile is Some,
    ensures
        target_nofile is None ==> r == Err::<(RLimit, bool), SysError>(SysError::ESRCH),
        target_nofile is Some && !(0 <= resource <= 15) ==> r == Err::<(RLimit, bool), SysError>(
            SysError::EINVAL,
        ),
        target_nofile matches Some(nofile) ==> (0 <= resource <= 15 ==> (r matches Ok((lim, sets)) && {
            &&& sets == (resource == 7)
            &&& resource == 3 ==> lim.rlimit_cur == USER_STACK_SIZE && lim.rlimit_max == USER_STACK_SIZE
            &&& resource == 7 ==> lim == nofile
            &&& resource != 3 && resource != 7 ==> lim.rlimit_cur == 0 && lim.rlimit_max == 0
        })),
{
    let nofile = match target_nofile {
        Some(n) => n,
        None => return Err(SysError::ESRCH),
    };
    match Resource::new(resource) {
        None => Err(SysError::EINVAL),
        Some(Resource::STACK) => Ok(
            (RLimit { rlimit_cur: USER_STACK_SIZE, rlimit_max: USER_STACK_SIZE }, false),
        ),
        Some(Resource::NOFILE) => Ok((nofile, true)),
        Some(_) => Ok((RLimit { rlimit_cur: 0, rlimit_max: 0 }, false)),
    }
}

/// The pages and permission of an `mprotect` call: `EINVAL` for an address
/// that is not page aligned; else the pages from the address up to the one
/// that holds the last byte, with user access plus read, write and execute
/// as bits 0, 1 and 2 of `prot` ask.
pub fn mprotect_range(addr: usize, len: usize, prot: i32) -> (r: SysResult<(VirtPage, VirtPage, MapPermission)>)
    requires
        addr % PAGE_SIZE == 0 ==> 1 <= addr + len <= usize::MAX + 1,
    ensures
        addr % PAGE_SIZE != 0 ==> r == Err::<(VirtPage, VirtPage, MapPermission), SysError>(
            SysError::EINVAL,
        ),
        addr % PAGE_SIZE == 0 ==> (r matches Ok((s, e, perm)) && {
            &&& s.0 == addr / PAGE_SIZE
            &&& e.0 == (addr + len - 1 + PAGE_SIZE - 1) / PAGE_SIZE as int
            &&& s.0 <= e.0
            &&& perm.bits == MAP_PERM_U | (if prot & 1 != 0 { MAP_PERM_R } else { 0 }) | (if prot & 2
                != 0 {
                MAP_PERM_W
            } else {
                0
            }) | (if prot & 4 != 0 { MAP_PERM_X } else { 0 })
        }),
{
    if addr & 0xfff != 0 {
        assert(addr & 0xfff == addr % 4096) by (bit_vector);
        return Err(SysError::EINVAL);
    }
    assert(addr & 0xfff == addr % 4096) by (bit_vector);
    let s = VirtAddr::new(addr).floor();
    let last = if len == 0 {
        addr - 1
    } else {
        addr + (len - 1)
    };
    let e = VirtAddr::new(last).ceil();
    assert(s.0 <= e.0) by (nonlinear_arith)
        requires
            s.0 == addr / 4096,
            e.0 == (addr + len - 1 + 4096 - 1) / 4096,
            addr % 4096 == 0,
            addr + len >= 1,
    ;
    let bits = MAP_PERM_U | (if prot & 1 != 0 { MAP_PERM_R } else { 0 }) | (if prot & 2 != 0 {
        MAP_PERM_W
    } else {
        0
    }) | (if prot & 4 != 0 { MAP_PERM_X } else { 0 });
    Ok((s, e, MapPermission { bits }))
}

impl Tms {
    /// What `times` reports at `now_msec` for a task whose start record is
    /// `self`: the time since each recorded start.
    pub fn elapsed(&self, now_msec: usize) -> (r: Tms)
        requires
            self.tms_utime <= now_msec,
            self.tms_stime <= now_msec,
            self.tms_cutime <= now_msec,
            self.tms_cstime <= now_msec,
        ensures
            r.tms_utime == now_msec - self.tms_utime,
            r.tms_stime == now_msec - self.tms_stime,
            r.tms_cutime == now_msec - self.tms_cutime,
            r.tms_cstime == now_msec - self.tms_cstime,
    {
        Tms {
            tms_utime: now_msec - self.tms_utime,
            tms_stime: now_msec - self.tms_stime,
            tms_cutime: now_msec - self.tms_cutime,
            tms_cstime: now_msec - self.tms_cstime,
        }
    }
}

/// A child as `waitpid` sees it: its thread id, its process id, and
/// whether it has exited.
#[derive(Clone, Copy, Debug, PartialEq, Eq, Structural)]
pub struct ChildState {
    pub tid: usize,
    pub pid: usize,
    pub zombie: bool,
}

/// Whether child `c` is the one `waitpid(pid)` asks for by thread id (any
/// child for -1).
pub open spec fn tid_matches(c: ChildState, pid: isize) -> bool {
    pid == -1 || pid as usize == c.tid
}

/// Whether some child has thread id `pid`, or any child at all when `pid`
/// is -1.
pub fn has_child(children: &Vec<ChildState>, pid: isize) -> (r: bool)
    ensures
        r <==> (exists|i: int| 0 <= i < children@.len() && #[trigger] tid_matches(children@[i], pid)),
{
    let mut i: usize = 0;
    while i < children.len()
        invariant
            0 <= i <= children@.len(),
            forall|j: int| 0 <= j < i ==> !#[trigger] tid_matches(children@[j], pid),
        decreases children@.len() - i,
    {
        if pid == -1 || pid as usize == children[i].tid {
            assert(tid_matches(children@[i as int], pid));
            return true;
        }
        i = i + 1;
    }
    false
}

/// The first child that has exited and has process id `pid` (any such
/// child when `pid` is -1).
pub fn zombie_child(children: &Vec<ChildState>, pid: isize) -> (r: Option<usize>)
    ensures
        match r {
            Some(i) => i < children@.len() && children@[i as int].zombie && (pid == -1 || pid as usize
                == children@[i as int].pid) && forall|j: int|
                0 <= j < i ==> !(#[trigger] children@[j].zombie && (pid == -1 || pid as usize
                    == children@[j].pid)),
            None => forall|j: int|
                0 <= j < children@.len() ==> !(#[trigger] children@[j].zombie && (pid == -1 || pid as usize
                    == children@[j].pid)),
        },
{
    let mut i: usize = 0;
    while i < children.len()
        invariant
            0 <= i <= children@.len(),
            forall|j: int|
                0 <= j < i ==> !(#[trigger] children@[j].zombie && (pid == -1 || pid as usize
                    == children@[j].pid)),
        decreases children@.len() - i,
    {
        if children[i].zombie && (pid == -1 || pid as usize == children[i].pid) {
            return Some(i);
        }
        i = i + 1;
    }
    None
}

/// The operations of `futex`.
#[derive(Clone, Copy, Debug, PartialEq, Eq, Structural)]
pub enum FutexCommand {
    Wait,
    Wake,
    Requeue,
}

/// The flag of a futex private to a process.
pub const FUTEX_PRIVATE_FLAG: u32 = 128;

/// The operation in the low bits of `futex_op`: 0 waits, 1 wakes, 3
/// requeues.
pub fn futex_command(futex_op: u32) -> (r: FutexCommand)
    requires
        futex_op & 3 != 2,
    ensures
        futex_op & 3 == 0 ==> r == FutexCommand::Wait,
        futex_op & 3 == 1 ==> r == FutexCommand::Wake,
        futex_op & 3 == 3 ==> r == FutexCommand::Requeue,
{
    let cmd = (futex_op & 0x7f) & 3;
    assert(cmd == futex_op & 3) by (bit_vector)
        requires
            cmd == (futex_op & 0x7f) & 3,
    ;
    if cmd == 0 {
        FutexCommand::Wait
    } else if cmd == 1 {
        FutexCommand::Wake
    } else {
        assert(cmd <= 3) by (bit_vector)
            requires
                cmd == futex_op & 3,
        ;
        FutexCommand::Requeue
    }
}

/// Whether `futex_op` asks for a futex private to the process.
pub fn futex_private(futex_op: u32) -> (r: bool)
    ensures
        r == (futex_op & FUTEX_PRIVATE_FLAG == FUTEX_PRIVATE_FLAG),
{
    futex_op & FUTEX_PRIVATE_FLAG == FUTEX_PRIVATE_FLAG
}

/// The first check of a futex call: the futex word at `uaddr` must be
/// 4-byte aligned (`EINVAL` otherwise).
pub fn futex_addr_check(uaddr: usize) -> (r: SysResult<()>)
    ensures
        uaddr % 4 != 0 ==> r == Err::<(), SysError>(SysError::EINVAL),
        uaddr % 4 == 0 ==> r == Ok::<(), SysError>(()),
{
    if uaddr % 4 != 0 {
        return Err(SysError::EINVAL);
    }
    Ok(())
}

/// Whether a futex wait goes on: only while the futex word still holds the
/// value `val` the caller saw (`EAGAIN` otherwise).
pub fn futex_wait_check(futex_word: i32, val: i32) -> (r: SysResult<()>)
    ensures
        futex_word != val ==> r == Err::<(), SysError>(SysError::EAGAIN),
        futex_word == val ==> r == Ok::<(), SysError>(()),
{
    if futex_word != val {
        return Err(SysError::EAGAIN);
    }
    Ok(())
}

/// The deadline of a futex wait with `timeout`, from a clock reading of
/// `cur` in nanoseconds: seconds and nanoseconds added part by part.
pub fn futex_deadline(cur: usize, timeout: &TimeSpec) -> (r: TimeSpec)
    requires
        cur / 1_000_000_000 + timeout.sec <= usize::MAX,
        cur % 1_000_000_000 + timeout.usec <= usize::MAX,
    ensures
        r.sec == cur / 1_000_000_000 + timeout.sec,
        r.usec == cur % 1_000_000_000 + timeout.usec,
{
    TimeSpec { sec: cur / 1000000000 + timeout.sec, usec: cur % 1000000000 + timeout.usec }
}


/// The argument list a program is started with, from the strings the
/// caller of `exec` passed: the first gets `./` in front, and every later
/// `rm` is followed by `-f`.
pub open spec fn exec_args_spec(raw: Seq<Seq<u8>>) -> Seq<Seq<u8>>
    decreases raw.len(),
{
    if raw.len() == 0 {
        Seq::empty()
    } else {
        let prev = exec_args_spec(raw.drop_last());
        let a = raw.last();
        if raw.len() == 1 {
            prev.push(seq![0x2eu8, 0x2fu8] + a)
        } else if a == seq![0x72u8, 0x6du8] {
            prev.push(a).push(seq![0x2du8, 0x66u8])
        } else {
            prev.push(a)
        }
    }
}

/// The bytes of each string of `v`.
pub open spec fn bytes_of(v: Seq<Vec<u8>>) -> Seq<Seq<u8>> {
    v.map_values(|s: Vec<u8>| s@)
}

/// A copy of the bytes of `v`.
fn copy_bytes(v: &Vec<u8>) -> (r: Vec<u8>)
    ensures
        r@ == v@,
{
    let mut r: Vec<u8> = Vec::new();
    let mut i: usize = 0;
    while i < v.len()
        invariant
            0 <= i <= v@.len(),
            r@ == v@.take(i as int),
        decreases v@.len() - i,
    {
        r.push(v[i]);
        i = i + 1;
        proof {
            assert(r@ =~= v@.take(i as int));
        }
    }
    proof {
        assert(v@.take(i as int) =~= v@);
    }
    r
}

/// The argument list of `exec` for the strings `raw` (see `exec_args_spec`).
pub fn exec_args(raw: &Vec<Vec<u8>>) -> (r: Vec<Vec<u8>>)
    ensures
        bytes_of(r@) == exec_args_spec(bytes_of(raw@)),
{
    let mut out: Vec<Vec<u8>> = Vec::new();
    let mut i: usize = 0;
    while i < raw.len()
        invariant
            0 <= i <= raw@.len(),
            bytes_of(out@) == exec_args_spec(bytes_of(raw@.take(i as int))),
        decreases raw@.len() - i,
    {
        let ghost before = out@;
        let arg = &raw[i];
        let ghost t = raw@.take(i as int + 1);
        proof {
            assert(bytes_of(t).drop_last() =~= bytes_of(raw@.take(i as int)));
            assert(bytes_of(t).last() == arg@);
            assert(bytes_of(t).len() == i + 1);
        }
        if i == 0 {
            let mut name: Vec<u8> = Vec::new();
            name.push(0x2e);
            name.push(0x2f);
            let mut rest = copy_bytes(arg);
            name.append(&mut rest);
            proof {
                assert(name@ =~= seq![0x2eu8, 0x2fu8] + arg@);
            }
            out.push(name);
            proof {
                assert(bytes_of(out@) =~= bytes_of(before).push(seq![0x2eu8, 0x2fu8] + arg@));
            }
        } else {
            let is_rm = arg.len() == 2 && arg[0] == 0x72 && arg[1] == 0x6d;
            proof {
                if arg@.len() == 2 && arg@[0] == 0x72 && arg@[1] == 0x6d {
                    assert(arg@ =~= seq![0x72u8, 0x6du8]);
                }
            }
            out.push(copy_bytes(arg));
            if is_rm {
                let mut f: Vec<u8> = Vec::new();
                f.push(0x2d);
                f.push(0x66);
                out.push(f);
                proof {
                    assert(f@ =~= seq![0x2du8, 0x66u8]);
                    assert(bytes_of(out@) =~= bytes_of(before).push(arg@).push(seq![0x2du8, 0x66u8]));
                }
            } else {
                proof {
                    assert(bytes_of(out@) =~= bytes_of(before).push(arg@));
                }
            }
        }
        i = i + 1;
    }
    proof {
        assert(raw@.take(i as int) =~= raw@);
    }
    out
}

/// A random byte from eight clock readings: their lowest bits, the first
/// reading's in the highest place.
pub fn random_byte(samples: &[usize]) -> (r: u8)
    requires
        samples@.len() == 8,
    ensures
        r == random_prefix(samples@, 8),
{
    let mut byte: u8 = 0;
    let mut k: usize = 0;
    while k < 8
        invariant
            0 <= k <= 8,
            samples@.len() == 8,
            byte as int == random_prefix(samples@, k as int),
            byte < pow2_u8(k as int),
        decreases 8 - k,
    {
        let sk = samples[k];
        assert(sk & 1 <= 1) by (bit_vector);
        let bit = (sk & 1) as u8;
        proof {
            reveal_with_fuel(pow2_u8, 8);
            assert(pow2_u8(k as int) <= 128);
        }
        assert(byte << 1u8 == byte * 2) by (bit_vector)
            requires
                byte < 128,
        ;
        assert((byte << 1u8) | bit == byte * 2 + bit) by (bit_vector)
            requires
                byte < 128,
                bit <= 1,
        ;
        byte = (byte << 1u8) | bit;
        k = k + 1;
    }
    byte
}



/// The number made of the lowest bits of the first `k` samples, first
/// sample highest.
pub open spec fn random_prefix(samples: Seq<usize>, k: int) -> int
    decreases k,
{
    if k <= 0 {
        0
    } else {
        random_prefix(samples, k - 1) * 2 + (samples[k - 1] & 1)
    }
}

pub open spec fn pow2_u8(k: int) -> int
    decreases k,
{
    if k <= 0 {
        1
    } else {
        2 * pow2_u8(k - 1)
    }
}

} // verus!
