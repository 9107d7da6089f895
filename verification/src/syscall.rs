//! System call numbers and their names.
use vstd::prelude::*;
use vstd::string::StringExecFns;
use crate::error::{errno_of, syscall_return, SysResult};

verus! {

pub const SYSCALL_CHDIR: usize = 49;

pub const SYSCALL_GETCWD: usize = 17;

pub const SYSCALL_UNLINKAT: usize = 35;

pub const SYSCALL_LINKAT: usize = 37;

pub const SYSCALL_MKDIRAT: usize = 34;

pub const SYSCALL_DUP: usize = 23;

pub const SYSCALL_DUP3: usize = 24;

pub const SYSCALL_FCNTL: usize = 25;

pub const SYSCALL_IOCTL: usize = 29;

pub const SYSCALL_UMOUNT: usize = 39;

pub const SYSCALL_MOUNT: usize = 40;

pub const SYSCALL_STATFS: usize = 43;

pub const SYSCALL_FACCESSAT: usize = 48;

pub const SYSCALL_OPENAT: usize = 56;

pub const SYSCALL_CLOSE: usize = 57;

pub const SYSCALL_PIPE: usize = 59;

pub const SYSCALL_GETDENTS64: usize = 61;

pub const SYSCALL_LSEEK: usize = 62;

pub const SYSCALL_READ: usize = 63;

pub const SYSCALL_WRITE: usize = 64;

pub const SYSCALL_WRITEV: usize = 66;

pub const SYSCALL_SENDFILE: usize = 71;

pub const SYSCALL_PPOLL: usize = 73;

pub const SYSCALL_READLINKAT: usize = 78;

pub const SYSCALL_FSTATAT: usize = 79;

pub const SYSCALL_FSTAT: usize = 80;

pub const SYSCALL_UTIMENSAT: usize = 88;

pub const SYSCALL_EXIT: usize = 93;

pub const SYSCALL_EXIT_GROUP: usize = 94;

pub const SYSCALL_SET_TID_ADDRESS: usize = 96;

pub const SYSCALL_SET_ROBUST_LIST: usize = 99;

pub const SYSCALL_GET_ROBUST_LIST: usize = 100;

pub const SYSCALL_NANOSLEEP: usize = 101;

pub const SYSCALL_CLOCK_GETTIME: usize = 113;

pub const SYSCALL_CLOCK_NANOSLEEP: usize = 115;

pub const SYSCALL_SYSLOG: usize = 116;

pub const SYSCALL_YIELD: usize = 124;

pub const SYSCALL_SETGID: usize = 144;

pub const SYSCALL_SETUID: usize = 146;

pub const SYSCALL_KILL: usize = 129;

pub const SYSCALL_TGKILL: usize = 131;

pub const SYSCALL_SIGACTION: usize = 134;

pub const SYSCALL_SIGPROCMASK: usize = 135;

pub const SYSCALL_RT_SIGTIMEDWAIT: usize = 137;

pub const SYSCALL_SIGRETURN: usize = 139;

pub const SYSCALL_TIMES: usize = 153;

pub const SYSCALL_SETPGID: usize = 154;

pub const SYSCALL_GETPGID: usize = 155;

pub const SYSCALL_UNAME: usize = 160;

pub const SYSCALL_GET_TIME: usize = 169;

pub const SYSCALL_GETPID: usize = 172;

pub const SYSCALL_GETPPID: usize = 173;

pub const SYSCALL_GETUID: usize = 174;

pub const SYSCALL_GETEUID: usize = 175;

pub const SYSCALL_GETGID: usize = 176;

pub const SYSCALL_GETEGID: usize = 177;

pub const SYSCALL_GETTID: usize = 178;

pub const SYSCALL_SYSINFO: usize = 179;

pub const SYSCALL_BRK: usize = 214;

pub const SYSCALL_MUNMAP: usize = 215;

pub const SYSCALL_CLONE: usize = 220;

pub const SYSCALL_EXEC: usize = 221;

pub const SYSCALL_MMAP: usize = 222;

pub const SYSCALL_MPROTECT: usize = 226;

pub const SYSCALL_WAITPID: usize = 260;

pub const SYSCALL_PRLIMIT64: usize = 261;

pub const SYSCALL_RENAMEAT2: usize = 276;

pub const SYSCALL_GET_RANDOM: usize = 278;

pub const SYSCALL_STATX: usize = 291;

/// Whether `id` is a system call that this kernel knows.
pub open spec fn is_known_syscall(id: usize) -> bool {
    id == SYSCALL_IOCTL
        || id == SYSCALL_CHDIR
        || id == SYSCALL_LINKAT
        || id == SYSCALL_UNLINKAT
        || id == SYSCALL_MKDIRAT
        || id == SYSCALL_OPENAT
        || id == SYSCALL_CLOSE
        || id == SYSCALL_READ
        || id == SYSCALL_WRITE
        || id == SYSCALL_WRITEV
        || id == SYSCALL_EXIT
        || id == SYSCALL_YIELD
        || id == SYSCALL_KILL
        || id == SYSCALL_SIGACTION
        || id == SYSCALL_SIGPROCMASK
        || id == SYSCALL_SIGRETURN
        || id == SYSCALL_GET_TIME
        || id == SYSCALL_GETPID
        || id == SYSCALL_CLONE
        || id == SYSCALL_EXEC
        || id == SYSCALL_WAITPID
        || id == SYSCALL_PIPE
        || id == SYSCALL_BRK
        || id == SYSCALL_MOUNT
        || id == SYSCALL_UMOUNT
        || id == SYSCALL_STATFS
        || id == SYSCALL_FACCESSAT
        || id == SYSCALL_LSEEK
        || id == SYSCALL_FSTATAT
        || id == SYSCALL_FSTAT
        || id == SYSCALL_UTIMENSAT
        || id == SYSCALL_GETCWD
        || id == SYSCALL_DUP
        || id == SYSCALL_DUP3
        || id == SYSCALL_FCNTL
        || id == SYSCALL_TIMES
        || id == SYSCALL_GETPGID
        || id == SYSCALL_SETPGID
        || id == SYSCALL_UNAME
        || id == SYSCALL_MMAP
        || id == SYSCALL_MUNMAP
        || id == SYSCALL_GETDENTS64
        || id == SYSCALL_NANOSLEEP
        || id == SYSCALL_GETPPID
        || id == SYSCALL_GETUID
        || id == SYSCALL_GETEUID
        || id == SYSCALL_GETGID
        || id == SYSCALL_GETEGID
        || id == SYSCALL_SET_ROBUST_LIST
        || id == SYSCALL_GET_ROBUST_LIST
        || id == SYSCALL_SET_TID_ADDRESS
        || id == SYSCALL_PRLIMIT64
        || id == SYSCALL_SENDFILE
        || id == SYSCALL_READLINKAT
        || id == SYSCALL_SETGID
        || id == SYSCALL_SETUID
        || id == SYSCALL_EXIT_GROUP
        || id == SYSCALL_CLOCK_GETTIME
        || id == SYSCALL_GET_RANDOM
        || id == SYSCALL_SYSINFO
        || id == SYSCALL_SYSLOG
        || id == SYSCALL_MPROTECT
        || id == SYSCALL_TGKILL
        || id == SYSCALL_PPOLL
        || id == SYSCALL_GETTID
        || id == SYSCALL_RENAMEAT2
        || id == SYSCALL_CLOCK_NANOSLEEP
        || id == SYSCALL_RT_SIGTIMEDWAIT
        || id == SYSCALL_STATX
}

/// The name under which system call `id` is logged.
pub open spec fn syscall_name(id: usize) -> Seq<char> {
    if id == SYSCALL_IOCTL {
        "sys_ioctl"@
    }
    else if id == SYSCALL_CHDIR {
        "sys_chdir"@
    }
    else if id == SYSCALL_LINKAT {
        "sys_linkat"@
    }
    else if id == SYSCALL_UNLINKAT {
        "sys_unlinkat"@
    }
    else if id == SYSCALL_MKDIRAT {
        "sys_mkdirat"@
    }
    else if id == SYSCALL_OPENAT {
        "sys_openat"@
    }
    else if id == SYSCALL_CLOSE {
        "sys_close"@
    }
    else if id == SYSCALL_READ {
        "sys_read"@
    }
    else if id == SYSCALL_WRITE {
        "sys_write"@
    }
    else if id == SYSCALL_WRITEV {
        "sys_writev"@
    }
    else if id == SYSCALL_EXIT {
        "sys_exit"@
    }
    else if id == SYSCALL_YIELD {
        "sys_yield"@
    }
    else if id == SYSCALL_KILL {
        "sys_kill"@
    }
    else if id == SYSCALL_SIGACTION {
        "sys_sigaction"@
    }
    else if id == SYSCALL_SIGPROCMASK {
        "sys_sigprocmask"@
    }
    else if id == SYSCALL_SIGRETURN {
        "sys_sigreturn"@
    }
    else if id == SYSCALL_GET_TIME {
        "sys_gettime"@
    }
    else if id == SYSCALL_GETPID {
        "sys_getpid"@
    }
    else if id == SYSCALL_CLONE {
        "sys_clone"@
    }
    else if id == SYSCALL_EXEC {
        "sys_exec"@
    }
    else if id == SYSCALL_WAITPID {
        "sys_waitpid"@
    }
    else if id == SYSCALL_PIPE {
        "sys_pipe"@
    }
    else if id == SYSCALL_BRK {
        "sys_brk"@
    }
    else if id == SYSCALL_MOUNT {
        "sys_mount"@
    }
    else if id == SYSCALL_UMOUNT {
        "sys_umount"@
    }
    else if id == SYSCALL_STATFS {
        "sys_statfs"@
    }
    else if id == SYSCALL_FACCESSAT {
        "sys_faccrssat"@
    }
    else if id == SYSCALL_LSEEK {
        "sys_lseek"@
    }
    else if id == SYSCALL_FSTATAT {
        "sys_fstatat"@
    }
    else if id == SYSCALL_FSTAT {
        "sys_fstat"@
    }
    else if id == SYSCALL_UTIMENSAT {
        "sys_utimensat"@
    }
    else if id == SYSCALL_GETCWD {
        "sys_getcwd"@
    }
    else if id == SYSCALL_DUP {
        "sys_dup"@
    }
    else if id == SYSCALL_DUP3 {
        "sys_dup3"@
    }
    else if id == SYSCALL_FCNTL {
        "sys_fcntl"@
    }
    else if id == SYSCALL_TIMES {
        "times"@
    }
    else if id == SYSCALL_GETPGID {
        "sys_getpgid"@
    }
    else if id == SYSCALL_SETPGID {
        "sys_setpgid"@
    }
    else if id == SYSCALL_UNAME {
        "sys_uname"@
    }
    else if id == SYSCALL_MMAP {
        "sys_mmap"@
    }
    else if id == SYSCALL_MUNMAP {
        "sys_munmap"@
    }
    else if id == SYSCALL_GETDENTS64 {
        "sys_getdents64"@
    }
    else if id == SYSCALL_NANOSLEEP {
        "sys_nanosleep"@
    }
    else if id == SYSCALL_GETPPID {
        "sys_getppid"@
    }
    else if id == SYSCALL_GETUID {
        "sys_gettuid"@
    }
    else if id == SYSCALL_GETEUID {
        "sys_geteuid"@
    }
    else if id == SYSCALL_GETGID {
        "sys_getgid"@
    }
    else if id == SYSCALL_GETEGID {
        "sys_getegid"@
    }
    else if id == SYSCALL_SET_ROBUST_LIST {
        "sys_set_rubust_list"@
    }
    else if id == SYSCALL_GET_ROBUST_LIST {
        "sys_get_robust_list"@
    }
    else if id == SYSCALL_SET_TID_ADDRESS {
        "sys_settidaddress"@
    }
    else if id == SYSCALL_PRLIMIT64 {
        "sys_prlimit64"@
    }
    else if id == SYSCALL_SENDFILE {
        "sys_sendfile"@
    }
    else if id == SYSCALL_READLINKAT {
        "sys_readlinkat"@
    }
    else if id == SYSCALL_SETGID {
        "sys_setgid"@
    }
    else if id == SYSCALL_SETUID {
        "sys_setuid"@
    }
    else if id == SYSCALL_EXIT_GROUP {
        "sys_exitgroup"@
    }
    else if id == SYSCALL_CLOCK_GETTIME {
        "sys_gettime"@
    }
    else if id == SYSCALL_GET_RANDOM {
        "sys_getrandom"@
    }
    else if id == SYSCALL_SYSINFO {
        "sys_sysinfo"@
    }
    else if id == SYSCALL_SYSLOG {
        "sys_log"@
    }
    else if id == SYSCALL_MPROTECT {
        "sys_mprotect"@
    }
    else if id == SYSCALL_TGKILL {
        "sys_tgkill"@
    }
    else if id == SYSCALL_PPOLL {
        "sys_ppoll"@
    }
    else if id == SYSCALL_GETTID {
        "sys_gettid"@
    }
    else if id == SYSCALL_RENAMEAT2 {
        "sys_renameat2"@
    }
    else if id == SYSCALL_CLOCK_NANOSLEEP {
        "sys_clock_nanosleep"@
    }
    else if id == SYSCALL_RT_SIGTIMEDWAIT {
        "sys_rt_sigtimedwait"@
    }
    else if id == SYSCALL_STATX {
        "sys_statx"@
    }
    else {
        Seq::empty()
    }
}


/// Whether the dispatcher serves system call `id`; it panics on any other.
pub fn is_supported(id: usize) -> (r: bool)
    ensures
        r == is_known_syscall(id),
        has_handler(id) ==> r,
        fixed_result_spec(id) is Some ==> r,
{
    proof {
        lemma_handlers_have_no_fixed_result(id);
    }
    match id {
        SYSCALL_IOCTL | SYSCALL_CHDIR | SYSCALL_LINKAT | SYSCALL_UNLINKAT
        | SYSCALL_MKDIRAT | SYSCALL_OPENAT | SYSCALL_CLOSE | SYSCALL_READ
        | SYSCALL_WRITE | SYSCALL_WRITEV | SYSCALL_EXIT | SYSCALL_YIELD
        | SYSCALL_KILL | SYSCALL_SIGACTION | SYSCALL_SIGPROCMASK | SYSCALL_SIGRETURN
        | SYSCALL_GET_TIME | SYSCALL_GETPID | SYSCALL_CLONE | SYSCALL_EXEC
        | SYSCALL_WAITPID | SYSCALL_PIPE | SYSCALL_BRK | SYSCALL_MOUNT
        | SYSCALL_UMOUNT | SYSCALL_STATFS | SYSCALL_FACCESSAT | SYSCALL_LSEEK
        | SYSCALL_FSTATAT | SYSCALL_FSTAT | SYSCALL_UTIMENSAT | SYSCALL_GETCWD
        | SYSCALL_DUP | SYSCALL_DUP3 | SYSCALL_FCNTL | SYSCALL_TIMES
        | SYSCALL_GETPGID | SYSCALL_SETPGID | SYSCALL_UNAME | SYSCALL_MMAP
        | SYSCALL_MUNMAP | SYSCALL_GETDENTS64 | SYSCALL_NANOSLEEP | SYSCALL_GETPPID
        | SYSCALL_GETUID | SYSCALL_GETEUID | SYSCALL_GETGID | SYSCALL_GETEGID
        | SYSCALL_SET_ROBUST_LIST | SYSCALL_GET_ROBUST_LIST | SYSCALL_SET_TID_ADDRESS | SYSCALL_PRLIMIT64
        | SYSCALL_SENDFILE | SYSCALL_READLINKAT | SYSCALL_SETGID | SYSCALL_SETUID
        | SYSCALL_EXIT_GROUP | SYSCALL_CLOCK_GETTIME | SYSCALL_GET_RANDOM | SYSCALL_SYSINFO
        | SYSCALL_SYSLOG | SYSCALL_MPROTECT | SYSCALL_TGKILL | SYSCALL_PPOLL
        | SYSCALL_GETTID | SYSCALL_RENAMEAT2 | SYSCALL_CLOCK_NANOSLEEP | SYSCALL_RT_SIGTIMEDWAIT
        | SYSCALL_STATX => true,
        _ => false,
    }
}

/// The result that the dispatcher gives system call `id` without a
/// handler: 0 for the calls it accepts and ignores (ioctl, the process-group,
/// robust-list, set-user and set-group calls, rt_sigtimedwait), 1 for the
/// user and group ids, -1 for readlinkat; `None` for a call with a handler.
pub open spec fn fixed_result_spec(id: usize) -> Option<isize> {
    if id == SYSCALL_IOCTL || id == SYSCALL_GETPGID || id == SYSCALL_SETPGID || id
        == SYSCALL_SET_ROBUST_LIST || id == SYSCALL_GET_ROBUST_LIST || id == SYSCALL_SETGID || id
        == SYSCALL_SETUID || id == SYSCALL_RT_SIGTIMEDWAIT {
        Some(0)
    } else if id == SYSCALL_GETUID || id == SYSCALL_GETEUID || id == SYSCALL_GETGID || id
        == SYSCALL_GETEGID {
        Some(1)
    } else if id == SYSCALL_READLINKAT {
        Some(-1isize)
    } else {
        None
    }
}


/// Whether the dispatcher runs a handler for system call `id`: the calls
/// that do work (files, processes, memory, signals, time).
pub open spec fn has_handler(id: usize) -> bool {
    id == SYSCALL_CHDIR
        || id == SYSCALL_LINKAT
        || id == SYSCALL_UNLINKAT
        || id == SYSCALL_MKDIRAT
        || id == SYSCALL_OPENAT
        || id == SYSCALL_CLOSE
        || id == SYSCALL_READ
        || id == SYSCALL_WRITE
        || id == SYSCALL_WRITEV
        || id == SYSCALL_EXIT
        || id == SYSCALL_YIELD
        || id == SYSCALL_KILL
        || id == SYSCALL_SIGACTION
        || id == SYSCALL_SIGPROCMASK
        || id == SYSCALL_SIGRETURN
        || id == SYSCALL_GET_TIME
        || id == SYSCALL_GETPID
        || id == SYSCALL_CLONE
        || id == SYSCALL_EXEC
        || id == SYSCALL_WAITPID
        || id == SYSCALL_PIPE
        || id == SYSCALL_BRK
        || id == SYSCALL_MOUNT
        || id == SYSCALL_UMOUNT
        || id == SYSCALL_STATFS
        || id == SYSCALL_FACCESSAT
        || id == SYSCALL_LSEEK
        || id == SYSCALL_FSTATAT
        || id == SYSCALL_FSTAT
        || id == SYSCALL_UTIMENSAT
        || id == SYSCALL_GETCWD
        || id == SYSCALL_DUP
        || id == SYSCALL_DUP3
        || id == SYSCALL_FCNTL
        || id == SYSCALL_TIMES
        || id == SYSCALL_UNAME
        || id == SYSCALL_MMAP
        || id == SYSCALL_MUNMAP
        || id == SYSCALL_GETDENTS64
        || id == SYSCALL_NANOSLEEP
        || id == SYSCALL_GETPPID
        || id == SYSCALL_GETTID
        || id == SYSCALL_SET_TID_ADDRESS
        || id == SYSCALL_PRLIMIT64
        || id == SYSCALL_SENDFILE
        || id == SYSCALL_PPOLL
        || id == SYSCALL_EXIT_GROUP
        || id == SYSCALL_CLOCK_GETTIME
        || id == SYSCALL_CLOCK_NANOSLEEP
        || id == SYSCALL_RENAMEAT2
        || id == SYSCALL_GET_RANDOM
        || id == SYSCALL_SYSINFO
        || id == SYSCALL_SYSLOG
        || id == SYSCALL_TGKILL
        || id == SYSCALL_MPROTECT
        || id == SYSCALL_STATX
}

/// A call with a handler gets no fixed result: the dispatcher runs it. Only
/// the stubs (ioctl, the process-group, robust-list and set-id calls and
/// rt_sigtimedwait give 0; the user and group id getters 1; readlinkat -1)
/// have one, and every known call is one or the other.
pub proof fn lemma_handlers_have_no_fixed_result(id: usize)
    ensures
        has_handler(id) ==> is_known_syscall(id),
        has_handler(id) ==> fixed_result_spec(id) is None,
        fixed_result_spec(id) is Some ==> is_known_syscall(id) && !has_handler(id),
        is_known_syscall(id) ==> (has_handler(id) || fixed_result_spec(id) is Some),
        id == SYSCALL_IOCTL || id == SYSCALL_GETPGID || id == SYSCALL_SETPGID || id == SYSCALL_SET_ROBUST_LIST
            || id == SYSCALL_GET_ROBUST_LIST || id == SYSCALL_SETGID || id == SYSCALL_SETUID || id
            == SYSCALL_RT_SIGTIMEDWAIT ==> fixed_result_spec(id) == Some(0isize),
        id == SYSCALL_GETUID || id == SYSCALL_GETEUID || id == SYSCALL_GETGID || id == SYSCALL_GETEGID
            ==> fixed_result_spec(id) == Some(1isize),
        id == SYSCALL_READLINKAT ==> fixed_result_spec(id) == Some(-1isize),
{
}

/// The result that the dispatcher gives system call `id` without a handler
/// (see `fixed_result_spec`).
pub fn fixed_result(id: usize) -> (r: Option<isize>)
    ensures
        r == fixed_result_spec(id),
        has_handler(id) ==> r is None,
{
    proof {
        lemma_handlers_have_no_fixed_result(id);
    }
    match id {
        SYSCALL_IOCTL | SYSCALL_GETPGID | SYSCALL_SETPGID | SYSCALL_SET_ROBUST_LIST
        | SYSCALL_GET_ROBUST_LIST | SYSCALL_SETGID | SYSCALL_SETUID | SYSCALL_RT_SIGTIMEDWAIT => Some(0),
        SYSCALL_GETUID | SYSCALL_GETEUID | SYSCALL_GETGID | SYSCALL_GETEGID => Some(1),
        SYSCALL_READLINKAT => Some(-1),
        _ => None,
    }
}

/// How a system call ends.
#[derive(Clone, Copy, Debug, PartialEq, Eq, Structural)]
pub enum SyscallEnd {
    /// A signal has killed the task: it exits with this code.
    Exit(isize),
    /// The value handed back to user space.
    Return(isize),
}

/// How a system call with result `result` ends, once the pending signals
/// were checked: the task exits with the code of the signal that killed it
/// (`kill`, from `check_signals_error`), else the result or the negated
/// error number goes back to user space.
pub fn finish(result: SysResult<isize>, kill: Option<(isize, &str)>) -> (r: SyscallEnd)
    ensures
        kill matches Some(k) ==> r == SyscallEnd::Exit(k.0),
        kill is None ==> r == SyscallEnd::Return(
            match result {
                Ok(v) => v,
                Err(e) => (-errno_of(e)) as isize,
            },
        ),
        kill is None && result is Err ==> (r matches SyscallEnd::Return(v) && v < 0),
        kill is None && result is Ok ==> r == SyscallEnd::Return(result->Ok_0),
{
    match kill {
        Some((code, _)) => SyscallEnd::Exit(code),
        None => SyscallEnd::Return(syscall_return(result)),
    }
}

/// The name of system call `syscall_id`, for the log.
pub fn sysid_to_string(syscall_id: usize) -> (ret: String)
    requires
        is_known_syscall(syscall_id),
    ensures
        ret@ == syscall_name(syscall_id),
{
    let mut ret = String::new();
    match syscall_id {
        SYSCALL_IOCTL => {
            ret.append("sys_ioctl");
        },
        SYSCALL_CHDIR => {
            ret.append("sys_chdir");
        },
        SYSCALL_LINKAT => {
            ret.append("sys_linkat");
        },
        SYSCALL_UNLINKAT => {
            ret.append("sys_unlinkat");
        },
        SYSCALL_MKDIRAT => {
            ret.append("sys_mkdirat");
        },
        SYSCALL_OPENAT => {
            ret.append("sys_openat");
        },
        SYSCALL_CLOSE => {
            ret.append("sys_close");
        },
        SYSCALL_READ => {
            ret.append("sys_read");
        },
        SYSCALL_WRITE => {
            ret.append("sys_write");
        },
        SYSCALL_WRITEV => {
            ret.append("sys_writev");
        },
        SYSCALL_EXIT => {
            ret.append("sys_exit");
        },
        SYSCALL_YIELD => {
            ret.append("sys_yield");
        },
        SYSCALL_KILL => {
            ret.append("sys_kill");
        },
        SYSCALL_SIGACTION => {
            ret.append("sys_sigaction");
        },
        SYSCALL_SIGPROCMASK => {
            ret.append("sys_sigprocmask");
        },
        SYSCALL_SIGRETURN => {
            ret.append("sys_sigreturn");
        },
        SYSCALL_GET_TIME => {
            ret.append("sys_gettime");
        },
        SYSCALL_GETPID => {
            ret.append("sys_getpid");
        },
        SYSCALL_CLONE => {
            ret.append("sys_clone");
        },
        SYSCALL_EXEC => {
            ret.append("sys_exec");
        },
        SYSCALL_WAITPID => {
            ret.append("sys_waitpid");
        },
        SYSCALL_PIPE => {
            ret.append("sys_pipe");
        },
        SYSCALL_BRK => {
            ret.append("sys_brk");
        },
        SYSCALL_MOUNT => {
            ret.append("sys_mount");
        },
        SYSCALL_UMOUNT => {
            ret.append("sys_umount");
        },
        SYSCALL_STATFS => {
            ret.append("sys_statfs");
        },
        SYSCALL_FACCESSAT => {
            ret.append("sys_faccrssat");
        },
        SYSCALL_LSEEK => {
            ret.append("sys_lseek");
        },
        SYSCALL_FSTATAT => {
            ret.append("sys_fstatat");
        },
        SYSCALL_FSTAT => {
            ret.append("sys_fstat");
        },
        SYSCALL_UTIMENSAT => {
            ret.append("sys_utimensat");
        },
        SYSCALL_GETCWD => {
            ret.append("sys_getcwd");
        },
        SYSCALL_DUP => {
            ret.append("sys_dup");
        },
        SYSCALL_DUP3 => {
            ret.append("sys_dup3");
        },
        SYSCALL_FCNTL => {
            ret.append("sys_fcntl");
        },
        SYSCALL_TIMES => {
            ret.append("times");
        },
        SYSCALL_GETPGID => {
            ret.append("sys_getpgid");
        },
        SYSCALL_SETPGID => {
            ret.append("sys_setpgid");
        },
        SYSCALL_UNAME => {
            ret.append("sys_uname");
        },
        SYSCALL_MMAP => {
            ret.append("sys_mmap");
        },
        SYSCALL_MUNMAP => {
            ret.append("sys_munmap");
        },
        SYSCALL_GETDENTS64 => {
            ret.append("sys_getdents64");
        },
        SYSCALL_NANOSLEEP => {
            ret.append("sys_nanosleep");
        },
        SYSCALL_GETPPID => {
            ret.append("sys_getppid");
        },
        SYSCALL_GETUID => {
            ret.append("sys_gettuid");
        },
        SYSCALL_GETEUID => {
            ret.append("sys_geteuid");
        },
        SYSCALL_GETGID => {
            ret.append("sys_getgid");
        },
        SYSCALL_GETEGID => {
            ret.append("sys_getegid");
        },
        SYSCALL_SET_ROBUST_LIST => {
            ret.append("sys_set_rubust_list");
        },
        SYSCALL_GET_ROBUST_LIST => {
            ret.append("sys_get_robust_list");
        },
        SYSCALL_SET_TID_ADDRESS => {
            ret.append("sys_settidaddress");
        },
        SYSCALL_PRLIMIT64 => {
            ret.append("sys_prlimit64");
        },
        SYSCALL_SENDFILE => {
            ret.append("sys_sendfile");
        },
        SYSCALL_READLINKAT => {
            ret.append("sys_readlinkat");
        },
        SYSCALL_SETGID => {
            ret.append("sys_setgid");
        },
        SYSCALL_SETUID => {
            ret.append("sys_setuid");
        },
        SYSCALL_EXIT_GROUP => {
            ret.append("sys_exitgroup");
        },
        SYSCALL_CLOCK_GETTIME => {
            ret.append("sys_gettime");
        },
        SYSCALL_GET_RANDOM => {
            ret.append("sys_getrandom");
        },
        SYSCALL_SYSINFO => {
            ret.append("sys_sysinfo");
        },
        SYSCALL_SYSLOG => {
            ret.append("sys_log");
        },
        SYSCALL_MPROTECT => {
            ret.append("sys_mprotect");
        },
        SYSCALL_TGKILL => {
            ret.append("sys_tgkill");
        },
        SYSCALL_PPOLL => {
            ret.append("sys_ppoll");
        },
        SYSCALL_GETTID => {
            ret.append("sys_gettid");
        },
        SYSCALL_RENAMEAT2 => {
            ret.append("sys_renameat2");
        },
        SYSCALL_CLOCK_NANOSLEEP => {
            ret.append("sys_clock_nanosleep");
        },
        SYSCALL_RT_SIGTIMEDWAIT => {
            ret.append("sys_rt_sigtimedwait");
        },
        SYSCALL_STATX => {
            ret.append("sys_statx");
        },
        _ => {},
    }
    ret
}

} // verus!
