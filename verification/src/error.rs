//! The error numbers that system calls return.
use vstd::prelude::*;

verus! {

/// A failed system call, by its Linux error name.
#[derive(Clone, Copy, Debug, PartialEq, Eq, Structural)]
pub enum SysError {
    EPERM,
    ENOENT,
    ESRCH,
    EINTR,
    ENXIO,
    EBADF,
    EAGAIN,
    EEXIST,
    ENOTDIR,
    EINVAL,
    ENFILE,
    EMFILE,
    ENOSPC,
    EADDRINUSE,
    EADDRNOTAVAIL,
}

/// The Linux error number of each error.
pub open spec fn errno_of(e: SysError) -> isize {
    match e {
        SysError::EPERM => 1,
        SysError::ENOENT => 2,
        SysError::ESRCH => 3,
        SysError::EINTR => 4,
        SysError::ENXIO => 6,
        SysError::EBADF => 9,
        SysError::EAGAIN => 11,
        SysError::EEXIST => 17,
        SysError::ENOTDIR => 20,
        SysError::EINVAL => 22,
        SysError::ENFILE => 23,
        SysError::EMFILE => 24,
        SysError::ENOSPC => 28,
        SysError::EADDRINUSE => 98,
        SysError::EADDRNOTAVAIL => 99,
    }
}

impl SysError {
    /// The Linux error number.
    pub fn errno(&self) -> (r: isize)
        ensures
            r == errno_of(*self),
            r > 0,
    {
        match self {
            SysError::EPERM => 1,
            SysError::ENOENT => 2,
            SysError::ESRCH => 3,
            SysError::EINTR => 4,
            SysError::ENXIO => 6,
            SysError::EBADF => 9,
            SysError::EAGAIN => 11,
            SysError::EEXIST => 17,
            SysError::ENOTDIR => 20,
            SysError::EINVAL => 22,
            SysError::ENFILE => 23,
            SysError::EMFILE => 24,
            SysError::ENOSPC => 28,
            SysError::EADDRINUSE => 98,
            SysError::EADDRNOTAVAIL => 99,
        }
    }
}

/// The result of a system call.
pub type SysResult<T> = Result<T, SysError>;

/// The value a system call hands back to user space: the result, or the
/// negated error number.
pub fn syscall_return(result: SysResult<isize>) -> (r: isize)
    ensures
        match result {
            Ok(v) => r == v,
            Err(e) => r == -errno_of(e),
        },
{
    match result {
        Ok(v) => v,
        Err(e) => -e.errno(),
    }
}

} // verus!
