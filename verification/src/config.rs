//! Kernel-wide constants and resource limits.
use vstd::prelude::*;

verus! {

pub const USER_STACK_SIZE: usize = 4096 * 20;

pub const KERNEL_STACK_SIZE: usize = 4096 * 10;

pub const KERNEL_HEAP_SIZE: usize = 0x300_0000;

pub const USER_STACK_TOP: usize = 0x8000_0000;

pub const USER_MMAP_TOP: usize = 0x6000_0000;

pub const MAX_FD: usize = 1024;

pub const USER_HEAP_SIZE: usize = 0x8000;

/// Size of an easy-fs block in bytes.
pub const BLOCK_SZ: usize = 512;

/// The resources that `prlimit64` can query, numbered as in Linux.
#[derive(Clone, Copy, Debug, PartialEq, Eq, Structural)]
pub enum Resource {
    CPU,
    FSIZE,
    DATA,
    STACK,
    CORE,
    RSS,
    NPROC,
    NOFILE,
    MEMLOCK,
    AS,
    LOCKS,
    SIGPENDING,
    MSGQUEUE,
    NICE,
    RTPRIO,
    RTTIME,
}

impl Resource {
    /// The Linux number of a resource.
    pub open spec fn number(self) -> int {
        match self {
            Resource::CPU => 0,
            Resource::FSIZE => 1,
            Resource::DATA => 2,
            Resource::STACK => 3,
            Resource::CORE => 4,
            Resource::RSS => 5,
            Resource::NPROC => 6,
            Resource::NOFILE => 7,
            Resource::MEMLOCK => 8,
            Resource::AS => 9,
            Resource::LOCKS => 10,
            Resource::SIGPENDING => 11,
            Resource::MSGQUEUE => 12,
            Resource::NICE => 13,
            Resource::RTPRIO => 14,
            Resource::RTTIME => 15,
        }
    }

    /// The resource with number `r`, if there is one.
    pub fn new(r: i32) -> (res: Option<Self>)
        ensures
            res is Some <==> 0 <= r <= 15,
            res matches Some(x) ==> x.number() == r,
    {
        match r {
            0 => Some(Resource::CPU),
            1 => Some(Resource::FSIZE),
            2 => Some(Resource::DATA),
            3 => Some(Resource::STACK),
            4 => Some(Resource::CORE),
            5 => Some(Resource::RSS),
            6 => Some(Resource::NPROC),
            7 => Some(Resource::NOFILE),
            8 => Some(Resource::MEMLOCK),
            9 => Some(Resource::AS),
            10 => Some(Resource::LOCKS),
            11 => Some(Resource::SIGPENDING),
            12 => Some(Resource::MSGQUEUE),
            13 => Some(Resource::NICE),
            14 => Some(Resource::RTPRIO),
            15 => Some(Resource::RTTIME),
            _ => None,
        }
    }
}

/// A soft and a hard limit on a resource.
#[derive(Clone, Copy, Debug)]
pub struct RLimit {
    pub rlimit_cur: usize,
    pub rlimit_max: usize,
}

} // verus!
