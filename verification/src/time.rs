//! Time values handed to and from user space.
use vstd::prelude::*;

verus! {

/// A point in time or a duration: seconds and microseconds.
#[derive(Clone, Copy, Debug)]
pub struct TimeSpec {
    pub sec: usize,
    pub usec: usize,
}

impl TimeSpec {
    /// The whole value in microseconds: `sec * 10^6 + usec`.
    pub fn to_usec(&self) -> (r: usize)
        requires
            self.sec * 1_000_000 + self.usec <= usize::MAX,
        ensures
            r == self.sec * 1_000_000 + self.usec,
    {
        self.sec * 1_000_000 + self.usec
    }
}

/// Process times as `times` reports them, in milliseconds.
pub struct Tms {
    pub tms_utime: usize,
    pub tms_stime: usize,
    pub tms_cutime: usize,
    pub tms_cstime: usize,
}

impl Tms {
    /// The start record of a new task, given the two clock readings (in
    /// milliseconds) taken for the child times, in order: no user or system
    /// time yet, child times counted from those readings.
    pub fn new(cutime_msec: usize, cstime_msec: usize) -> (r: Self)
        ensures
            r.tms_utime == 0,
            r.tms_stime == 0,
            r.tms_cutime == cutime_msec,
            r.tms_cstime == cstime_msec,
    {
        Tms { tms_utime: 0, tms_stime: 0, tms_cutime: cutime_msec, tms_cstime: cstime_msec }
    }

    /// The start record of a forked task, given the two clock readings (in
    /// milliseconds) taken for the child times, in order: the parent's user
    /// and system times, child times counted from those readings.
    pub fn from_other_task(o_tms: &Tms, cutime_msec: usize, cstime_msec: usize) -> (r: Self)
        ensures
            r.tms_utime == o_tms.tms_utime,
            r.tms_stime == o_tms.tms_stime,
            r.tms_cutime == cutime_msec,
            r.tms_cstime == cstime_msec,
    {
        Tms {
            tms_utime: o_tms.tms_utime,
            tms_stime: o_tms.tms_stime,
            tms_cutime: cutime_msec,
            tms_cstime: cstime_msec,
        }
    }
}

} // verus!
