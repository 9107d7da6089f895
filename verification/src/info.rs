//! System information reported by `uname` and `sysinfo`.
use vstd::prelude::*;
use vstd::string::StringSliceAdditionalSpecFns;

verus! {

/// System information as `sysinfo` reports it.
#[derive(Clone, Copy)]
pub struct SysInfo {
    pub uptime: i64,
    pub loads: [u64; 3],
    pub totalram: u64,
    pub freeram: u64,
    pub sharedram: u64,
    pub bufferram: u64,
    pub totalswap: u64,
    pub freeswap: u64,
    pub procs: u16,
    pub pad: u16,
    pub totalhigh: u64,
    pub freehigh: u64,
    pub mem_uint: u32,
    pub _f: [u8; 12],
}

impl SysInfo {
    /// Every field zero.
    pub open spec fn is_zero(&self) -> bool {
        &&& self.uptime == 0
        &&& forall|i: int| 0 <= i < 3 ==> self.loads@[i] == 0
        &&& self.totalram == 0 && self.freeram == 0 && self.sharedram == 0 && self.bufferram == 0
        &&& self.totalswap == 0 && self.freeswap == 0 && self.procs == 0 && self.pad == 0
        &&& self.totalhigh == 0 && self.freehigh == 0 && self.mem_uint == 0
        &&& forall|i: int| 0 <= i < 12 ==> self._f@[i] == 0
    }
}

impl Default for SysInfo {
    fn default() -> (r: Self)
        ensures
            r.is_zero(),
    {
        SysInfo {
            uptime: 0,
            loads: [0u64; 3],
            totalram: 0,
            freeram: 0,
            sharedram: 0,
            bufferram: 0,
            totalswap: 0,
            freeswap: 0,
            procs: 0,
            pad: 0,
            totalhigh: 0,
            freehigh: 0,
            mem_uint: 0,
            _f: [0u8; 12],
        }
    }
}

/// The fields of `uname`, each a zero-padded byte string of at most 64 bytes.
pub struct Utsname {
    pub sysname: [u8; 65],
    pub nodename: [u8; 65],
    pub release: [u8; 65],
    pub version: [u8; 65],
    pub machine: [u8; 65],
    pub domainname: [u8; 65],
}

/// The 65-byte field holding the first 64 bytes (at most) of `bytes`, the
/// rest zero.
pub open spec fn field_of(bytes: Seq<u8>) -> Seq<u8> {
    Seq::new(65, |i: int| if i < bytes.len() && i < 64 { bytes[i] } else { 0u8 })
}

/// Copies the bytes of `s`, at most 64 of them, into a zeroed 65-byte field.
pub fn string_to_array(s: &str) -> (r: [u8; 65])
    ensures
        r@ == field_of(s.spec_bytes()),
{
    let mut array = [0u8; 65];
    let bytes = s.as_bytes();
    let len = if bytes.len() < 64 { bytes.len() } else { 64 };
    let mut i: usize = 0;
    while i < len
        invariant
            0 <= i <= len,
            len <= 64,
            len <= bytes@.len(),
            len == (if bytes@.len() < 64 { bytes@.len() } else { 64 }),
            bytes@ == s.spec_bytes(),
            forall|j: int| 0 <= j < i ==> array@[j] == bytes@[j],
            forall|j: int| i <= j < 65 ==> array@[j] == 0,
        decreases len - i,
    {
        array[i] = bytes[i];
        i = i + 1;
    }
    assert(array@ =~= field_of(s.spec_bytes()));
    array
}

impl Default for Utsname {
    fn default() -> (r: Self)
        ensures
            r.sysname@ == field_of("Linux".spec_bytes()),
            r.nodename@ == field_of("Linux".spec_bytes()),
            r.release@ == field_of("5.19.0-42-generic".spec_bytes()),
            r.version@ == field_of(
                "#43~22.04.1-Ubuntu SMP PREEMPT_DYNAMIC Fri Apr 21 16:51:08 UTC 2".spec_bytes(),
            ),
            r.machine@ == field_of("risc-v".spec_bytes()),
            r.domainname@ == field_of("user".spec_bytes()),
    {
        Utsname {
            sysname: string_to_array("Linux"),
            nodename: string_to_array("Linux"),
            release: string_to_array("5.19.0-42-generic"),
            version: string_to_array(
                "#43~22.04.1-Ubuntu SMP PREEMPT_DYNAMIC Fri Apr 21 16:51:08 UTC 2",
            ),
            machine: string_to_array("risc-v"),
            domainname: string_to_array("user"),
        }
    }
}

impl Utsname {
    /// Copies every field of `other`.
    pub fn copy_from(&mut self, other: &Utsname)
        ensures
            final(self).sysname@ == other.sysname@,
            final(self).nodename@ == other.nodename@,
            final(self).release@ == other.release@,
            final(self).version@ == other.version@,
            final(self).machine@ == other.machine@,
            final(self).domainname@ == other.domainname@,
    {
        self.sysname = other.sysname;
        self.nodename = other.nodename;
        self.release = other.release;
        self.version = other.version;
        self.machine = other.machine;
        self.domainname = other.domainname;
    }
}

} // verus!
