//! Directory listing for `getdents`: which entries go into the user's
//! buffer, and where each record lies. A record is 19 header bytes, the
//! name and a NUL, rounded up to 8 bytes.
use vstd::prelude::*;

verus! {

/// What the listing reads of a directory entry.
#[derive(Clone, Copy, Debug, PartialEq, Eq, Structural)]
pub struct DirEntryInfo {
    /// Whether the entry has an inode (entries without one are skipped).
    pub has_inode: bool,
    pub name_len: usize,
    pub ino: u64,
    pub is_dir: bool,
    pub is_file: bool,
}

/// One record of the listing: the entry it describes and its header.
#[derive(Clone, Copy, Debug, PartialEq, Eq, Structural)]
pub struct DirentRecord {
    pub entry: usize,
    pub d_ino: u64,
    pub d_off: u64,
    pub d_reclen: u16,
    pub d_type: u8,
}

/// Record length of an entry with a name of `name_len` bytes.
pub open spec fn reclen_of(name_len: usize) -> u16 {
    (((19 + name_len + 1 + 7) as usize) & !7usize) as u16
}

/// The type byte: 4 for a directory, 8 for a file, else 0.
pub open spec fn type_of(e: DirEntryInfo) -> u8 {
    if e.is_dir {
        4
    } else if e.is_file {
        8
    } else {
        0
    }
}

/// The listing from entry `k` on, with the directory offset at `off` and
/// `write` bytes used of a buffer of `len` bytes: the records, the offset
/// and the bytes used at the end, and whether all arithmetic fitted.
pub open spec fn listing(entries: Seq<DirEntryInfo>, k: int, off: int, write: int, len: usize) -> (Seq<
    DirentRecord,
>, int, int, bool)
    decreases entries.len() - k,
{
    if k < 0 || k >= entries.len() {
        (Seq::empty(), off, write, true)
    } else {
        let e = entries[k];
        if !e.has_inode {
            if off + 1 > usize::MAX {
                (Seq::empty(), off, write, false)
            } else {
                listing(entries, k + 1, off + 1, write, len)
            }
        } else if 19 + e.name_len + 1 + 7 > usize::MAX {
            (Seq::empty(), off, write, false)
        } else {
            let rl = reclen_of(e.name_len);
            if write + rl > u16::MAX {
                (Seq::empty(), off, write, false)
            } else if write + rl > (len as u16) {
                (Seq::empty(), off, write, true)
            } else if off + 1 > usize::MAX {
                (Seq::empty(), off, write, false)
            } else {
                let rest = listing(entries, k + 1, off + 1, write + rl, len);
                (
                    seq![DirentRecord { entry: k as usize, d_ino: e.ino, d_off: off as u64, d_reclen: rl, d_type: type_of(e) }]
                        + rest.0,
                    rest.1,
                    rest.2,
                    rest.3,
                )
            }
        }
    }
}

/// The records that `getdents` writes for a directory whose entries are
/// `entries`, read from directory offset `offset` into a buffer of `len`
/// bytes: entries without an inode are skipped (the offset still moves past
/// them), and the listing stops at the first record that does not fit the
/// buffer length taken as 16 bits. Returns the records, the new offset and
/// the bytes written.
pub fn getdents_plan(entries: &Vec<DirEntryInfo>, offset: usize, len: usize) -> (r: (Vec<DirentRecord>, usize, u16))
    requires
        listing(entries@, offset as int, offset as int, 0, len).3,
    ensures
        r.0@ == listing(entries@, offset as int, offset as int, 0, len).0,
        r.1 == listing(entries@, offset as int, offset as int, 0, len).1,
        r.2 == listing(entries@, offset as int, offset as int, 0, len).2,
{
    let ghost all = listing(entries@, offset as int, offset as int, 0, len);
    let mut records: Vec<DirentRecord> = Vec::new();
    let mut off = offset;
    let mut write: u16 = 0;
    let mut k = offset;
    while k < entries.len()
        invariant_except_break
            offset <= k <= entries@.len() || (k == offset && offset > entries@.len()),
            listing(entries@, k as int, off as int, write as int, len).3,
            all.0 == records@ + listing(entries@, k as int, off as int, write as int, len).0,
            all.1 == listing(entries@, k as int, off as int, write as int, len).1,
            all.2 == listing(entries@, k as int, off as int, write as int, len).2,
        ensures
            all.0 == records@,
            all.1 == off,
            all.2 == write,
        decreases entries@.len() - k,
    {
        let e = entries[k];
        if !e.has_inode {
            off = off + 1;
            k = k + 1;
            continue;
        }
        let name_size = e.name_len + 1;
        let rl = ((19 + name_size + 7) & !7usize) as u16;
        if write as u32 + rl as u32 > len as u16 as u32 {
            proof {
                assert(records@ + Seq::<DirentRecord>::empty() =~= records@);
            }
            break;
        }
        let d_type: u8 = if e.is_dir {
            4
        } else if e.is_file {
            8
        } else {
            0
        };
        let rec = DirentRecord { entry: k, d_ino: e.ino, d_off: off as u64, d_reclen: rl, d_type };
        let ghost before = records@;
        records.push(rec);
        proof {
            let rest = listing(entries@, k + 1, off + 1, write + rl, len);
            assert(before + (seq![rec] + rest.0) =~= records@ + rest.0);
        }
        off = off + 1;
        write = write + rl;
        k = k + 1;
    }
    proof {
        if k >= entries@.len() {
            assert(records@ + Seq::<DirentRecord>::empty() =~= records@);
        }
    }
    (records, off, write)
}

} // verus!
