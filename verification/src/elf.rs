//! The memory layout of a program from its ELF program headers: one area
//! per loadable segment, the heap above the highest segment, and the user
//! stack (`elf_file` reads the headers from the file; the caller copies the
//! segment bytes).
use vstd::prelude::*;
use crate::addr::{VirtAddr, VirtPage, PAGE_SIZE};
use crate::config::{USER_HEAP_SIZE, USER_STACK_SIZE, USER_STACK_TOP};
use crate::map_area::MapArea;
use crate::memory_set::{MapAreaType, MapPermission, MapType, MmapFlags, MAP_PERM_R, MAP_PERM_U, MAP_PERM_W, MAP_PERM_X};
use crate::vpn_range::VPNRange;

verus! {

/// Segment types.
pub const PT_LOAD: u32 = 1;

pub const PT_INTERP: u32 = 3;

pub const PT_TLS: u32 = 7;

/// Segment permission flags.
pub const PF_X: u32 = 0x1;

pub const PF_W: u32 = 0x2;

pub const PF_R: u32 = 0x4;

/// The fields of a program header that loading reads.
#[derive(Clone, Copy, Debug, PartialEq, Eq, Structural)]
pub struct ProgramHeader {
    pub p_type: u32,
    pub flags: u32,
    pub offset: u64,
    pub vaddr: u64,
    pub file_size: u64,
    pub mem_size: u64,
}

/// The permission of a loaded segment: user access, plus read, write and
/// execute as its flags grant.
pub open spec fn segment_perm(flags: u32) -> u8 {
    MAP_PERM_U | (if flags & PF_R == PF_R { MAP_PERM_R } else { 0 }) | (if flags & PF_W == PF_W {
        MAP_PERM_W
    } else {
        0
    }) | (if flags & PF_X == PF_X { MAP_PERM_X } else { 0 })
}

/// A loaded segment is user-accessible, and readable, writable or
/// executable exactly when its flags say PF_R, PF_W or PF_X.
pub proof fn lemma_segment_perm_follows_flags(flags: u32)
    ensures
        segment_perm(flags) & MAP_PERM_U == MAP_PERM_U,
        (segment_perm(flags) & MAP_PERM_R == MAP_PERM_R) == (flags & PF_R == PF_R),
        (segment_perm(flags) & MAP_PERM_W == MAP_PERM_W) == (flags & PF_W == PF_W),
        (segment_perm(flags) & MAP_PERM_X == MAP_PERM_X) == (flags & PF_X == PF_X),
{
    assert((1u8 << 1u8) == 2u8 && (1u8 << 2u8) == 4u8 && (1u8 << 3u8) == 8u8 && (1u8 << 4u8) == 16u8) by (bit_vector);
    assert(MAP_PERM_R == 2 && MAP_PERM_W == 4 && MAP_PERM_X == 8 && MAP_PERM_U == 16);
    let p = segment_perm(flags);
    let br = flags & 4 == 4;
    let bw = flags & 2 == 2;
    let bx = flags & 1 == 1;
    assert(p == 16u8 | (if br { 2u8 } else { 0 }) | (if bw { 4u8 } else { 0 }) | (if bx { 8u8 } else { 0 }));
    assert({
        &&& p & 16 == 16
        &&& (p & 2 == 2) == br
        &&& (p & 4 == 4) == bw
        &&& (p & 8 == 8) == bx
    }) by (bit_vector)
        requires
            p == 16u8 | (if br { 2u8 } else { 0 }) | (if bw { 4u8 } else { 0 }) | (if bx { 8u8 } else { 0 }),
    ;
}

/// `x` rounded up to a whole page.
pub open spec fn page_up(x: u64) -> int {
    if (x / 4096) * 4096 != x {
        (x / 4096 + 1) * 4096
    } else {
        x as int
    }
}

/// Start and end addresses of a loadable segment moved up by `offset`.
pub open spec fn seg_start(ph: ProgramHeader, offset: usize) -> int {
    (ph.vaddr as usize) + offset
}

pub open spec fn seg_end(ph: ProgramHeader, offset: usize) -> int {
    ((ph.vaddr + ph.mem_size) as usize) + offset
}

/// The arithmetic of loading `ph` at `offset` fits the machine words.
pub open spec fn header_fits(ph: ProgramHeader, offset: usize) -> bool {
    &&& ph.p_type == PT_TLS ==> ph.vaddr + offset <= u64::MAX
    &&& ph.p_type == PT_LOAD ==> {
        &&& ph.vaddr + ph.mem_size <= usize::MAX
        &&& seg_start(ph, offset) <= usize::MAX
        &&& seg_end(ph, offset) <= usize::MAX
        &&& ph.offset + ph.file_size <= u64::MAX
        &&& ph.vaddr + ph.mem_size + offset <= u64::MAX - PAGE_SIZE
    }
}

/// What the headers `phs[..k]` give: the page-rounded end of the highest
/// loadable segment, the start of the first one, whether there is one, and
/// the address of the last thread-local segment (0 when none).
pub open spec fn elf_fold(phs: Seq<ProgramHeader>, offset: usize, k: int) -> (u64, usize, bool, u64)
    decreases k,
{
    if k <= 0 || k > phs.len() {
        (0, 0, false, 0)
    } else {
        let prev = elf_fold(phs, offset, k - 1);
        let ph = phs[k - 1];
        let tls = if ph.p_type == PT_TLS {
            (ph.vaddr + offset) as u64
        } else {
            prev.3
        };
        if ph.p_type == PT_LOAD {
            let header_va = if prev.2 {
                prev.1
            } else {
                seg_start(ph, offset) as usize
            };
            let end = page_up((ph.vaddr + ph.mem_size + offset) as u64);
            let max = if end > prev.0 {
                end as u64
            } else {
                prev.0
            };
            (max, header_va, true, tls)
        } else {
            (prev.0, prev.1, prev.2, tls)
        }
    }
}

/// A loadable segment: its area, and the range of file bytes it starts with.
pub struct LoadSegment<F, T> {
    pub area: MapArea<F, T>,
    pub data_start: u64,
    pub data_end: u64,
}

/// `s` is the segment of header `ph` loaded at `offset`.
pub open spec fn segment_ok<F, T>(s: LoadSegment<F, T>, ph: ProgramHeader, offset: usize) -> bool {
    let a = s.area;
    let st = seg_start(ph, offset);
    let en = seg_end(ph, offset);
    &&& a.wf()
    &&& a.vpn_range == (VPNRange {
        l: VirtPage((st / PAGE_SIZE as int) as usize),
        r: VirtPage(((en + PAGE_SIZE - 1) / PAGE_SIZE as int) as usize),
        start: VirtAddr(st as usize),
        end: VirtAddr(en as usize),
    })
    &&& a.data_frames@.len() == 0
    &&& a.map_type == MapType::Framed
    &&& a.map_perm == (MapPermission { bits: segment_perm(ph.flags) })
    &&& a.area_type == MapAreaType::Elf
    &&& a.map_file is None
    &&& a.mmap_flag == (MmapFlags { bits: 0 })
    &&& s.data_start == ph.offset
    &&& s.data_end == ph.offset + ph.file_size
}

/// The layout of the segments of a program loaded at `offset`.
pub struct ElfLayout<F, T> {
    /// For each header, its segment when it is loadable.
    pub segments: Vec<Option<LoadSegment<F, T>>>,
    pub max_virt_mem: u64,
    pub header_va: usize,
    pub tls_addr: u64,
    pub ph_count: u16,
    /// Where the program headers are in memory.
    pub phdr: usize,
}

/// The segment permission of `flags`.
fn perm_of_flags(flags: u32) -> (r: MapPermission)
    ensures
        r.bits == segment_perm(flags),
{
    let bits = MAP_PERM_U | (if flags & PF_R == PF_R { MAP_PERM_R } else { 0 }) | (if flags & PF_W
        == PF_W {
        MAP_PERM_W
    } else {
        0
    }) | (if flags & PF_X == PF_X { MAP_PERM_X } else { 0 });
    MapPermission { bits }
}

/// Lays out the program headers `phs` at `offset`: an area for each
/// loadable segment, over the pages from its start to its end in memory,
/// with the permission of its flags; the page-rounded end of the highest
/// segment; the start of the first; the last thread-local segment; and the
/// address of the program headers, `ph_offset` past the first segment.
pub fn map_elf<F, T>(phs: &Vec<ProgramHeader>, offset: usize, ph_count: u16, ph_offset: u64) -> (r: ElfLayout<F, T>)
    requires
        phs@.len() == ph_count,
        forall|i: int| 0 <= i < phs@.len() ==> header_fits(#[trigger] phs@[i], offset),
        elf_fold(phs@, offset, phs@.len() as int).1 + (ph_offset as usize) <= usize::MAX,
    ensures
        r.segments@.len() == phs@.len(),
        forall|i: int|
            0 <= i < phs@.len() ==> match #[trigger] r.segments@[i] {
                Some(s) => phs@[i].p_type == PT_LOAD && segment_ok(s, phs@[i], offset),
                None => phs@[i].p_type != PT_LOAD,
            },
        r.max_virt_mem == elf_fold(phs@, offset, phs@.len() as int).0,
        r.header_va == elf_fold(phs@, offset, phs@.len() as int).1,
        r.tls_addr == elf_fold(phs@, offset, phs@.len() as int).3,
        r.ph_count == ph_count,
        r.phdr == elf_fold(phs@, offset, phs@.len() as int).1 + (ph_offset as usize),
{
    let mut segments: Vec<Option<LoadSegment<F, T>>> = Vec::new();
    let mut tls_addr: u64 = 0;
    let mut max_virt_mem: u64 = 0;
    let mut header_va: usize = 0;
    let mut found_header_va = false;
    let mut i: usize = 0;
    while i < phs.len()
        invariant
            0 <= i <= phs@.len(),
            forall|q: int| 0 <= q < phs@.len() ==> header_fits(#[trigger] phs@[q], offset),
            elf_fold(phs@, offset, i as int) == (max_virt_mem, header_va, found_header_va, tls_addr),
            segments@.len() == i,
            forall|q: int|
                0 <= q < i ==> match #[trigger] segments@[q] {
                    Some(s) => phs@[q].p_type == PT_LOAD && segment_ok(s, phs@[q], offset),
                    None => phs@[q].p_type != PT_LOAD,
                },
        decreases phs@.len() - i,
    {
        let ph = phs[i];
        proof {
            assert(header_fits(phs@[i as int], offset));
        }
        if ph.p_type == PT_TLS {
            tls_addr = ph.vaddr + offset as u64;
        }
        if ph.p_type == PT_LOAD {
            let start_va = VirtAddr::new(ph.vaddr as usize + offset);
            let end_va = VirtAddr::new((ph.vaddr + ph.mem_size) as usize + offset);
            if !found_header_va {
                header_va = start_va.addr();
                found_header_va = true;
            }
            let map_perm = perm_of_flags(ph.flags);
            assert(start_va.0 / PAGE_SIZE <= (end_va.0 + PAGE_SIZE - 1) / (PAGE_SIZE as int)) by (nonlinear_arith)
                requires
                    start_va.0 <= end_va.0,
            ;
            let area = MapArea::new(start_va, end_va, MapType::Framed, map_perm, MapAreaType::Elf);
            segments.push(Some(LoadSegment { area, data_start: ph.offset, data_end: ph.offset + ph.file_size }));
            let mut section_end: u64 = ph.vaddr + ph.mem_size + offset as u64;
            let pn: u64 = section_end / 4096;
            if pn * 4096 != section_end {
                section_end = (pn + 1) * 4096;
            }
            if section_end > max_virt_mem {
                max_virt_mem = section_end;
            }
        } else {
            segments.push(None);
        }
        i = i + 1;
    }
    proof {
        assert(segments@.len() == phs@.len());
    }
    ElfLayout {
        segments,
        max_virt_mem,
        header_va,
        tls_addr,
        ph_count,
        phdr: header_va + ph_offset as usize,
    }
}

/// The memory of a program about to run: its segments, a heap of
/// `USER_HEAP_SIZE` bytes mapped on first touch from the end of the highest
/// segment, and the user stack below `USER_STACK_TOP`.
pub struct ProgramImage<F, T> {
    pub layout: ElfLayout<F, T>,
    pub heap: MapArea<F, T>,
    pub stack: MapArea<F, T>,
    pub user_stack_top: usize,
    pub entry_point: usize,
    pub heap_top: usize,
    pub ph_entry_size: u16,
}

/// What the memory of the program with headers `phs` is, loaded where they
/// say: one area per loadable segment, the heap from the end of the highest
/// segment and the user stack below `USER_STACK_TOP`.
pub open spec fn image_ok<F, T>(
    r: ProgramImage<F, T>,
    phs: Seq<ProgramHeader>,
    ph_count: u16,
    ph_offset: u64,
    entry_point: u64,
    ph_entry_size: u16,
) -> bool {
    &&& r.layout.segments@.len() == phs.len()
    &&& forall|i: int|
        0 <= i < phs.len() ==> match #[trigger] r.layout.segments@[i] {
            Some(s) => phs[i].p_type == PT_LOAD && segment_ok(s, phs[i], 0),
            None => phs[i].p_type != PT_LOAD,
        }
    &&& r.layout.max_virt_mem == elf_fold(phs, 0, phs.len() as int).0
    &&& r.layout.tls_addr == elf_fold(phs, 0, phs.len() as int).3
    &&& r.layout.phdr == elf_fold(phs, 0, phs.len() as int).1 + (ph_offset as usize)
    &&& r.layout.ph_count == ph_count
    &&& r.heap_top == r.layout.max_virt_mem + USER_HEAP_SIZE
    &&& r.heap.wf()
    &&& r.heap.vpn_range.start == VirtAddr(r.layout.max_virt_mem as usize)
    &&& r.heap.vpn_range.end == VirtAddr(r.heap_top)
    &&& r.heap.vpn_range.l.0 == r.layout.max_virt_mem / PAGE_SIZE as u64
    &&& r.heap.vpn_range.r.0 == (r.heap_top + PAGE_SIZE - 1) / PAGE_SIZE as int
    &&& r.heap.map_perm.bits == MAP_PERM_R | MAP_PERM_W | MAP_PERM_U
    &&& r.heap.area_type == MapAreaType::Heap
    &&& r.heap.map_type == MapType::Framed
    &&& r.heap.data_frames@.len() == 0
    &&& r.heap.map_file is None
    &&& r.stack.wf()
    &&& r.stack.vpn_range == (VPNRange {
        l: VirtPage(((USER_STACK_TOP - USER_STACK_SIZE) / PAGE_SIZE as int) as usize),
        r: VirtPage(USER_STACK_TOP / PAGE_SIZE),
        start: VirtAddr((USER_STACK_TOP - USER_STACK_SIZE) as usize),
        end: VirtAddr(USER_STACK_TOP),
    })
    &&& r.stack.map_perm.bits == MAP_PERM_R | MAP_PERM_W | MAP_PERM_U
    &&& r.stack.area_type == MapAreaType::Stack
    &&& r.stack.map_type == MapType::Framed
    &&& r.stack.data_frames@.len() == 0
    &&& r.stack.map_file is None
    &&& r.user_stack_top == USER_STACK_TOP
    &&& r.entry_point == entry_point as usize
    &&& r.ph_entry_size == ph_entry_size
}

/// The memory of the program with headers `phs`, loaded where they say.
pub fn from_elf<F, T>(
    phs: &Vec<ProgramHeader>,
    ph_count: u16,
    ph_offset: u64,
    entry_point: u64,
    ph_entry_size: u16,
) -> (r: ProgramImage<F, T>)
    requires
        phs@.len() == ph_count,
        forall|i: int| 0 <= i < phs@.len() ==> header_fits(#[trigger] phs@[i], 0),
        elf_fold(phs@, 0, phs@.len() as int).1 + (ph_offset as usize) <= usize::MAX,
        elf_fold(phs@, 0, phs@.len() as int).0 + USER_HEAP_SIZE <= usize::MAX,
    ensures
        image_ok(r, phs@, ph_count, ph_offset, entry_point, ph_entry_size),
{
    let layout = map_elf(phs, 0, ph_count, ph_offset);
    let heap_start = layout.max_virt_mem as usize;
    let heap_top = heap_start + USER_HEAP_SIZE;
    assert(heap_start / PAGE_SIZE <= (heap_top + PAGE_SIZE - 1) / (PAGE_SIZE as int)) by (nonlinear_arith)
        requires
            heap_start <= heap_top,
    ;
    let heap = MapArea::new(
        VirtAddr::new(heap_start),
        VirtAddr::new(heap_top),
        MapType::Framed,
        MapPermission { bits: MAP_PERM_R | MAP_PERM_W | MAP_PERM_U },
        MapAreaType::Heap,
    );
    let user_stack_top = USER_STACK_TOP;
    let user_stack_bottom = user_stack_top - USER_STACK_SIZE;
    let stack = MapArea::new(
        VirtAddr::new(user_stack_bottom),
        VirtAddr::new(user_stack_top),
        MapType::Framed,
        MapPermission { bits: MAP_PERM_R | MAP_PERM_W | MAP_PERM_U },
        MapAreaType::Stack,
    );
    ProgramImage {
        layout,
        heap,
        stack,
        user_stack_top,
        entry_point: entry_point as usize,
        heap_top,
        ph_entry_size,
    }
}


/// Whether the arithmetic of loading `ph` at `offset` fits the machine
/// words (`header_fits`).
pub fn header_fits_exec(ph: &ProgramHeader, offset: usize) -> (r: bool)
    ensures
        r == header_fits(*ph, offset),
{
    let v = ph.vaddr as u128;
    let m = ph.mem_size as u128;
    let o = offset as u128;
    let umax = usize::MAX as u128;
    if ph.p_type == PT_TLS && v + o > u64::MAX as u128 {
        return false;
    }
    if ph.p_type == PT_LOAD {
        if v + m > umax {
            return false;
        }
        let start = (ph.vaddr as usize) as u128 + o;
        let end = ((ph.vaddr + ph.mem_size) as usize) as u128 + o;
        if start > umax || end > umax {
            return false;
        }
        if (ph.offset as u128) + (ph.file_size as u128) > u64::MAX as u128 {
            return false;
        }
        if v + m + o > u64::MAX as u128 - PAGE_SIZE as u128 {
            return false;
        }
    }
    true
}

/// Whether `map_elf(phs, offset, _, ph_offset)`, followed by a heap of
/// `heap_size` bytes above the highest segment, fits the machine words:
/// every header fits, and so do the program header address and the heap
/// top.
pub fn elf_layout_fits(phs: &Vec<ProgramHeader>, offset: usize, ph_offset: u64, heap_size: usize) -> (r: bool)
    ensures
        r == ((forall|i: int| 0 <= i < phs@.len() ==> header_fits(#[trigger] phs@[i], offset))
            && elf_fold(phs@, offset, phs@.len() as int).1 + (ph_offset as usize) <= usize::MAX
            && elf_fold(phs@, offset, phs@.len() as int).0 + heap_size <= usize::MAX),
{
    let mut i: usize = 0;
    while i < phs.len()
        invariant
            0 <= i <= phs@.len(),
            forall|q: int| 0 <= q < i ==> header_fits(#[trigger] phs@[q], offset),
        decreases phs@.len() - i,
    {
        if !header_fits_exec(&phs[i], offset) {
            return false;
        }
        i = i + 1;
    }
    let mut tls_addr: u64 = 0;
    let mut max_virt_mem: u64 = 0;
    let mut header_va: usize = 0;
    let mut found: bool = false;
    let mut k: usize = 0;
    while k < phs.len()
        invariant
            0 <= k <= phs@.len(),
            forall|q: int| 0 <= q < phs@.len() ==> header_fits(#[trigger] phs@[q], offset),
            elf_fold(phs@, offset, k as int) == (max_virt_mem, header_va, found, tls_addr),
        decreases phs@.len() - k,
    {
        let ph = phs[k];
        proof {
            assert(header_fits(phs@[k as int], offset));
        }
        if ph.p_type == PT_TLS {
            tls_addr = ph.vaddr + offset as u64;
        }
        if ph.p_type == PT_LOAD {
            if !found {
                header_va = ph.vaddr as usize + offset;
                found = true;
            }
            let mut section_end: u64 = ph.vaddr + ph.mem_size + offset as u64;
            let pn: u64 = section_end / 4096;
            if pn * 4096 != section_end {
                section_end = (pn + 1) * 4096;
            }
            if section_end > max_virt_mem {
                max_virt_mem = section_end;
            }
        }
        k = k + 1;
    }
    (header_va as u128) + (ph_offset as usize) as u128 <= usize::MAX as u128 && (max_virt_mem as u128)
        + (heap_size as u128) <= usize::MAX as u128
}

} // verus!
