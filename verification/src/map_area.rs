//! Areas of a user address space: their frames, kept in page order, and the
//! split of areas along the page bounds of a range.
use vstd::prelude::*;
use crate::addr::{VirtAddr, VirtPage, PAGE_SIZE};
use crate::vpn_range::VPNRange;
use crate::memory_set::{MapAreaControl, MapAreaType, MapPermission, MapType, MmapFlags};
use crate::error::{SysError, SysResult};
use crate::pagetable::{MappingFlags, MF_COW, MF_W};
use std::collections::BTreeMap;

verus! {

/// Frames of an area strictly ascending by page number, as a map keyed by
/// page keeps them.
pub open spec fn frames_sorted<T>(fr: Seq<(VirtPage, T)>) -> bool {
    forall|i: int, j: int| 0 <= i < j < fr.len() ==> fr[i].0.0 < fr[j].0.0
}

/// Number of frames below page `b` in a sorted frame list: the index of the
/// first frame at or above `b`.
pub open spec fn cut<T>(fr: Seq<(VirtPage, T)>, b: usize) -> int
    decreases fr.len(),
{
    if fr.len() == 0 {
        0
    } else if fr.last().0.0 < b {
        fr.len() as int
    } else {
        cut(fr.drop_last(), b)
    }
}

/// Whether some frame of the list is at page `p`.
pub open spec fn holds_page<T>(fr: Seq<(VirtPage, T)>, p: usize) -> bool {
    exists|i: int| 0 <= i < fr.len() && fr[i].0.0 == p
}

/// The frames below `b` come first in a sorted list, the others after.
pub proof fn lemma_cut<T>(fr: Seq<(VirtPage, T)>, b: usize)
    requires
        frames_sorted(fr),
    ensures
        0 <= cut(fr, b) <= fr.len(),
        forall|i: int| 0 <= i < cut(fr, b) ==> fr[i].0.0 < b,
        forall|i: int| cut(fr, b) <= i < fr.len() ==> fr[i].0.0 >= b,
    decreases fr.len(),
{
    if fr.len() > 0 {
        if fr.last().0.0 < b {
            assert forall|i: int| 0 <= i < fr.len() implies fr[i].0.0 < b by {
                if i < fr.len() - 1 {
                    assert(fr[i].0.0 < fr[fr.len() - 1].0.0);
                }
            }
        } else {
            let d = fr.drop_last();
            lemma_cut(d, b);
            assert forall|i: int| 0 <= i < cut(fr, b) implies fr[i].0.0 < b by {
                assert(fr[i] == d[i]);
            }
            assert forall|i: int| cut(fr, b) <= i < fr.len() implies fr[i].0.0 >= b by {
                if i < fr.len() - 1 {
                    assert(fr[i] == d[i]);
                }
            }
        }
    }
}

/// Any index that parts a sorted list into frames below `b` and frames at
/// or above it is `cut`.
proof fn lemma_cut_unique<T>(fr: Seq<(VirtPage, T)>, b: usize, k: int)
    requires
        frames_sorted(fr),
        0 <= k <= fr.len(),
        forall|i: int| 0 <= i < k ==> fr[i].0.0 < b,
        forall|i: int| k <= i < fr.len() ==> fr[i].0.0 >= b,
    ensures
        k == cut(fr, b),
{
    lemma_cut(fr, b);
    let c = cut(fr, b);
    if k < c {
        assert(fr[k].0.0 < b);
    } else if c < k {
        assert(fr[c].0.0 < b);
    }
}

/// A sorted list holds page `p` exactly when the frame at the cut is `p`.
proof fn lemma_holds_page<T>(fr: Seq<(VirtPage, T)>, p: usize)
    requires
        frames_sorted(fr),
    ensures
        holds_page(fr, p) <==> (cut(fr, p) < fr.len() && fr[cut(fr, p)].0.0 == p),
{
    lemma_cut(fr, p);
    if holds_page(fr, p) {
        let i = choose|i: int| 0 <= i < fr.len() && fr[i].0.0 == p;
        let c = cut(fr, p);
        if c < i {
            assert(fr[c].0.0 < fr[i].0.0);
        }
    }
}

/// Parts of a sorted list stay sorted.
proof fn lemma_sorted_subrange<T>(fr: Seq<(VirtPage, T)>, a: int, b: int)
    requires
        frames_sorted(fr),
        0 <= a <= b <= fr.len(),
    ensures
        frames_sorted(fr.subrange(a, b)),
{
    let s = fr.subrange(a, b);
    assert forall|i: int, j: int| 0 <= i < j < s.len() implies s[i].0.0 < s[j].0.0 by {
        assert(s[i] == fr[a + i] && s[j] == fr[a + j]);
    }
}

/// The index of the first frame at or above page `b`.
fn first_at_or_above<T>(fr: &Vec<(VirtPage, T)>, b: usize) -> (k: usize)
    requires
        frames_sorted(fr@),
    ensures
        k == cut(fr@, b),
{
    let mut k: usize = 0;
    while k < fr.len() && fr[k].0.0 < b
        invariant
            0 <= k <= fr@.len(),
            forall|i: int| 0 <= i < k ==> fr@[i].0.0 < b,
        decreases fr@.len() - k,
    {
        k = k + 1;
    }
    proof {
        assert forall|i: int| k <= i < fr@.len() implies fr@[i].0.0 >= b by {
            if k < i {
                assert(fr@[k as int].0.0 < fr@[i].0.0);
            }
        }
        lemma_cut_unique(fr@, b, k as int);
    }
    k
}

/// The address of the first byte of page `p`.
pub open spec fn page_base(p: VirtPage) -> VirtAddr {
    VirtAddr(p.0 << 12usize)
}

fn page_base_of(p: VirtPage) -> (r: VirtAddr)
    ensures
        r == page_base(p),
{
    VirtAddr(p.to_addr())
}

/// Whether `b` is the clone of `a`, both absent or both present.
pub open spec fn file_cloned<F: Clone>(a: Option<F>, b: Option<F>) -> bool {
    match a {
        None => b is None,
        Some(x) => b is Some && cloned(x, b->0),
    }
}

/// A contiguous piece of a user address space with the frames that back
/// its pages, kept in page order.
pub struct MapArea<F, T> {
    pub vpn_range: VPNRange,
    pub data_frames: Vec<(VirtPage, T)>,
    pub map_type: MapType,
    pub map_perm: MapPermission,
    pub area_type: MapAreaType,
    pub map_file: Option<F>,
    pub mmap_flag: MmapFlags,
}

impl<F, T> MapArea<F, T> {
    /// The range is not inverted and the frames are in page order.
    pub open spec fn wf(&self) -> bool {
        &&& self.vpn_range.l.0 <= self.vpn_range.r.0
        &&& frames_sorted(self.data_frames@)
    }

    /// An area over the pages that hold `start_va .. end_va`, with no frame
    /// yet, no file and no mmap flag.
    pub fn new(
        start_va: VirtAddr,
        end_va: VirtAddr,
        map_type: MapType,
        map_perm: MapPermission,
        area_type: MapAreaType,
    ) -> (r: Self)
        requires
            start_va.0 / PAGE_SIZE <= (end_va.0 + PAGE_SIZE - 1) / (PAGE_SIZE as int),
        ensures
            r.wf(),
            r.vpn_range.l.0 == start_va.0 / PAGE_SIZE,
            r.vpn_range.r.0 == (end_va.0 + PAGE_SIZE - 1) / (PAGE_SIZE as int),
            r.vpn_range.start == start_va,
            r.vpn_range.end == end_va,
            r.data_frames@ == Seq::<(VirtPage, T)>::empty(),
            r.map_type == map_type,
            r.map_perm == map_perm,
            r.area_type == area_type,
            r.map_file is None,
            r.mmap_flag == (MmapFlags { bits: 0 }),
    {
        let start_vpn = start_va.floor();
        let end_vpn = end_va.ceil();
        MapArea {
            vpn_range: VPNRange::new(start_vpn, end_vpn, start_va, end_va),
            data_frames: Vec::new(),
            map_type,
            map_perm,
            area_type,
            map_file: None,
            mmap_flag: MmapFlags::empty(),
        }
    }
}

/// Same kind of area: map type, permission, area type and mmap flags.
pub open spec fn same_kind<F, T>(x: MapArea<F, T>, a: MapArea<F, T>) -> bool {
    &&& x.map_type == a.map_type
    &&& x.map_perm == a.map_perm
    &&& x.area_type == a.area_type
    &&& x.mmap_flag == a.mmap_flag
}

impl<F: Clone, T> MapArea<F, T> {
    /// An empty area like `another`: same range, kind and a clone of its file.
    pub fn from_another(another: &Self) -> (r: Self)
        requires
            another.vpn_range.l.0 <= another.vpn_range.r.0,
        ensures
            r.wf(),
            r.vpn_range == another.vpn_range,
            r.data_frames@ == Seq::<(VirtPage, T)>::empty(),
            same_kind(r, *another),
            file_cloned(another.map_file, r.map_file),
    {
        MapArea {
            vpn_range: VPNRange::new(
                another.vpn_range.get_start(),
                another.vpn_range.get_end(),
                another.vpn_range.get_start_addr(),
                another.vpn_range.get_end_addr(),
            ),
            data_frames: Vec::new(),
            map_type: another.map_type,
            map_perm: another.map_perm,
            area_type: another.area_type,
            map_file: another.map_file.clone(),
            mmap_flag: another.mmap_flag,
        }
    }
}

/// How an area `l .. r` lies against the range `start .. end`, tested in
/// the order that the split tests them.
pub enum Overlap {
    /// Wholly inside the range.
    Inside,
    /// Begins below the range and ends inside it.
    Tail,
    /// Begins inside the range and ends above it.
    Head,
    /// Covers the range and reaches past both ends.
    Middle,
    /// Shares no page with the range.
    Apart,
}

pub open spec fn overlap(l: usize, r: usize, start: usize, end: usize) -> Overlap {
    if l >= start && r <= end {
        Overlap::Inside
    } else if l < start && r > start && r <= end {
        Overlap::Tail
    } else if l >= start && l < end && r > end {
        Overlap::Head
    } else if l < start && r > end {
        Overlap::Middle
    } else {
        Overlap::Apart
    }
}

/// `x` is `a` cut down in place to `range` with the frames `fr`.
pub open spec fn cut_piece<F, T>(
    x: MapArea<F, T>,
    a: MapArea<F, T>,
    range: VPNRange,
    fr: Seq<(VirtPage, T)>,
) -> bool {
    &&& same_kind(x, a)
    &&& x.map_file == a.map_file
    &&& x.vpn_range == range
    &&& x.data_frames@ == fr
}

/// `x` is a new area made from `a` for `range` with the frames `fr`.
pub open spec fn split_piece<F: Clone, T>(
    x: MapArea<F, T>,
    a: MapArea<F, T>,
    range: VPNRange,
    fr: Seq<(VirtPage, T)>,
) -> bool {
    &&& same_kind(x, a)
    &&& file_cloned(a.map_file, x.map_file)
    &&& x.vpn_range == range
    &&& x.data_frames@ == fr
}

/// What the split along `start .. end` leaves of area `a` in its place.
pub open spec fn kept_ok<F, T>(x: MapArea<F, T>, a: MapArea<F, T>, start: VirtPage, end: VirtPage) -> bool {
    let l = a.vpn_range.l;
    let r = a.vpn_range.r;
    let fr = a.data_frames@;
    match overlap(l.0, r.0, start.0, end.0) {
        Overlap::Tail => cut_piece(
            x,
            a,
            VPNRange { l, r: start, start: a.vpn_range.start, end: page_base(start) },
            fr.take(cut(fr, start.0)),
        ),
        Overlap::Head => cut_piece(
            x,
            a,
            VPNRange { l: end, r, start: page_base(end), end: a.vpn_range.end },
            fr.skip(cut(fr, end.0)),
        ),
        Overlap::Middle => cut_piece(
            x,
            a,
            VPNRange { l: start, r: end, start: page_base(start), end: page_base(end) },
            fr.subrange(cut(fr, start.0), cut(fr, end.0)),
        ),
        _ => x == a,
    }
}

/// How many new areas the split along `start .. end` makes of area `a`.
pub open spec fn extra_count<F, T>(a: MapArea<F, T>, start: VirtPage, end: VirtPage) -> nat {
    match overlap(a.vpn_range.l.0, a.vpn_range.r.0, start.0, end.0) {
        Overlap::Tail => 1,
        Overlap::Head => 1,
        Overlap::Middle => 2,
        _ => 0,
    }
}

/// The `j`-th new area that the split along `start .. end` makes of `a`.
pub open spec fn extra_ok<F: Clone, T>(
    x: MapArea<F, T>,
    a: MapArea<F, T>,
    start: VirtPage,
    end: VirtPage,
    j: int,
) -> bool {
    let l = a.vpn_range.l;
    let r = a.vpn_range.r;
    let fr = a.data_frames@;
    match overlap(l.0, r.0, start.0, end.0) {
        Overlap::Tail => split_piece(
            x,
            a,
            VPNRange { l: start, r, start: page_base(start), end: a.vpn_range.end },
            fr.skip(cut(fr, start.0)),
        ),
        Overlap::Head => split_piece(
            x,
            a,
            VPNRange { l, r: end, start: a.vpn_range.start, end: page_base(end) },
            fr.take(cut(fr, end.0)),
        ),
        Overlap::Middle => if j == 0 {
            split_piece(
                x,
                a,
                VPNRange { l, r: start, start: a.vpn_range.start, end: page_base(start) },
                fr.take(cut(fr, start.0)),
            )
        } else {
            split_piece(
                x,
                a,
                VPNRange { l: end, r, start: page_base(end), end: a.vpn_range.end },
                fr.skip(cut(fr, end.0)),
            )
        },
        _ => false,
    }
}

/// How many new areas the split makes of all of `areas`.
pub open spec fn total_extra<F, T>(areas: Seq<MapArea<F, T>>, start: VirtPage, end: VirtPage) -> nat
    decreases areas.len(),
{
    if areas.len() == 0 {
        0
    } else {
        total_extra(areas.drop_last(), start, end) + extra_count(areas.last(), start, end)
    }
}

/// The `j`-th new area made of `old[i]` stands in `new` behind the areas in
/// place and the new areas of `old[..i]`.
pub open spec fn extra_placed<F: Clone, T>(
    new: Seq<MapArea<F, T>>,
    old: Seq<MapArea<F, T>>,
    i: int,
    j: int,
    start: VirtPage,
    end: VirtPage,
) -> bool {
    extra_ok(new[old.len() + total_extra(old.take(i), start, end) + j], old[i], start, end, j)
}

/// `new` is what the split along `start .. end` makes of `old`: each area
/// in its place, as `kept_ok` says, followed by the new areas in the order
/// of the areas they come from.
pub open spec fn split_all<F: Clone, T>(
    old: Seq<MapArea<F, T>>,
    new: Seq<MapArea<F, T>>,
    start: VirtPage,
    end: VirtPage,
) -> bool {
    &&& new.len() == old.len() + total_extra(old, start, end)
    &&& forall|i: int| 0 <= i < old.len() ==> #[trigger] kept_ok(new[i], old[i], start, end)
    &&& forall|i: int, j: int|
        0 <= i < old.len() && 0 <= j < extra_count(old[i], start, end) ==> #[trigger] extra_placed(
            new,
            old,
            i,
            j,
            start,
            end,
        )
}

/// The new areas of a prefix of `areas` come before those of the next area.
proof fn lemma_total_extra_prefix<F, T>(areas: Seq<MapArea<F, T>>, i: int, k: int, start: VirtPage, end: VirtPage)
    requires
        0 <= i < k <= areas.len(),
    ensures
        total_extra(areas.take(i), start, end) + extra_count(areas[i], start, end) <= total_extra(
            areas.take(k),
            start,
            end,
        ),
    decreases k - i,
{
    assert(areas.take(k).drop_last() =~= areas.take(k - 1));
    if i < k - 1 {
        lemma_total_extra_prefix(areas, i, k - 1, start, end);
    }
}

/// Splits one area along `start .. end`: the area that stays in its place
/// and the new areas, in page order.
fn split_area<F: Clone, T>(a: MapArea<F, T>, start: VirtPage, end: VirtPage) -> (res: (
    MapArea<F, T>,
    Vec<MapArea<F, T>>,
))
    requires
        a.wf(),
        start.0 <= end.0,
    ensures
        res.0.wf(),
        kept_ok(res.0, a, start, end),
        res.1@.len() == extra_count(a, start, end),
        forall|j: int| 0 <= j < res.1@.len() ==> (#[trigger] res.1@[j]).wf() && extra_ok(res.1@[j], a, start, end, j),
{
    let ghost fr = a.data_frames@;
    let s = a.vpn_range.get_start();
    let e = a.vpn_range.get_end();
    let mut extras: Vec<MapArea<F, T>> = Vec::new();
    if s.0 >= start.0 && e.0 <= end.0 {
        (a, extras)
    } else if s.0 < start.0 && e.0 > start.0 && e.0 <= end.0 {
        let mut area = a;
        let start_addr = page_base_of(start);
        let mut new_area = MapArea::from_another(&area);
        new_area.vpn_range = VPNRange::new(start, e, start_addr, area.vpn_range.end);
        area.vpn_range = VPNRange::new(s, start, area.vpn_range.start, start_addr);
        let k = first_at_or_above(&area.data_frames, start.0);
        proof {
            lemma_cut(fr, start.0);
        }
        let moved = area.data_frames.split_off(k);
        new_area.data_frames = moved;
        proof {
            lemma_sorted_subrange(fr, 0, k as int);
            lemma_sorted_subrange(fr, k as int, fr.len() as int);
            assert(area.data_frames@ =~= fr.take(cut(fr, start.0)));
            assert(new_area.data_frames@ =~= fr.skip(cut(fr, start.0)));
        }
        extras.push(new_area);
        (area, extras)
    } else if s.0 >= start.0 && s.0 < end.0 && e.0 > end.0 {
        let mut area = a;
        let end_addr = page_base_of(end);
        let mut new_area = MapArea::from_another(&area);
        new_area.vpn_range = VPNRange::new(s, end, area.vpn_range.start, end_addr);
        area.vpn_range = VPNRange::new(end, e, end_addr, area.vpn_range.end);
        let k = first_at_or_above(&area.data_frames, end.0);
        proof {
            lemma_cut(fr, end.0);
        }
        let mut front = area.data_frames.split_off(k);
        std::mem::swap(&mut area.data_frames, &mut front);
        new_area.data_frames = front;
        proof {
            lemma_sorted_subrange(fr, 0, k as int);
            lemma_sorted_subrange(fr, k as int, fr.len() as int);
            assert(area.data_frames@ =~= fr.skip(cut(fr, end.0)));
            assert(new_area.data_frames@ =~= fr.take(cut(fr, end.0)));
        }
        extras.push(new_area);
        (area, extras)
    } else if s.0 < start.0 && e.0 > end.0 {
        let mut area = a;
        let start_addr = page_base_of(start);
        let end_addr = page_base_of(end);
        let mut front_area = MapArea::from_another(&area);
        let mut back_area = MapArea::from_another(&area);
        front_area.vpn_range = VPNRange::new(s, start, area.vpn_range.start, start_addr);
        back_area.vpn_range = VPNRange::new(end, e, end_addr, area.vpn_range.end);
        area.vpn_range = VPNRange::new(start, end, start_addr, end_addr);
        let k1 = first_at_or_above(&area.data_frames, start.0);
        let k2 = first_at_or_above(&area.data_frames, end.0);
        proof {
            lemma_cut(fr, start.0);
            lemma_cut(fr, end.0);
            if k2 < k1 {
                assert(fr[k2 as int].0.0 >= end.0);
            }
        }
        let back = area.data_frames.split_off(k2);
        let mut front = area.data_frames.split_off(k1);
        std::mem::swap(&mut area.data_frames, &mut front);
        front_area.data_frames = front;
        back_area.data_frames = back;
        proof {
            lemma_sorted_subrange(fr, 0, k1 as int);
            lemma_sorted_subrange(fr, k1 as int, k2 as int);
            lemma_sorted_subrange(fr, k2 as int, fr.len() as int);
            assert(front_area.data_frames@ =~= fr.take(k1 as int));
            assert(area.data_frames@ =~= fr.subrange(k1 as int, k2 as int));
            assert(back_area.data_frames@ =~= fr.skip(k2 as int));
        }
        extras.push(front_area);
        extras.push(back_area);
        (area, extras)
    } else {
        (a, extras)
    }
}

/// The areas of a user address space and its mmap bookkeeping; the page
/// table that maps them is kept beside it by the caller.
pub struct MemorySet<F, T> {
    pub areas: Vec<MapArea<F, T>>,
    pub mapareacontrol: MapAreaControl,
}

impl<F, T> MemorySet<F, T> {
    /// Every area is well formed.
    pub open spec fn wf(&self) -> bool {
        forall|i: int| 0 <= i < self.areas@.len() ==> (#[trigger] self.areas@[i]).wf()
    }

    /// An address space with no area and fresh mmap bookkeeping.
    pub fn new_bare() -> (r: Self)
        ensures
            r.wf(),
            r.areas@ == Seq::<MapArea<F, T>>::empty(),
            r.mapareacontrol.mmap_top == crate::config::USER_MMAP_TOP,
            r.mapareacontrol.mapfreeblock@ == Seq::<crate::memory_set::MapFreeControl>::empty(),
    {
        MemorySet { areas: Vec::new(), mapareacontrol: MapAreaControl::new() }
    }

    /// Adds an area whose pages are mapped on first touch.
    pub fn push_into_area_lazy(&mut self, map_area: MapArea<F, T>)
        ensures
            final(self).areas@ == old(self).areas@.push(map_area),
            final(self).mapareacontrol == old(self).mapareacontrol,
    {
        self.areas.push(map_area);
    }

    /// Forgets all areas.
    pub fn recycle_data_pages(&mut self)
        ensures
            final(self).areas@ == Seq::<MapArea<F, T>>::empty(),
            final(self).mapareacontrol == old(self).mapareacontrol,
    {
        self.areas.clear();
    }
}

impl<F: Clone, T> MemorySet<F, T> {
    /// Splits the areas along `start .. end` so that each area lies wholly
    /// inside or wholly outside the range; the new pieces go to the end.
    pub fn split_vpn_range(&mut self, start: VirtPage, end: VirtPage)
        requires
            old(self).wf(),
            start.0 <= end.0,
        ensures
            final(self).wf(),
            final(self).mapareacontrol == old(self).mapareacontrol,
            split_all(old(self).areas@, final(self).areas@, start, end),
    {
        let mut rest: Vec<MapArea<F, T>> = Vec::new();
        std::mem::swap(&mut self.areas, &mut rest);
        let ghost orig = rest@;
        let mut kept: Vec<MapArea<F, T>> = Vec::new();
        let mut extras: Vec<MapArea<F, T>> = Vec::new();
        let ghost mut i: int = 0;
        while rest.len() > 0
            invariant
                0 <= i <= orig.len(),
                rest@ == orig.skip(i),
                forall|q: int| 0 <= q < orig.len() ==> (#[trigger] orig[q]).wf(),
                kept@.len() == i,
                forall|q: int| 0 <= q < i ==> #[trigger] kept_ok(kept@[q], orig[q], start, end),
                forall|q: int| 0 <= q < i ==> (#[trigger] kept@[q]).wf(),
                extras@.len() == total_extra(orig.take(i), start, end),
                forall|q: int| 0 <= q < extras@.len() ==> (#[trigger] extras@[q]).wf(),
                forall|q: int, j: int|
                    0 <= q < i && 0 <= j < extra_count(orig[q], start, end) ==> #[trigger] extra_ok(
                        extras@[total_extra(orig.take(q), start, end) + j],
                        orig[q],
                        start,
                        end,
                        j,
                    ),
                start.0 <= end.0,
            decreases rest@.len(),
        {
            let a = rest.remove(0);
            proof {
                assert(a == orig[i]);
            }
            let (k, mut ex) = split_area(a, start, end);
            let ghost before = extras@;
            let ghost exs = ex@;
            kept.push(k);
            extras.append(&mut ex);
            proof {
                let t = orig.take(i + 1);
                assert(t.drop_last() =~= orig.take(i));
                assert(t.last() == orig[i]);
                assert forall|q: int, j: int|
                    0 <= q < i + 1 && 0 <= j < extra_count(orig[q], start, end) implies #[trigger] extra_ok(
                    extras@[total_extra(orig.take(q), start, end) + j],
                    orig[q],
                    start,
                    end,
                    j,
                ) by {
                    if q < i {
                        lemma_total_extra_prefix(orig, q, i, start, end);
                        assert(extras@[total_extra(orig.take(q), start, end) + j] == before[total_extra(
                            orig.take(q),
                            start,
                            end,
                        ) + j]);
                    } else {
                        assert(extras@[total_extra(orig.take(q), start, end) + j] == exs[j]);
                    }
                }
                assert(rest@ =~= orig.skip(i + 1));
                i = i + 1;
            }
        }
        proof {
            assert(orig.take(i) =~= orig);
        }
        let ghost ks = kept@;
        let ghost es = extras@;
        kept.append(&mut extras);
        self.areas = kept;
        proof {
            let n = orig.len() as int;
            let new = self.areas@;
            assert forall|q: int, j: int|
                0 <= q < n && 0 <= j < extra_count(orig[q], start, end) implies #[trigger] extra_placed(
                new,
                orig,
                q,
                j,
                start,
                end,
            ) by {
                lemma_total_extra_prefix(orig, q, n, start, end);
                assert(new[n + total_extra(orig.take(q), start, end) + j] == es[total_extra(
                    orig.take(q),
                    start,
                    end,
                ) + j]);
            }
            assert forall|q: int| 0 <= q < n implies #[trigger] kept_ok(new[q], orig[q], start, end) by {
                assert(new[q] == ks[q]);
            }
            assert forall|q: int| 0 <= q < new.len() implies (#[trigger] new[q]).wf() by {
                if q < n {
                    assert(new[q] == ks[q]);
                } else {
                    assert(new[q] == es[q - n]);
                }
            }
        }
    }
}


/// Whether page `p` falls strictly inside area `x`, so that `x` has pages
/// on both sides of `p`.
pub open spec fn straddles<F, T>(x: MapArea<F, T>, p: VirtPage) -> bool {
    x.vpn_range.l.0 < p.0 < x.vpn_range.r.0
}

/// After a split along `start .. end` no area has pages on both sides of
/// `start` or of `end`: each lies wholly inside or wholly outside the range.
pub proof fn lemma_split_no_straddle<F: Clone, T>(
    old: Seq<MapArea<F, T>>,
    new: Seq<MapArea<F, T>>,
    start: VirtPage,
    end: VirtPage,
)
    requires
        split_all(old, new, start, end),
        start.0 <= end.0,
    ensures
        forall|q: int| 0 <= q < new.len() ==> !straddles(#[trigger] new[q], start) && !straddles(new[q], end),
{
    assert forall|q: int| 0 <= q < new.len() implies !straddles(#[trigger] new[q], start) && !straddles(new[q], end) by {
        if q < old.len() {
            assert(kept_ok(new[q], old[q], start, end));
        } else {
            let (i, j) = lemma_extra_source(old, new, start, end, q);
            assert(extra_placed(new, old, i, j, start, end));
        }
    }
}

/// Every new area past the areas in place comes from some `old[i]`, as its
/// `j`-th piece.
proof fn lemma_extra_source<F: Clone, T>(
    old: Seq<MapArea<F, T>>,
    new: Seq<MapArea<F, T>>,
    start: VirtPage,
    end: VirtPage,
    q: int,
) -> (ij: (int, int))
    requires
        split_all(old, new, start, end),
        old.len() <= q < new.len(),
    ensures
        0 <= ij.0 < old.len(),
        0 <= ij.1 < extra_count(old[ij.0], start, end),
        q == old.len() + total_extra(old.take(ij.0), start, end) + ij.1,
{
    assert(old.take(old.len() as int) =~= old);
    lemma_extra_locate(old, old.len() as int, q - old.len(), start, end)
}

/// A position below the new-area count of `areas[..k]` belongs to one of
/// those areas.
proof fn lemma_extra_locate<F, T>(areas: Seq<MapArea<F, T>>, k: int, p: int, start: VirtPage, end: VirtPage) -> (ij: (
    int,
    int,
))
    requires
        0 <= k <= areas.len(),
        0 <= p < total_extra(areas.take(k), start, end),
    ensures
        0 <= ij.0 < k,
        0 <= ij.1 < extra_count(areas[ij.0], start, end),
        p == total_extra(areas.take(ij.0), start, end) + ij.1,
    decreases k,
{
    let t = areas.take(k);
    assert(t.drop_last() =~= areas.take(k - 1));
    let below = total_extra(areas.take(k - 1), start, end);
    if p < below {
        lemma_extra_locate(areas, k - 1, p, start, end)
    } else {
        (k - 1, p - below)
    }
}

/// The pieces that a split along `start .. end` makes of `old[i]` tile its
/// page range, in page order, and share out its frames, in page order,
/// with none lost and none doubled.
pub proof fn lemma_split_pieces<F: Clone, T>(
    old: Seq<MapArea<F, T>>,
    new: Seq<MapArea<F, T>>,
    start: VirtPage,
    end: VirtPage,
    i: int,
)
    requires
        split_all(old, new, start, end),
        0 <= i < old.len(),
        old[i].wf(),
        start.0 <= end.0,
    ensures
        ({
            let a = old[i];
            let x = new[i];
            let e0 = new[(old.len() + total_extra(old.take(i), start, end)) as int];
            let e1 = new[(old.len() + total_extra(old.take(i), start, end) + 1) as int];
            match overlap(a.vpn_range.l.0, a.vpn_range.r.0, start.0, end.0) {
                Overlap::Tail => x.vpn_range.l == a.vpn_range.l && x.vpn_range.r == e0.vpn_range.l
                    && e0.vpn_range.r == a.vpn_range.r && x.data_frames@ + e0.data_frames@
                    == a.data_frames@,
                Overlap::Head => e0.vpn_range.l == a.vpn_range.l && e0.vpn_range.r == x.vpn_range.l
                    && x.vpn_range.r == a.vpn_range.r && e0.data_frames@ + x.data_frames@
                    == a.data_frames@,
                Overlap::Middle => e0.vpn_range.l == a.vpn_range.l && e0.vpn_range.r == x.vpn_range.l
                    && x.vpn_range.r == e1.vpn_range.l && e1.vpn_range.r == a.vpn_range.r
                    && e0.data_frames@ + x.data_frames@ + e1.data_frames@ == a.data_frames@,
                _ => x == a,
            }
        }),
{
    let a = old[i];
    let fr = a.data_frames@;
    assert(kept_ok(new[i], old[i], start, end));
    lemma_cut(fr, start.0);
    lemma_cut(fr, end.0);
    match overlap(a.vpn_range.l.0, a.vpn_range.r.0, start.0, end.0) {
        Overlap::Tail => {
            assert(extra_placed(new, old, i, 0, start, end));
            assert(fr.take(cut(fr, start.0)) + fr.skip(cut(fr, start.0)) =~= fr);
        },
        Overlap::Head => {
            assert(extra_placed(new, old, i, 0, start, end));
            assert(fr.take(cut(fr, end.0)) + fr.skip(cut(fr, end.0)) =~= fr);
        },
        Overlap::Middle => {
            assert(extra_placed(new, old, i, 0, start, end));
            assert(extra_placed(new, old, i, 1, start, end));
            lemma_cut(fr, start.0);
            lemma_cut(fr, end.0);
            let k1 = cut(fr, start.0);
            let k2 = cut(fr, end.0);
            if k2 < k1 {
                assert(fr[k2].0.0 >= end.0);
            }
            assert(fr.take(k1) + fr.subrange(k1, k2) + fr.skip(k2) =~= fr);
        },
        _ => {},
    }
}

/// Every frame of area `a` sits on one of its pages.
pub open spec fn frames_in_range<F, T>(a: MapArea<F, T>) -> bool {
    forall|k: int|
        0 <= k < a.data_frames@.len() ==> a.vpn_range.l.0 <= (#[trigger] a.data_frames@[k]).0.0
            < a.vpn_range.r.0
}

/// A part of a frame list whose pages lie in `lo .. hi` has its pages there.
proof fn lemma_subrange_in<T>(fr: Seq<(VirtPage, T)>, a: int, b: int, lo: int, hi: int)
    requires
        0 <= a <= b <= fr.len(),
        forall|k: int| a <= k < b ==> lo <= (#[trigger] fr[k]).0.0 < hi,
    ensures
        forall|k: int|
            0 <= k < b - a ==> lo <= (#[trigger] fr.subrange(a, b)[k]).0.0 < hi,
{
    assert forall|k: int| 0 <= k < b - a implies lo <= (#[trigger] fr.subrange(a, b)[k]).0.0 < hi by {
        assert(fr.subrange(a, b)[k] == fr[a + k]);
    }
}

/// The pieces a split makes of one area keep their frames on their own
/// pages, when the area did.
proof fn lemma_pieces_in_range<F: Clone, T>(
    old: Seq<MapArea<F, T>>,
    new: Seq<MapArea<F, T>>,
    start: VirtPage,
    end: VirtPage,
    i: int,
    j: int,
    q: int,
)
    requires
        split_all(old, new, start, end),
        start.0 <= end.0,
        0 <= i < old.len(),
        old[i].wf(),
        frames_in_range(old[i]),
        q == i || (0 <= j < extra_count(old[i], start, end) && q == old.len() + total_extra(
            old.take(i),
            start,
            end,
        ) + j),
    ensures
        frames_in_range(new[q]),
{
    let a = old[i];
    let fr = a.data_frames@;
    let l = a.vpn_range.l.0 as int;
    let r = a.vpn_range.r.0 as int;
    let n = fr.len() as int;
    lemma_cut(fr, start.0);
    lemma_cut(fr, end.0);
    let c1 = cut(fr, start.0);
    let c2 = cut(fr, end.0);
    if c2 < c1 {
        assert(fr[c2].0.0 >= end.0);
    }
    assert(fr.take(c1) == fr.subrange(0, c1));
    assert(fr.take(c2) == fr.subrange(0, c2));
    assert(fr.skip(c1) == fr.subrange(c1, n));
    assert(fr.skip(c2) == fr.subrange(c2, n));
    assert(fr.subrange(0, n) == fr);
    lemma_subrange_in(fr, 0, c1, l, start.0 as int);
    lemma_subrange_in(fr, c1, n, start.0 as int, r);
    lemma_subrange_in(fr, 0, c2, l, end.0 as int);
    lemma_subrange_in(fr, c2, n, end.0 as int, r);
    lemma_subrange_in(fr, c1, c2, start.0 as int, end.0 as int);
    lemma_subrange_in(fr, 0, n, l, r);
    if q == i {
        assert(kept_ok(new[i], old[i], start, end));
    } else {
        assert(extra_placed(new, old, i, j, start, end));
    }
}

/// A split moves each frame only to a piece that holds its page: when every
/// area's frames sit on its own pages before, the same holds of every area
/// after, the pieces included.
pub proof fn lemma_split_frames_in_range<F: Clone, T>(
    old: Seq<MapArea<F, T>>,
    new: Seq<MapArea<F, T>>,
    start: VirtPage,
    end: VirtPage,
)
    requires
        split_all(old, new, start, end),
        start.0 <= end.0,
        forall|i: int| 0 <= i < old.len() ==> (#[trigger] old[i]).wf() && frames_in_range(old[i]),
    ensures
        forall|q: int| 0 <= q < new.len() ==> frames_in_range(#[trigger] new[q]),
{
    assert forall|q: int| 0 <= q < new.len() implies frames_in_range(#[trigger] new[q]) by {
        if q < old.len() {
            lemma_pieces_in_range(old, new, start, end, q, 0, q);
        } else {
            let (i, j) = lemma_extra_source(old, new, start, end, q);
            lemma_pieces_in_range(old, new, start, end, i, j, q);
        }
    }
}

/// The first index from `k` on whose element meets `p`.
pub open spec fn first_from<A>(s: Seq<A>, p: spec_fn(A) -> bool, k: int) -> Option<int>
    decreases s.len() - k,
{
    if k < 0 || k >= s.len() {
        None
    } else if p(s[k]) {
        Some(k)
    } else {
        first_from(s, p, k + 1)
    }
}

/// The first index whose element meets `p`.
pub open spec fn first_index<A>(s: Seq<A>, p: spec_fn(A) -> bool) -> Option<int> {
    first_from(s, p, 0)
}

/// A found index holds an element that meets `p`, and none before it does.
pub proof fn lemma_first_from<A>(s: Seq<A>, p: spec_fn(A) -> bool, k: int)
    requires
        0 <= k,
    ensures
        match first_from(s, p, k) {
            Some(i) => k <= i < s.len() && p(s[i]) && forall|j: int| k <= j < i ==> !p(#[trigger] s[j]),
            None => forall|j: int| k <= j < s.len() ==> !p(#[trigger] s[j]),
        },
    decreases s.len() - k,
{
    if k < s.len() && !p(s[k]) {
        lemma_first_from(s, p, k + 1);
    }
}

/// Whether area `a` holds the address `addr`, its bounds taken as the
/// addresses of its first page and of the page past its end.
pub open spec fn holds_addr<F, T>(a: MapArea<F, T>, addr: usize) -> bool {
    (a.vpn_range.l.0 << 12usize) <= addr && (a.vpn_range.r.0 << 12usize) > addr
}

/// Whether `a` is a heap area that holds `addr`.
pub open spec fn heap_at<F, T>(addr: usize) -> spec_fn(MapArea<F, T>) -> bool {
    |a: MapArea<F, T>| a.area_type == MapAreaType::Heap && holds_addr(a, addr)
}

/// Whether `a` is an mmap area that holds `addr`.
pub open spec fn mmap_at<F, T>(addr: usize) -> spec_fn(MapArea<F, T>) -> bool {
    |a: MapArea<F, T>| a.area_type == MapAreaType::Mmap && holds_addr(a, addr)
}

/// Whether `a` holds `addr`, whatever its type.
pub open spec fn any_at<F, T>(addr: usize) -> spec_fn(MapArea<F, T>) -> bool {
    |a: MapArea<F, T>| holds_addr(a, addr)
}

/// Whether `a` is an mmap area that starts at page `num`.
pub open spec fn mmap_from<F, T>(num: VirtPage) -> spec_fn(MapArea<F, T>) -> bool {
    |a: MapArea<F, T>| a.area_type == MapAreaType::Mmap && a.vpn_range.l == num
}

/// Whether `a` is an mmap area wholly inside `start .. end`.
pub open spec fn unmapped_by<F, T>(a: MapArea<F, T>, start: VirtPage, end: VirtPage) -> bool {
    a.area_type == MapAreaType::Mmap && a.vpn_range.l.0 >= start.0 && a.vpn_range.r.0 <= end.0
}

/// The areas of `s` for which `unmapped_by` is `b`, in order.
pub open spec fn areas_where<F, T>(s: Seq<MapArea<F, T>>, start: VirtPage, end: VirtPage, b: bool) -> Seq<
    MapArea<F, T>,
>
    decreases s.len(),
{
    if s.len() == 0 {
        Seq::empty()
    } else if unmapped_by(s.last(), start, end) == b {
        areas_where(s.drop_last(), start, end, b).push(s.last())
    } else {
        areas_where(s.drop_last(), start, end, b)
    }
}

/// Whether `mprotect` gives area `a` the permission `perm`: it lies inside
/// `start .. end` and has another one.
pub open spec fn reprotected<F, T>(a: MapArea<F, T>, start: VirtPage, end: VirtPage, perm: MapPermission) -> bool {
    a.vpn_range.l.0 >= start.0 && a.vpn_range.r.0 <= end.0 && a.map_perm != perm
}

/// `fin` is `mid` with permission `perm` given to the areas inside
/// `start .. end` that had another one.
pub open spec fn protected<F, T>(
    mid: Seq<MapArea<F, T>>,
    fin: Seq<MapArea<F, T>>,
    start: VirtPage,
    end: VirtPage,
    perm: MapPermission,
) -> bool {
    &&& fin.len() == mid.len()
    &&& forall|i: int|
        0 <= i < mid.len() ==> #[trigger] fin[i] == if reprotected(mid[i], start, end, perm) {
            MapArea { map_perm: perm, ..mid[i] }
        } else {
            mid[i]
        }
}

/// After `mprotect(start, end, perm)` every area inside `start .. end` has
/// permission `perm`, and every other area is as the split left it.
pub proof fn lemma_mprotect_inside<F, T>(
    mid: Seq<MapArea<F, T>>,
    fin: Seq<MapArea<F, T>>,
    start: VirtPage,
    end: VirtPage,
    perm: MapPermission,
)
    requires
        protected(mid, fin, start, end, perm),
    ensures
        forall|i: int|
            0 <= i < fin.len() && fin[i].vpn_range.l.0 >= start.0 && fin[i].vpn_range.r.0 <= end.0
                ==> #[trigger] fin[i].map_perm == perm,
        forall|i: int|
            0 <= i < fin.len() && !(mid[i].vpn_range.l.0 >= start.0 && mid[i].vpn_range.r.0 <= end.0)
                ==> #[trigger] fin[i] == mid[i],
{
    assert forall|i: int|
        0 <= i < fin.len() && fin[i].vpn_range.l.0 >= start.0 && fin[i].vpn_range.r.0 <= end.0
            implies #[trigger] fin[i].map_perm == perm by {
        assert(fin[i] == if reprotected(mid[i], start, end, perm) {
            MapArea { map_perm: perm, ..mid[i] }
        } else {
            mid[i]
        });
    }
    assert forall|i: int|
        0 <= i < fin.len() && !(mid[i].vpn_range.l.0 >= start.0 && mid[i].vpn_range.r.0 <= end.0)
            implies #[trigger] fin[i] == mid[i] by {
        assert(fin[i] == if reprotected(mid[i], start, end, perm) {
            MapArea { map_perm: perm, ..mid[i] }
        } else {
            mid[i]
        });
    }
}

/// What `munmap` keeps holds no mmap area inside the unmapped range, and
/// what it removes holds only such areas.
pub proof fn lemma_munmap_clears<F, T>(s: Seq<MapArea<F, T>>, start: VirtPage, end: VirtPage)
    ensures
        forall|i: int|
            0 <= i < areas_where(s, start, end, false).len() ==> !unmapped_by(
                #[trigger] areas_where(s, start, end, false)[i],
                start,
                end,
            ),
        forall|i: int|
            0 <= i < areas_where(s, start, end, true).len() ==> unmapped_by(
                #[trigger] areas_where(s, start, end, true)[i],
                start,
                end,
            ),
        areas_where(s, start, end, false).len() + areas_where(s, start, end, true).len() == s.len(),
    decreases s.len(),
{
    if s.len() > 0 {
        lemma_munmap_clears(s.drop_last(), start, end);
        let kf = areas_where(s.drop_last(), start, end, false);
        let kt = areas_where(s.drop_last(), start, end, true);
        let f = areas_where(s, start, end, false);
        let t = areas_where(s, start, end, true);
        assert forall|i: int| 0 <= i < f.len() implies !unmapped_by(#[trigger] f[i], start, end) by {
            if i < kf.len() {
                assert(f[i] == kf[i]);
            }
        }
        assert forall|i: int| 0 <= i < t.len() implies unmapped_by(#[trigger] t[i], start, end) by {
            if i < kt.len() {
                assert(t[i] == kt[i]);
            }
        }
    }
}

/// The indices below `n` of the areas that `mprotect` changes, ascending.
pub open spec fn reprotected_below<F, T>(
    s: Seq<MapArea<F, T>>,
    start: VirtPage,
    end: VirtPage,
    perm: MapPermission,
    n: int,
) -> Seq<usize>
    decreases n,
{
    if n <= 0 {
        Seq::empty()
    } else if reprotected(s[n - 1], start, end, perm) {
        reprotected_below(s, start, end, perm, n - 1).push((n - 1) as usize)
    } else {
        reprotected_below(s, start, end, perm, n - 1)
    }
}

impl<F, T> MemorySet<F, T> {
    fn first_area(&self, p: Ghost<spec_fn(MapArea<F, T>) -> bool>, heap: bool, mmap: bool, addr: usize) -> (r: Option<usize>)
        requires
            heap && !mmap ==> p@ == heap_at::<F, T>(addr),
            !heap && mmap ==> p@ == mmap_at::<F, T>(addr),
            !heap && !mmap ==> p@ == any_at::<F, T>(addr),
            !(heap && mmap),
        ensures
            match first_index(self.areas@, p@) {
                Some(i) => r == Some(i as usize),
                None => r is None,
            },
    {
        let mut i: usize = 0;
        while i < self.areas.len()
            invariant
                0 <= i <= self.areas@.len(),
                first_index(self.areas@, p@) == first_from(self.areas@, p@, i as int),
                heap && !mmap ==> p@ == heap_at::<F, T>(addr),
                !heap && mmap ==> p@ == mmap_at::<F, T>(addr),
                !heap && !mmap ==> p@ == any_at::<F, T>(addr),
                !(heap && mmap),
            decreases self.areas@.len() - i,
        {
            let a = &self.areas[i];
            let typed = if heap {
                a.area_type == MapAreaType::Heap
            } else if mmap {
                a.area_type == MapAreaType::Mmap
            } else {
                true
            };
            let lo = a.vpn_range.get_start().to_addr();
            let hi = a.vpn_range.get_end().to_addr();
            if typed && lo <= addr && hi > addr {
                return Some(i);
            }
            i = i + 1;
        }
        None
    }

    /// The area that a fault at `addr` on a page not yet mapped is served
    /// from: the first heap area that holds `addr`, else the first mmap
    /// area that holds it; `EADDRNOTAVAIL` when there is none.
    pub fn lazy_area(&self, addr: usize) -> (r: SysResult<usize>)
        ensures
            match first_index(self.areas@, heap_at::<F, T>(addr)) {
                Some(i) => r == Ok::<usize, SysError>(i as usize),
                None => match first_index(self.areas@, mmap_at::<F, T>(addr)) {
                    Some(i) => r == Ok::<usize, SysError>(i as usize),
                    None => r == Err::<usize, SysError>(SysError::EADDRNOTAVAIL),
                },
            },
    {
        if let Some(i) = self.first_area(Ghost(heap_at::<F, T>(addr)), true, false, addr) {
            return Ok(i);
        }
        if let Some(i) = self.first_area(Ghost(mmap_at::<F, T>(addr)), false, true, addr) {
            return Ok(i);
        }
        Err(SysError::EADDRNOTAVAIL)
    }

    /// The first area that holds `addr`, whatever its type, where a
    /// copy-on-write fault is served.
    pub fn find_area(&self, addr: usize) -> (r: Option<usize>)
        ensures
            match first_index(self.areas@, any_at::<F, T>(addr)) {
                Some(i) => r == Some(i as usize),
                None => r is None,
            },
    {
        self.first_area(Ghost(any_at::<F, T>(addr)), false, false, addr)
    }

    /// Removes the first mmap area that starts at page `num`: 0 when one was
    /// removed, -1 when there is none.
    pub fn remove_map_area_by_vpn_start(&mut self, num: VirtPage) -> (r: i32)
        ensures
            final(self).mapareacontrol == old(self).mapareacontrol,
            match first_index(old(self).areas@, mmap_from::<F, T>(num)) {
                Some(i) => r == 0 && final(self).areas@ == old(self).areas@.remove(i),
                None => r == -1 && final(self).areas@ == old(self).areas@,
            },
    {
        let ghost p = mmap_from::<F, T>(num);
        let mut i: usize = 0;
        while i < self.areas.len()
            invariant
                0 <= i <= self.areas@.len(),
                self.areas@ == old(self).areas@,
                self.mapareacontrol == old(self).mapareacontrol,
                p == mmap_from::<F, T>(num),
                first_index(self.areas@, p) == first_from(self.areas@, p, i as int),
            decreases self.areas@.len() - i,
        {
            if self.areas[i].area_type == MapAreaType::Mmap && self.areas[i].vpn_range.get_start() == num {
                self.areas.remove(i);
                return 0;
            }
            i = i + 1;
        }
        -1
    }
}

impl<F: Clone, T> MemorySet<F, T> {
    /// Gives `perm` to the areas inside `start .. end` after splitting along
    /// it; returns, ascending, the indices of the areas whose permission
    /// changed, whose pages the caller maps again.
    pub fn mprotect(&mut self, start: VirtPage, end: VirtPage, perm: MapPermission) -> (changed: Vec<usize>)
        requires
            old(self).wf(),
            start.0 <= end.0,
        ensures
            final(self).wf(),
            final(self).mapareacontrol == old(self).mapareacontrol,
            exists|mid: Seq<MapArea<F, T>>|
                {
                    &&& split_all(old(self).areas@, mid, start, end)
                    &&& protected(mid, final(self).areas@, start, end, perm)
                    &&& changed@ == reprotected_below(mid, start, end, perm, mid.len() as int)
                },
    {
        self.split_vpn_range(start, end);
        let ghost mid = self.areas@;
        let mut changed: Vec<usize> = Vec::new();
        let mut i: usize = 0;
        while i < self.areas.len()
            invariant
                0 <= i <= self.areas@.len(),
                self.areas@.len() == mid.len(),
                forall|q: int| 0 <= q < mid.len() ==> (#[trigger] mid[q]).wf(),
                forall|q: int|
                    0 <= q < mid.len() ==> #[trigger] self.areas@[q] == if q < i && reprotected(
                        mid[q],
                        start,
                        end,
                        perm,
                    ) {
                        MapArea { map_perm: perm, ..mid[q] }
                    } else {
                        mid[q]
                    },
                changed@ == reprotected_below(mid, start, end, perm, i as int),
                self.mapareacontrol == old(self).mapareacontrol,
            decreases self.areas@.len() - i,
        {
            let s = self.areas[i].vpn_range.get_start();
            let e = self.areas[i].vpn_range.get_end();
            if s.0 >= start.0 && e.0 <= end.0 && self.areas[i].map_perm != perm {
                let mut a = self.areas.remove(i);
                a.map_perm = perm;
                self.areas.insert(i, a);
                changed.push(i);
            }
            i = i + 1;
        }
        proof {
            assert forall|q: int| 0 <= q < self.areas@.len() implies (#[trigger] self.areas@[q]).wf() by {
                assert(mid[q].wf());
            }
            assert(protected(mid, self.areas@, start, end, perm));
        }
        changed
    }

    /// Unmaps `start_addr .. start_addr + len`: splits the areas along the
    /// pages of the range, then takes out the mmap areas inside it and
    /// returns them in order, for the caller to write back and unmap.
    pub fn munmap(&mut self, start_addr: usize, len: usize) -> (removed: Vec<MapArea<F, T>>)
        requires
            old(self).wf(),
            start_addr + len <= usize::MAX,
        ensures
            final(self).wf(),
            final(self).mapareacontrol == old(self).mapareacontrol,
            ({
                let start = VirtPage(start_addr / PAGE_SIZE);
                let end = VirtPage(((start_addr + len) / (PAGE_SIZE as int)) as usize);
                exists|mid: Seq<MapArea<F, T>>|
                    {
                        &&& split_all(old(self).areas@, mid, start, end)
                        &&& final(self).areas@ == areas_where(mid, start, end, false)
                        &&& removed@ == areas_where(mid, start, end, true)
                    }
            }),
    {
        let start = VirtAddr::new(start_addr).floor();
        let end = VirtAddr::new(start_addr + len).floor();
        proof {
            assert(start_addr / PAGE_SIZE <= (start_addr + len) / (PAGE_SIZE as int)) by (nonlinear_arith);
        }
        self.split_vpn_range(start, end);
        let ghost mid = self.areas@;
        let mut rest: Vec<MapArea<F, T>> = Vec::new();
        std::mem::swap(&mut self.areas, &mut rest);
        let mut kept: Vec<MapArea<F, T>> = Vec::new();
        let mut removed: Vec<MapArea<F, T>> = Vec::new();
        let ghost mut i: int = 0;
        while rest.len() > 0
            invariant
                0 <= i <= mid.len(),
                rest@ == mid.skip(i),
                forall|q: int| 0 <= q < mid.len() ==> (#[trigger] mid[q]).wf(),
                kept@ == areas_where(mid.take(i), start, end, false),
                removed@ == areas_where(mid.take(i), start, end, true),
            decreases rest@.len(),
        {
            let a = rest.remove(0);
            proof {
                assert(a == mid[i]);
                let t = mid.take(i + 1);
                assert(t.drop_last() =~= mid.take(i));
                assert(t.last() == mid[i]);
                assert(rest@ =~= mid.skip(i + 1));
            }
            let s = a.vpn_range.get_start();
            let e = a.vpn_range.get_end();
            if a.area_type == MapAreaType::Mmap && s.0 >= start.0 && e.0 <= end.0 {
                removed.push(a);
            } else {
                kept.push(a);
            }
            proof {
                i = i + 1;
            }
        }
        proof {
            assert(mid.take(i) =~= mid);
            lemma_areas_where_wf(mid, start, end, false);
        }
        self.areas = kept;
        proof {
            let sp = VirtPage(start_addr / PAGE_SIZE);
            let ep = VirtPage(((start_addr + len) / (PAGE_SIZE as int)) as usize);
            assert(sp == start && ep == end);
            assert(split_all(old(self).areas@, mid, sp, ep));
        }
        removed
    }
}

/// The areas picked out of well-formed areas are well formed.
proof fn lemma_areas_where_wf<F, T>(s: Seq<MapArea<F, T>>, start: VirtPage, end: VirtPage, b: bool)
    requires
        forall|q: int| 0 <= q < s.len() ==> (#[trigger] s[q]).wf(),
    ensures
        forall|q: int|
            0 <= q < areas_where(s, start, end, b).len() ==> (#[trigger] areas_where(s, start, end, b)[q]).wf(),
    decreases s.len(),
{
    if s.len() > 0 {
        let d = s.drop_last();
        assert forall|q: int| 0 <= q < d.len() implies (#[trigger] d[q]).wf() by {
            assert(d[q] == s[q]);
        }
        lemma_areas_where_wf(d, start, end, b);
        assert(s.last() == s[s.len() - 1]);
        let w = areas_where(s, start, end, b);
        let sub = areas_where(d, start, end, b);
        assert forall|q: int| 0 <= q < w.len() implies (#[trigger] w[q]).wf() by {
            if q < sub.len() {
                assert(w[q] == sub[q]);
            } else {
                assert(w[q] == s.last());
            }
        }
    }
}


/// The frame recorded for page `p`, if any.
pub open spec fn frame_of<T>(fr: Seq<(VirtPage, T)>, p: usize) -> Option<T> {
    if holds_page(fr, p) {
        Some(fr[cut(fr, p)].1)
    } else {
        None
    }
}

/// The frame list with `frame` recorded for page `vpn`, in page order.
pub open spec fn with_frame<T>(fr: Seq<(VirtPage, T)>, vpn: VirtPage, frame: T) -> Seq<(VirtPage, T)> {
    if holds_page(fr, vpn.0) {
        fr.update(cut(fr, vpn.0), (vpn, frame))
    } else {
        fr.insert(cut(fr, vpn.0), (vpn, frame))
    }
}

/// The frame list without a frame for page `p`.
pub open spec fn without_frame<T>(fr: Seq<(VirtPage, T)>, p: usize) -> Seq<(VirtPage, T)> {
    if holds_page(fr, p) {
        fr.remove(cut(fr, p))
    } else {
        fr
    }
}

/// In a sorted list the frame at page `p` sits at the cut for `p`.
proof fn lemma_index_is_cut<T>(fr: Seq<(VirtPage, T)>, i: int)
    requires
        frames_sorted(fr),
        0 <= i < fr.len(),
    ensures
        i == cut(fr, fr[i].0.0),
{
    let p = fr[i].0.0;
    lemma_cut(fr, p);
    let c = cut(fr, p);
    if c < i {
        assert(fr[c].0.0 < fr[i].0.0);
    }
}

/// Recording a frame keeps the list in page order; the page then has that
/// frame and every other page keeps the frame it had.
pub proof fn lemma_with_frame<T>(fr: Seq<(VirtPage, T)>, vpn: VirtPage, frame: T)
    requires
        frames_sorted(fr),
    ensures
        frames_sorted(with_frame(fr, vpn, frame)),
        frame_of(with_frame(fr, vpn, frame), vpn.0) == Some(frame),
        forall|p: usize| p != vpn.0 ==> #[trigger] frame_of(with_frame(fr, vpn, frame), p) == frame_of(fr, p),
{
    let c = cut(fr, vpn.0);
    let g = with_frame(fr, vpn, frame);
    lemma_cut(fr, vpn.0);
    lemma_holds_page(fr, vpn.0);
    if holds_page(fr, vpn.0) {
        assert forall|i: int, j: int| 0 <= i < j < g.len() implies g[i].0.0 < g[j].0.0 by {
            assert(fr[i].0.0 < fr[j].0.0);
        }
    } else {
        assert forall|i: int, j: int| 0 <= i < j < g.len() implies g[i].0.0 < g[j].0.0 by {
            if j < c {
                assert(fr[i].0.0 < fr[j].0.0);
            } else if i > c {
                assert(fr[i - 1].0.0 < fr[j - 1].0.0);
            } else if i == c {
                assert(fr[j - 1].0.0 >= vpn.0);
            } else {
                if j > c {
                    assert(fr[i].0.0 < vpn.0);
                }
            }
        }
    }
    assert(g[c].0.0 == vpn.0);
    lemma_index_is_cut(g, c);
    assert forall|p: usize| p != vpn.0 implies #[trigger] frame_of(g, p) == frame_of(fr, p) by {
        lemma_holds_page(fr, p);
        lemma_holds_page(g, p);
        lemma_cut(fr, p);
        if holds_page(fr, p) {
            let i = cut(fr, p);
            let gi = if holds_page(fr, vpn.0) || i < c { i } else { i + 1 };
            assert(g[gi] == fr[i]);
            lemma_index_is_cut(g, gi);
        }
        if holds_page(g, p) {
            let gi = choose|k: int| 0 <= k < g.len() && g[k].0.0 == p;
            let i = if holds_page(fr, vpn.0) || gi < c { gi } else { gi - 1 };
            assert(g[gi] == fr[i]);
            assert(holds_page(fr, p));
        }
    }
}

/// Dropping the frame of page `p` keeps the list in page order; `p` then
/// has no frame and every other page keeps the frame it had.
pub proof fn lemma_without_frame<T>(fr: Seq<(VirtPage, T)>, p: usize)
    requires
        frames_sorted(fr),
    ensures
        frames_sorted(without_frame(fr, p)),
        frame_of(without_frame(fr, p), p) is None,
        forall|q: usize| q != p ==> #[trigger] frame_of(without_frame(fr, p), q) == frame_of(fr, q),
{
    let c = cut(fr, p);
    let g = without_frame(fr, p);
    lemma_cut(fr, p);
    lemma_holds_page(fr, p);
    if holds_page(fr, p) {
        assert forall|i: int, j: int| 0 <= i < j < g.len() implies g[i].0.0 < g[j].0.0 by {
            let fi = if i < c { i } else { i + 1 };
            let fj = if j < c { j } else { j + 1 };
            assert(fr[fi].0.0 < fr[fj].0.0);
        }
        if holds_page(g, p) {
            let gi = choose|k: int| 0 <= k < g.len() && g[k].0.0 == p;
            let fi = if gi < c { gi } else { gi + 1 };
            assert(g[gi] == fr[fi]);
            lemma_index_is_cut(fr, fi);
        }
    }
    assert forall|q: usize| q != p implies #[trigger] frame_of(g, q) == frame_of(fr, q) by {
        lemma_holds_page(fr, q);
        lemma_holds_page(g, q);
        lemma_cut(fr, q);
        if holds_page(fr, p) {
            if holds_page(fr, q) {
                let i = cut(fr, q);
                let gi = if i < c { i } else { i - 1 };
                assert(g[gi] == fr[i]);
                lemma_index_is_cut(g, gi);
            }
            if holds_page(g, q) {
                let gi = choose|k: int| 0 <= k < g.len() && g[k].0.0 == q;
                let i = if gi < c { gi } else { gi + 1 };
                assert(g[gi] == fr[i]);
                assert(holds_page(fr, q));
            }
        }
    }
}

/// Same range, kind and file.
pub open spec fn same_but_frames<F, T>(x: MapArea<F, T>, a: MapArea<F, T>) -> bool {
    &&& same_kind(x, a)
    &&& x.map_file == a.map_file
    &&& x.vpn_range == a.vpn_range
}

impl<F, T> MapArea<F, T> {
    /// Records `frame` for page `vpn` and returns the frame the page had.
    pub fn insert_frame(&mut self, vpn: VirtPage, frame: T) -> (prev: Option<T>)
        requires
            frames_sorted(old(self).data_frames@),
        ensures
            same_but_frames(*final(self), *old(self)),
            final(self).data_frames@ == with_frame(old(self).data_frames@, vpn, frame),
            prev == frame_of(old(self).data_frames@, vpn.0),
            frames_sorted(final(self).data_frames@),
    {
        let ghost fr = self.data_frames@;
        proof {
            lemma_with_frame(fr, vpn, frame);
            lemma_holds_page(fr, vpn.0);
            lemma_cut(fr, vpn.0);
        }
        let k = first_at_or_above(&self.data_frames, vpn.0);
        if k < self.data_frames.len() && self.data_frames[k].0.0 == vpn.0 {
            let (_, prev) = self.data_frames.remove(k);
            self.data_frames.insert(k, (vpn, frame));
            proof {
                assert(self.data_frames@ =~= with_frame(fr, vpn, frame));
            }
            Some(prev)
        } else {
            self.data_frames.insert(k, (vpn, frame));
            None
        }
    }

    /// Drops the frame of page `vpn` and returns it.
    pub fn remove_frame(&mut self, vpn: VirtPage) -> (prev: Option<T>)
        requires
            frames_sorted(old(self).data_frames@),
        ensures
            same_but_frames(*final(self), *old(self)),
            final(self).data_frames@ == without_frame(old(self).data_frames@, vpn.0),
            prev == frame_of(old(self).data_frames@, vpn.0),
            frames_sorted(final(self).data_frames@),
    {
        let ghost fr = self.data_frames@;
        proof {
            lemma_without_frame(fr, vpn.0);
            lemma_holds_page(fr, vpn.0);
            lemma_cut(fr, vpn.0);
        }
        let k = first_at_or_above(&self.data_frames, vpn.0);
        if k < self.data_frames.len() && self.data_frames[k].0.0 == vpn.0 {
            let (_, prev) = self.data_frames.remove(k);
            Some(prev)
        } else {
            None
        }
    }

    /// The frame recorded for page `vpn`.
    pub fn get_frame(&self, vpn: VirtPage) -> (r: Option<&T>)
        requires
            frames_sorted(self.data_frames@),
        ensures
            match frame_of(self.data_frames@, vpn.0) {
                Some(f) => r == Some(&f),
                None => r is None,
            },
    {
        proof {
            lemma_holds_page(self.data_frames@, vpn.0);
            lemma_cut(self.data_frames@, vpn.0);
        }
        let k = first_at_or_above(&self.data_frames, vpn.0);
        if k < self.data_frames.len() && self.data_frames[k].0.0 == vpn.0 {
            Some(&self.data_frames[k].1)
        } else {
            None
        }
    }

    /// Moves to `new_area` the frames of the pages of its range that this
    /// area holds.
    pub fn transfer_frame(&mut self, new_area: &mut MapArea<F, T>)
        requires
            frames_sorted(old(self).data_frames@),
            frames_sorted(old(new_area).data_frames@),
        ensures
            same_but_frames(*final(self), *old(self)),
            same_but_frames(*final(new_area), *old(new_area)),
            frames_sorted(final(self).data_frames@),
            frames_sorted(final(new_area).data_frames@),
            forall|p: usize|
                #![trigger frame_of(final(self).data_frames@, p)]
                #![trigger frame_of(final(new_area).data_frames@, p)]
                if old(new_area).vpn_range.l.0 <= p < old(new_area).vpn_range.r.0 {
                    &&& frame_of(final(self).data_frames@, p) is None
                    &&& frame_of(final(new_area).data_frames@, p) == match frame_of(old(self).data_frames@, p) {
                        Some(f) => Some(f),
                        None => frame_of(old(new_area).data_frames@, p),
                    }
                } else {
                    &&& frame_of(final(self).data_frames@, p) == frame_of(old(self).data_frames@, p)
                    &&& frame_of(final(new_area).data_frames@, p) == frame_of(old(new_area).data_frames@, p)
                },
    {
        let l = new_area.vpn_range.l.0;
        let r = new_area.vpn_range.r.0;
        let mut n = l;
        while n < r
            invariant
                l <= n,
                l >= r ==> n == l,
                n <= r || n == l,
                l == old(new_area).vpn_range.l.0,
                r == old(new_area).vpn_range.r.0,
                same_but_frames(*self, *old(self)),
                same_but_frames(*new_area, *old(new_area)),
                frames_sorted(self.data_frames@),
                frames_sorted(new_area.data_frames@),
                forall|p: usize|
                    #![trigger frame_of(self.data_frames@, p)]
                    #![trigger frame_of(new_area.data_frames@, p)]
                    if l <= p < n {
                        &&& frame_of(self.data_frames@, p) is None
                        &&& frame_of(new_area.data_frames@, p) == match frame_of(old(self).data_frames@, p) {
                            Some(f) => Some(f),
                            None => frame_of(old(new_area).data_frames@, p),
                        }
                    } else {
                        &&& frame_of(self.data_frames@, p) == frame_of(old(self).data_frames@, p)
                        &&& frame_of(new_area.data_frames@, p) == frame_of(old(new_area).data_frames@, p)
                    },
            decreases r - n,
        {
            let vpn = VirtPage::new(n);
            let ghost s0 = self.data_frames@;
            let ghost n0 = new_area.data_frames@;
            proof {
                lemma_without_frame(s0, n);
            }
            if let Some(frame) = self.remove_frame(vpn) {
                proof {
                    lemma_with_frame(n0, vpn, frame);
                }
                new_area.insert_frame(vpn, frame);
            }
            n = n + 1;
        }
    }
}


/// One piece of the initial data of an area: `len` bytes from `data_off`
/// of the data to `page_off` in page `vpn`.
#[derive(Clone, Copy, Debug, PartialEq, Eq, Structural)]
pub struct PageChunk {
    pub vpn: VirtPage,
    pub page_off: usize,
    pub data_off: usize,
    pub len: usize,
}

/// Bytes of data placed before piece `k`, for an area that starts at byte
/// `off` of its first page: that page is filled from `off` on, each later
/// page whole.
pub open spec fn data_before(off: usize, k: int) -> int {
    if k <= 0 {
        0
    } else {
        (PAGE_SIZE - off) + (k - 1) * PAGE_SIZE
    }
}

/// Piece `k` of placing `len` bytes in an area whose first page is `first`
/// and that starts at byte `off` of it.
pub open spec fn page_chunk_at(first: VirtPage, off: usize, len: usize, k: int) -> PageChunk {
    let done = data_before(off, k);
    let room = if k == 0 {
        PAGE_SIZE - off
    } else {
        PAGE_SIZE as int
    };
    PageChunk {
        vpn: VirtPage((first.0 + k) as usize),
        page_off: if k == 0 {
            off
        } else {
            0
        },
        data_off: done as usize,
        len: (if len - done < room {
            len - done
        } else {
            room
        }) as usize,
    }
}

impl<F, T> MapArea<F, T> {
    /// How `len` bytes of initial data go into the pages of the area: from
    /// its start address on, page by page, one piece per page, until the
    /// data ends; at least one piece, empty for empty data.
    pub fn copy_plan(&self, len: usize) -> (r: Vec<PageChunk>)
        requires
            self.vpn_range.l.0 + len / PAGE_SIZE + 2 <= usize::MAX,
        ensures
            r@.len() >= 1,
            forall|k: int|
                0 <= k < r@.len() ==> r@[k] == page_chunk_at(
                    self.vpn_range.l,
                    self.vpn_range.start.0 % PAGE_SIZE,
                    len,
                    k,
                ),
            forall|k: int| 1 <= k < r@.len() ==> #[trigger] data_before(self.vpn_range.start.0 % PAGE_SIZE, k) < len,
            data_before(self.vpn_range.start.0 % PAGE_SIZE, r@.len() as int) >= len,
    {
        let first = self.vpn_range.get_start();
        let off = self.vpn_range.get_start_addr().addr() % PAGE_SIZE;
        let mut chunks: Vec<PageChunk> = Vec::new();
        let mut done: usize = 0;
        let mut page_off = off;
        let mut k: usize = 0;
        loop
            invariant
                first == self.vpn_range.l,
                off == self.vpn_range.start.0 % PAGE_SIZE,
                self.vpn_range.l.0 + len / PAGE_SIZE + 2 <= usize::MAX,
                chunks@.len() == k,
                done == data_before(off, k as int),
                k == 0 || done < len,
                page_off == if k == 0 {
                    off
                } else {
                    0
                },
                k <= len / PAGE_SIZE + 1,
                forall|q: int| 0 <= q < k ==> chunks@[q] == page_chunk_at(first, off, len, q),
                forall|q: int| 1 <= q < k ==> #[trigger] data_before(off, q) < len,
            ensures
                chunks@.len() >= 1,
                forall|q: int| 0 <= q < chunks@.len() ==> chunks@[q] == page_chunk_at(first, off, len, q),
                forall|q: int| 1 <= q < chunks@.len() ==> #[trigger] data_before(off, q) < len,
                data_before(off, chunks@.len() as int) >= len,
            decreases len - done + 1 - (if k == 0 { 0int } else { 1int }),
        {
            let room = PAGE_SIZE - page_off;
            let n = if len - done < room {
                len - done
            } else {
                room
            };
            let c = PageChunk { vpn: VirtPage::new(first.0 + k), page_off, data_off: done, len: n };
            chunks.push(c);
            proof {
                assert((PAGE_SIZE - off) + k * PAGE_SIZE == (PAGE_SIZE - off) + (k - 1) * PAGE_SIZE + PAGE_SIZE)
                    by (nonlinear_arith);
            }
            if room >= len - done {
                return chunks;
            }
            proof {
                assert(k * PAGE_SIZE < len) by (nonlinear_arith)
                    requires
                        (PAGE_SIZE - off) + k * PAGE_SIZE < len,
                        off < PAGE_SIZE,
                ;
                assert(k <= len / PAGE_SIZE) by (nonlinear_arith)
                    requires
                        k * PAGE_SIZE < len,
                ;
            }
            done = done + room;
            page_off = 0;
            k = k + 1;
        }
    }
}


/// `x` is a copy of `a` for a forked address space: same range and kind, a
/// clone of its file, and for each of its frames, in order, the same page
/// with a clone of the frame.
pub open spec fn area_copied<F: Clone, T: Clone>(a: MapArea<F, T>, x: MapArea<F, T>) -> bool {
    &&& same_kind(x, a)
    &&& file_cloned(a.map_file, x.map_file)
    &&& x.vpn_range == a.vpn_range
    &&& x.data_frames@.len() == a.data_frames@.len()
    &&& forall|k: int|
        0 <= k < a.data_frames@.len() ==> (#[trigger] x.data_frames@[k]).0 == a.data_frames@[k].0 && cloned(
            a.data_frames@[k].1,
            x.data_frames@[k].1,
        )
}

impl<F: Clone, T: Clone> MapArea<F, T> {
    /// A copy of the area that shares its frames.
    pub fn copy_area(&self) -> (r: Self)
        requires
            self.wf(),
        ensures
            r.wf(),
            area_copied(*self, r),
    {
        let mut x = MapArea::from_another(self);
        let mut frames: Vec<(VirtPage, T)> = Vec::new();
        let mut i: usize = 0;
        while i < self.data_frames.len()
            invariant
                0 <= i <= self.data_frames@.len(),
                frames@.len() == i,
                forall|k: int|
                    0 <= k < i ==> (#[trigger] frames@[k]).0 == self.data_frames@[k].0 && cloned(
                        self.data_frames@[k].1,
                        frames@[k].1,
                    ),
            decreases self.data_frames@.len() - i,
        {
            let p = self.data_frames[i].0;
            let f = self.data_frames[i].1.clone();
            frames.push((p, f));
            i = i + 1;
        }
        x.data_frames = frames;
        proof {
            assert forall|a: int, b: int| 0 <= a < b < x.data_frames@.len() implies x.data_frames@[a].0.0
                < x.data_frames@[b].0.0 by {
                assert(x.data_frames@[a].0 == self.data_frames@[a].0);
                assert(x.data_frames@[b].0 == self.data_frames@[b].0);
            }
        }
        x
    }
}

/// A page that a fork shares copy-on-write between parent and child.
#[derive(Clone, Copy, Debug, PartialEq, Eq, Structural)]
pub struct ForkPage {
    /// The area the page belongs to.
    pub area: usize,
    pub vpn: VirtPage,
    /// Whether the page is one of the area's frames (it is then mapped to its
    /// frame); otherwise, for a heap or mmap area, the parent's translation of
    /// the page decides, and a page not mapped, or mapped to page 0, is left
    /// alone.
    pub framed: bool,
}

/// The pages of area `a` (number `i`) that a fork shares: every page of a
/// heap or mmap area, the pages of the frames of any other area.
pub open spec fn area_fork_pages<F, T>(a: MapArea<F, T>, i: int) -> Seq<ForkPage> {
    if a.area_type == MapAreaType::Heap || a.area_type == MapAreaType::Mmap {
        Seq::new(
            (a.vpn_range.r.0 - a.vpn_range.l.0) as nat,
            |k: int| ForkPage { area: i as usize, vpn: VirtPage((a.vpn_range.l.0 + k) as usize), framed: false },
        )
    } else {
        Seq::new(
            a.data_frames@.len(),
            |k: int| ForkPage { area: i as usize, vpn: a.data_frames@[k].0, framed: true },
        )
    }
}

/// The pages that a fork shares, area by area in order.
pub open spec fn fork_pages_spec<F, T>(areas: Seq<MapArea<F, T>>) -> Seq<ForkPage>
    decreases areas.len(),
{
    if areas.len() == 0 {
        Seq::empty()
    } else {
        fork_pages_spec(areas.drop_last()) + area_fork_pages(areas.last(), areas.len() - 1)
    }
}

/// The entry that a fork gives page `page` in both the parent's and the
/// child's page table, from `translation`: the parent's translation of a
/// heap or mmap page, or the frame's page and the entry's flags for a framed
/// page. The page keeps its physical page; a writable or already shared
/// page becomes shared and read-only, any other keeps its flags. `None`:
/// the page is left alone (not mapped, or a heap or mmap page mapped to
/// page 0).
pub fn fork_entry(page: ForkPage, translation: Option<(usize, MappingFlags)>) -> (r: Option<(usize, MappingFlags)>)
    ensures
        translation is None ==> r is None,
        translation matches Some(t) ==> (!page.framed && t.0 == 0 ==> r is None),
        translation matches Some(t) ==> ((page.framed || t.0 != 0) ==> (r matches Some(e) && e.0 == t.0 && (
        (t.1.has(MF_W) || t.1.has(MF_COW)) ==> e.1.bits == (t.1.bits | MF_COW) & !MF_W) && (!(t.1.has(
            MF_W,
        ) || t.1.has(MF_COW)) ==> e.1 == t.1))),
{
    match translation {
        None => None,
        Some((ppn, flags)) => {
            if !page.framed && ppn == 0 {
                None
            } else {
                Some((ppn, flags.shared_on_fork()))
            }
        },
    }
}

impl<F, T> MemorySet<F, T> {
    /// The pages that a fork shares copy-on-write, area by area: every page
    /// of a heap or mmap area, the frame pages of the others.
    pub fn fork_pages(&self) -> (r: Vec<ForkPage>)
        requires
            self.wf(),
        ensures
            r@ == fork_pages_spec(self.areas@),
    {
        let mut out: Vec<ForkPage> = Vec::new();
        let mut i: usize = 0;
        while i < self.areas.len()
            invariant
                0 <= i <= self.areas@.len(),
                self.wf(),
                out@ == fork_pages_spec(self.areas@.take(i as int)),
            decreases self.areas@.len() - i,
        {
            let a = &self.areas[i];
            proof {
                assert(a.wf());
            }
            let ghost before = out@;
            let ghost want = area_fork_pages(*a, i as int);
            match a.area_type {
                MapAreaType::Heap | MapAreaType::Mmap => {
                    let ps = a.vpn_range.pages();
                    let mut k: usize = 0;
                    while k < ps.len()
                        invariant
                            0 <= k <= ps@.len(),
                            ps@.len() == a.vpn_range.r.0 - a.vpn_range.l.0,
                            forall|q: int| 0 <= q < ps@.len() ==> #[trigger] ps@[q] == VirtPage(
                                (a.vpn_range.l.0 + q) as usize,
                            ),
                            a.area_type == MapAreaType::Heap || a.area_type == MapAreaType::Mmap,
                            want == area_fork_pages(*a, i as int),
                            out@ == before + want.take(k as int),
                        decreases ps@.len() - k,
                    {
                        out.push(ForkPage { area: i, vpn: ps[k], framed: false });
                        assert(want.take(k + 1) =~= want.take(k as int).push(want[k as int]));
                        k = k + 1;
                    }
                    assert(want.take(ps@.len() as int) =~= want);
                },
                _ => {
                    let mut k: usize = 0;
                    while k < a.data_frames.len()
                        invariant
                            0 <= k <= a.data_frames@.len(),
                            a.area_type != MapAreaType::Heap && a.area_type != MapAreaType::Mmap,
                            want == area_fork_pages(*a, i as int),
                            out@ == before + want.take(k as int),
                        decreases a.data_frames@.len() - k,
                    {
                        out.push(ForkPage { area: i, vpn: a.data_frames[k].0, framed: true });
                        assert(want.take(k + 1) =~= want.take(k as int).push(want[k as int]));
                        k = k + 1;
                    }
                    assert(want.take(a.data_frames@.len() as int) =~= want);
                },
            }
            assert(self.areas@.take(i + 1).drop_last() =~= self.areas@.take(i as int));
            i = i + 1;
        }
        assert(self.areas@.take(self.areas@.len() as int) =~= self.areas@);
        out
    }
}

/// A page table as the mappings it holds: virtual page number to physical
/// page number and flags.
pub struct PageTableModel {
    pub map: BTreeMap<usize, (usize, MappingFlags)>,
}

/// The flags a fork gives a shared page: a writable or already shared page
/// becomes shared and read-only, any other keeps its flags.
pub open spec fn shared_flags(f: MappingFlags) -> MappingFlags {
    if f.has(MF_W) || f.has(MF_COW) {
        MappingFlags { bits: (f.bits | MF_COW) & !MF_W }
    } else {
        f
    }
}

/// One page of a fork: when the parent maps page `p` (a heap or mmap page
/// only to a physical page other than 0), parent and child both map it to
/// that physical page with the shared flags; otherwise nothing changes.
pub open spec fn fork_step(
    par: Map<usize, (usize, MappingFlags)>,
    ch: Map<usize, (usize, MappingFlags)>,
    p: ForkPage,
) -> (Map<usize, (usize, MappingFlags)>, Map<usize, (usize, MappingFlags)>) {
    let v = p.vpn.0;
    if par.contains_key(v) && (p.framed || par[v].0 != 0) {
        let e = (par[v].0, shared_flags(par[v].1));
        (par.insert(v, e), ch.insert(v, e))
    } else {
        (par, ch)
    }
}

/// The parent's and the child's mappings after a fork has gone through the
/// first `k` of `pages`, in order.
pub open spec fn fork_fold(
    pages: Seq<ForkPage>,
    par: Map<usize, (usize, MappingFlags)>,
    ch: Map<usize, (usize, MappingFlags)>,
    k: int,
) -> (Map<usize, (usize, MappingFlags)>, Map<usize, (usize, MappingFlags)>)
    decreases k,
{
    if k <= 0 {
        (par, ch)
    } else {
        let prev = fork_fold(pages, par, ch, k - 1);
        fork_step(prev.0, prev.1, pages[k - 1])
    }
}

impl<F, T> MemorySet<F, T> {
    /// The page-table side of a fork: each page that the fork shares
    /// (`fork_pages`) and the parent maps is mapped in both page tables to
    /// the same physical page, copy-on-write (see `fork_step`).
    pub fn fork_page_tables(&self, parent: &mut PageTableModel, child: &mut PageTableModel)
        requires
            self.wf(),
        ensures
            (final(parent).map@, final(child).map@) == fork_fold(
                fork_pages_spec(self.areas@),
                old(parent).map@,
                old(child).map@,
                fork_pages_spec(self.areas@).len() as int,
            ),
    {
        let pages = self.fork_pages();
        let mut k: usize = 0;
        while k < pages.len()
            invariant
                0 <= k <= pages@.len(),
                pages@ == fork_pages_spec(self.areas@),
                (parent.map@, child.map@) == fork_fold(pages@, old(parent).map@, old(child).map@, k as int),
            decreases pages@.len() - k,
        {
            let p = pages[k];
            let translation = match parent.map.get(&p.vpn.0) {
                Some(e) => Some(*e),
                None => None,
            };
            match fork_entry(p, translation) {
                Some(e) => {
                    parent.map.insert(p.vpn.0, e);
                    child.map.insert(p.vpn.0, e);
                },
                None => {},
            }
            proof {
                let prev = fork_fold(pages@, old(parent).map@, old(child).map@, k as int);
                assert(fork_fold(pages@, old(parent).map@, old(child).map@, k + 1) == fork_step(prev.0, prev.1, pages@[k as int]));
            }
            k = k + 1;
        }
    }
}

impl<F: Clone, T: Clone> MemorySet<F, T> {
    /// The areas and mmap bookkeeping of a child forked from `user_space`:
    /// each area copied with its frames shared (`fork_page_tables` then maps
    /// the shared pages copy-on-write in both page tables).
    pub fn from_existed_user(user_space: &MemorySet<F, T>) -> (r: Self)
        requires
            user_space.wf(),
        ensures
            r.wf(),
            r.mapareacontrol.mmap_top == user_space.mapareacontrol.mmap_top,
            r.mapareacontrol.mapfreeblock@ == user_space.mapareacontrol.mapfreeblock@,
            r.areas@.len() == user_space.areas@.len(),
            forall|i: int| 0 <= i < r.areas@.len() ==> area_copied(user_space.areas@[i], #[trigger] r.areas@[i]),
    {
        let mut areas: Vec<MapArea<F, T>> = Vec::new();
        let mut i: usize = 0;
        while i < user_space.areas.len()
            invariant
                0 <= i <= user_space.areas@.len(),
                user_space.wf(),
                areas@.len() == i,
                forall|k: int| 0 <= k < i ==> area_copied(user_space.areas@[k], #[trigger] areas@[k]),
                forall|k: int| 0 <= k < i ==> (#[trigger] areas@[k]).wf(),
            decreases user_space.areas@.len() - i,
        {
            proof {
                assert(user_space.areas@[i as int].wf());
            }
            let a = user_space.areas[i].copy_area();
            areas.push(a);
            i = i + 1;
        }
        MemorySet { areas, mapareacontrol: user_space.mapareacontrol.copy() }
    }
}

} // verus!
