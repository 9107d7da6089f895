use oskernel::addr::{VirtAddr, VirtPage};
use oskernel::map_area::{fork_entry, ForkPage, MapArea, MemorySet, PageChunk, PageTableModel};
use std::collections::BTreeMap;
use oskernel::pagetable::{MappingFlags, MF_COW, MF_R, MF_U, MF_W};
use oskernel::memory_set::{
    align_up, find_free_block, from_prot, perm_from_mmap_prot, MapAreaType, MapFreeControl, MapPermission,
    MapType, MmapFlags, MAP_PERM_R, MAP_PERM_U, MAP_PERM_W, MAP_PERM_X,
};
use oskernel::error::SysError;

type Area = MapArea<(), u32>;

fn area(l: usize, r: usize, kind: MapAreaType, frames: &[usize]) -> Area {
    let mut a: Area = MapArea::new(
        VirtAddr::new(l * 4096),
        VirtAddr::new(r * 4096),
        MapType::Framed,
        MapPermission { bits: MAP_PERM_R | MAP_PERM_U },
        kind,
    );
    for f in frames {
        a.insert_frame(VirtPage::new(*f), *f as u32 * 10);
    }
    a
}

fn pages(a: &Area) -> Vec<usize> {
    a.data_frames.iter().map(|(p, _)| p.0).collect()
}

fn bounds(a: &Area) -> (usize, usize, usize, usize) {
    (a.vpn_range.l.0, a.vpn_range.r.0, a.vpn_range.start.0, a.vpn_range.end.0)
}

#[test]
fn map_area_new_rounds_to_pages() {
    let a: Area = MapArea::new(
        VirtAddr::new(0x1234),
        VirtAddr::new(0x5001),
        MapType::Framed,
        MapPermission { bits: MAP_PERM_R },
        MapAreaType::Heap,
    );
    assert_eq!(bounds(&a), (1, 6, 0x1234, 0x5001));
    assert!(a.data_frames.is_empty());
    assert!(a.map_file.is_none());
    assert_eq!(a.mmap_flag, MmapFlags { bits: 0 });
}

#[test]
fn split_middle_makes_three_pieces() {
    let mut ms: MemorySet<(), u32> = MemorySet::new_bare();
    ms.push_into_area_lazy(area(2, 10, MapAreaType::Mmap, &[2, 5, 8]));
    ms.split_vpn_range(VirtPage::new(5), VirtPage::new(7));
    assert_eq!(ms.areas.len(), 3);
    assert_eq!(bounds(&ms.areas[0]), (5, 7, 0x5000, 0x7000));
    assert_eq!(pages(&ms.areas[0]), vec![5]);
    assert_eq!(bounds(&ms.areas[1]), (2, 5, 0x2000, 0x5000));
    assert_eq!(pages(&ms.areas[1]), vec![2]);
    assert_eq!(bounds(&ms.areas[2]), (7, 10, 0x7000, 0xa000));
    assert_eq!(pages(&ms.areas[2]), vec![8]);
}

#[test]
fn split_tail_moves_frames_from_start_up() {
    let mut ms: MemorySet<(), u32> = MemorySet::new_bare();
    ms.push_into_area_lazy(area(2, 6, MapAreaType::Mmap, &[3, 4, 5]));
    ms.split_vpn_range(VirtPage::new(4), VirtPage::new(8));
    assert_eq!(bounds(&ms.areas[0]), (2, 4, 0x2000, 0x4000));
    assert_eq!(pages(&ms.areas[0]), vec![3]);
    assert_eq!(bounds(&ms.areas[1]), (4, 6, 0x4000, 0x6000));
    assert_eq!(pages(&ms.areas[1]), vec![4, 5]);
}

#[test]
fn split_tail_without_frame_at_start_keeps_lower_frames() {
    let mut ms: MemorySet<(), u32> = MemorySet::new_bare();
    ms.push_into_area_lazy(area(2, 6, MapAreaType::Mmap, &[3, 5]));
    ms.split_vpn_range(VirtPage::new(4), VirtPage::new(8));
    assert_eq!(pages(&ms.areas[0]), vec![3]);
    assert_eq!(pages(&ms.areas[1]), vec![5]);
    let mut ms: MemorySet<(), u32> = MemorySet::new_bare();
    ms.push_into_area_lazy(area(0, 4, MapAreaType::Mmap, &[1]));
    ms.split_vpn_range(VirtPage::new(2), VirtPage::new(5));
    assert_eq!(pages(&ms.areas[0]), vec![1]);
    assert_eq!(bounds(&ms.areas[1]), (2, 4, 0x2000, 0x4000));
    assert_eq!(pages(&ms.areas[1]), Vec::<usize>::new());
}

#[test]
fn split_head_and_untouched_areas() {
    let mut ms: MemorySet<(), u32> = MemorySet::new_bare();
    ms.push_into_area_lazy(area(5, 10, MapAreaType::Heap, &[6, 9]));
    ms.push_into_area_lazy(area(20, 30, MapAreaType::Heap, &[21]));
    ms.push_into_area_lazy(area(3, 6, MapAreaType::Heap, &[]));
    ms.split_vpn_range(VirtPage::new(2), VirtPage::new(7));
    assert_eq!(ms.areas.len(), 4);
    assert_eq!(bounds(&ms.areas[0]), (7, 10, 0x7000, 0xa000));
    assert_eq!(pages(&ms.areas[0]), vec![9]);
    assert_eq!(bounds(&ms.areas[1]), (20, 30, 20 * 4096, 30 * 4096));
    assert_eq!(bounds(&ms.areas[2]), (3, 6, 0x3000, 0x6000));
    assert_eq!(bounds(&ms.areas[3]), (5, 7, 0x5000, 0x7000));
    assert_eq!(pages(&ms.areas[3]), vec![6]);
}

#[test]
fn split_leaves_no_area_straddling_the_bounds() {
    let mut ms: MemorySet<(), u32> = MemorySet::new_bare();
    ms.push_into_area_lazy(area(0, 4, MapAreaType::Elf, &[0, 1, 2, 3]));
    ms.push_into_area_lazy(area(4, 9, MapAreaType::Mmap, &[4, 8]));
    ms.push_into_area_lazy(area(9, 12, MapAreaType::Heap, &[11]));
    ms.split_vpn_range(VirtPage::new(2), VirtPage::new(10));
    let mut all = Vec::new();
    for a in ms.areas.iter() {
        let (l, r, _, _) = bounds(a);
        assert!(!(l < 2 && 2 < r));
        assert!(!(l < 10 && 10 < r));
        all.extend(pages(a));
    }
    all.sort();
    assert_eq!(all, vec![0, 1, 2, 3, 4, 8, 11]);
}

#[test]
fn mprotect_changes_the_inside_area() {
    let mut ms: MemorySet<(), u32> = MemorySet::new_bare();
    ms.push_into_area_lazy(area(2, 10, MapAreaType::Mmap, &[]));
    let perm = MapPermission { bits: MAP_PERM_R | MAP_PERM_W | MAP_PERM_U };
    let changed = ms.mprotect(VirtPage::new(5), VirtPage::new(7), perm);
    assert_eq!(changed, vec![0]);
    assert_eq!(ms.areas[0].map_perm, perm);
    assert_eq!(ms.areas[1].map_perm.bits, MAP_PERM_R | MAP_PERM_U);
    assert_eq!(ms.areas[2].map_perm.bits, MAP_PERM_R | MAP_PERM_U);
    let again = ms.mprotect(VirtPage::new(5), VirtPage::new(7), perm);
    assert!(again.is_empty());
}

#[test]
fn munmap_removes_mmap_areas_inside() {
    let mut ms: MemorySet<(), u32> = MemorySet::new_bare();
    ms.push_into_area_lazy(area(0x10, 0x20, MapAreaType::Mmap, &[0x11, 0x13]));
    ms.push_into_area_lazy(area(0x12, 0x14, MapAreaType::Heap, &[]));
    let removed = ms.munmap(0x12000, 0x3000);
    assert_eq!(removed.len(), 1);
    assert_eq!(bounds(&removed[0]), (0x12, 0x15, 0x12000, 0x15000));
    assert_eq!(pages(&removed[0]), vec![0x13]);
    assert_eq!(ms.areas.len(), 3);
    assert_eq!(bounds(&ms.areas[0]), (0x12, 0x14, 0x12000, 0x14000));
    assert_eq!(bounds(&ms.areas[1]), (0x10, 0x12, 0x10000, 0x12000));
    assert_eq!(bounds(&ms.areas[2]), (0x15, 0x20, 0x15000, 0x20000));
}

#[test]
fn lazy_area_prefers_heap_then_mmap() {
    let mut ms: MemorySet<(), u32> = MemorySet::new_bare();
    ms.push_into_area_lazy(area(0, 4, MapAreaType::Elf, &[]));
    ms.push_into_area_lazy(area(8, 16, MapAreaType::Mmap, &[]));
    ms.push_into_area_lazy(area(10, 12, MapAreaType::Heap, &[]));
    assert_eq!(ms.lazy_area(0xa500), Ok(2));
    assert_eq!(ms.lazy_area(0x9000), Ok(1));
    assert_eq!(ms.lazy_area(0x1000), Err(SysError::EADDRNOTAVAIL));
    assert_eq!(ms.lazy_area(0x20000), Err(SysError::EADDRNOTAVAIL));
    assert_eq!(ms.find_area(0x1000), Some(0));
    assert_eq!(ms.find_area(0xa000), Some(1));
    assert_eq!(ms.find_area(0x4000), None);
}

#[test]
fn remove_map_area_by_vpn_start_finds_mmap_only() {
    let mut ms: MemorySet<(), u32> = MemorySet::new_bare();
    ms.push_into_area_lazy(area(8, 9, MapAreaType::Heap, &[]));
    ms.push_into_area_lazy(area(8, 16, MapAreaType::Mmap, &[]));
    assert_eq!(ms.remove_map_area_by_vpn_start(VirtPage::new(8)), 0);
    assert_eq!(ms.areas.len(), 1);
    assert_eq!(ms.areas[0].area_type, MapAreaType::Heap);
    assert_eq!(ms.remove_map_area_by_vpn_start(VirtPage::new(8)), -1);
    ms.recycle_data_pages();
    assert!(ms.areas.is_empty());
}

#[test]
fn frames_behave_as_a_map_by_page() {
    let mut a = area(0, 16, MapAreaType::Heap, &[]);
    assert_eq!(a.insert_frame(VirtPage::new(7), 70), None);
    assert_eq!(a.insert_frame(VirtPage::new(3), 30), None);
    assert_eq!(a.insert_frame(VirtPage::new(7), 71), Some(70));
    assert_eq!(pages(&a), vec![3, 7]);
    assert_eq!(a.get_frame(VirtPage::new(7)), Some(&71));
    assert_eq!(a.get_frame(VirtPage::new(4)), None);
    assert_eq!(a.remove_frame(VirtPage::new(3)), Some(30));
    assert_eq!(a.remove_frame(VirtPage::new(3)), None);
    assert_eq!(pages(&a), vec![7]);
}

#[test]
fn transfer_frame_moves_the_range_of_the_new_area() {
    let mut a = area(0, 16, MapAreaType::Heap, &[1, 4, 5, 9]);
    let mut b = area(4, 8, MapAreaType::Heap, &[6]);
    a.transfer_frame(&mut b);
    assert_eq!(pages(&a), vec![1, 9]);
    assert_eq!(pages(&b), vec![4, 5, 6]);
    assert_eq!(b.get_frame(VirtPage::new(5)), Some(&50));
}

#[test]
fn copy_plan_fills_pages_from_the_start_offset() {
    let a: Area = MapArea::new(
        VirtAddr::new(0x1100),
        VirtAddr::new(0x4000),
        MapType::Framed,
        MapPermission { bits: MAP_PERM_R },
        MapAreaType::Elf,
    );
    let plan = a.copy_plan(0x2000);
    assert_eq!(
        plan,
        vec![
            PageChunk { vpn: VirtPage(1), page_off: 0x100, data_off: 0, len: 0xf00 },
            PageChunk { vpn: VirtPage(2), page_off: 0, data_off: 0xf00, len: 0x1000 },
            PageChunk { vpn: VirtPage(3), page_off: 0, data_off: 0x1f00, len: 0x100 },
        ]
    );
    let empty = a.copy_plan(0);
    assert_eq!(empty, vec![PageChunk { vpn: VirtPage(1), page_off: 0x100, data_off: 0, len: 0 }]);
}

#[test]
fn from_another_copies_kind_without_frames() {
    let mut a: MapArea<u8, u32> = MapArea::new(
        VirtAddr::new(0x2000),
        VirtAddr::new(0x3000),
        MapType::Framed,
        MapPermission { bits: MAP_PERM_W },
        MapAreaType::Mmap,
    );
    a.map_file = Some(7);
    a.insert_frame(VirtPage::new(2), 1);
    let b = MapArea::from_another(&a);
    assert_eq!(b.map_file, Some(7));
    assert!(b.data_frames.is_empty());
    assert_eq!(b.map_perm, a.map_perm);
    assert_eq!(b.vpn_range.l, a.vpn_range.l);
}

#[test]
fn permissions_from_prot() {
    assert_eq!(from_prot(2 | 4).bits, MAP_PERM_R | MAP_PERM_W);
    assert_eq!(from_prot(8 | 16).bits, MAP_PERM_X | MAP_PERM_U);
    assert_eq!(from_prot(1).bits, 0);
    assert_eq!(perm_from_mmap_prot(0).bits, MAP_PERM_U);
    assert_eq!(perm_from_mmap_prot(7).bits, MAP_PERM_U | MAP_PERM_R | MAP_PERM_W | MAP_PERM_X);
    let p = MapPermission { bits: MAP_PERM_R | MAP_PERM_U };
    assert!(p.contains(MapPermission::R()));
    assert!(!p.contains(MapPermission::W()));
}

#[test]
fn align_up_rounds_to_the_next_multiple() {
    assert_eq!(align_up(0x1001, 0x1000), 0x2000);
    assert_eq!(align_up(0x1000, 0x1000), 0x1000);
    assert_eq!(align_up(0, 0x1000), 0);
    assert_eq!(align_up(5, 1), 5);
}

#[test]
fn free_blocks_are_taken_first_fit() {
    let mut blocks = vec![
        MapFreeControl { start_va: 0x1000, num: 2 },
        MapFreeControl { start_va: 0x5000, num: 4 },
        MapFreeControl { start_va: 0x9000, num: 1 },
    ];
    assert_eq!(find_free_block(&mut blocks, 3), 0x5000);
    assert_eq!(blocks[1], MapFreeControl { start_va: 0x5000, num: 1 });
    assert_eq!(find_free_block(&mut blocks, 2), 0x1000);
    assert_eq!(blocks, vec![MapFreeControl { start_va: 0x9000, num: 1 }, MapFreeControl { start_va: 0x5000, num: 1 }]);
    assert_eq!(find_free_block(&mut blocks, 5), 0);
    assert_eq!(blocks.len(), 2);
}

#[test]
fn fork_shares_heap_pages_and_frames_copy_on_write() {
    let mut ms: MemorySet<(), u32> = MemorySet::new_bare();
    ms.push_into_area_lazy(area(2, 4, MapAreaType::Elf, &[3]));
    ms.push_into_area_lazy(area(10, 12, MapAreaType::Heap, &[11]));
    let pages: Vec<(usize, usize, bool)> = ms.fork_pages().iter().map(|p| (p.area, p.vpn.0, p.framed)).collect();
    assert_eq!(pages, vec![(0, 3, true), (1, 10, false), (1, 11, false)]);
    let heap_page = ForkPage { area: 1, vpn: VirtPage(10), framed: false };
    let rw = MappingFlags { bits: MF_R | MF_W | MF_U };
    let e = fork_entry(heap_page, Some((77, rw))).unwrap();
    assert_eq!((e.0, e.1.bits), (77, MF_R | MF_U | MF_COW));
    assert!(fork_entry(heap_page, Some((0, rw))).is_none());
    assert!(fork_entry(heap_page, None).is_none());
    let ro = MappingFlags { bits: MF_R | MF_U };
    let framed = ForkPage { area: 0, vpn: VirtPage(3), framed: true };
    assert_eq!(fork_entry(framed, Some((30, ro))).unwrap().1.bits, MF_R | MF_U);
}

#[test]
fn fork_maps_shared_pages_copy_on_write_in_both_tables() {
    let mut ms: MemorySet<(), u32> = MemorySet::new_bare();
    ms.push_into_area_lazy(area(2, 4, MapAreaType::Elf, &[3]));
    ms.push_into_area_lazy(area(10, 13, MapAreaType::Heap, &[]));
    let rw = MappingFlags { bits: MF_R | MF_W | MF_U };
    let ro = MappingFlags { bits: MF_R | MF_U };
    let mut map = BTreeMap::new();
    map.insert(3, (30, ro));
    map.insert(10, (100, rw));
    map.insert(11, (0, rw));
    map.insert(50, (500, rw));
    let mut parent = PageTableModel { map };
    let mut child = PageTableModel { map: BTreeMap::new() };
    ms.fork_page_tables(&mut parent, &mut child);
    let shared = MF_R | MF_U | MF_COW;
    assert_eq!(parent.map[&10].0, 100);
    assert_eq!(parent.map[&10].1.bits, shared);
    assert_eq!(child.map[&10].1.bits, shared);
    assert_eq!(child.map[&3].1.bits, MF_R | MF_U);
    assert_eq!(parent.map[&11].1.bits, MF_R | MF_W | MF_U);
    assert!(!child.map.contains_key(&11));
    assert!(!child.map.contains_key(&50));
    assert_eq!(parent.map[&50].1.bits, MF_R | MF_W | MF_U);
    assert_eq!(child.map.len(), 2);
}
