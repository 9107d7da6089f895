use oskernel::addr::{VirtAddr, VirtPage};
use oskernel::map_area::{MapArea, MemorySet};
use oskernel::memory_set::{MapAreaType, MapFreeControl, MapPermission, MapType, MAP_PERM_R};
use oskernel::pagetable::{MappingFlags, MF_COW, MF_P, MF_R, MF_U, MF_W};
use oskernel::user_mem::{fault_plan, touched_pages, FaultPlan};

#[test]
fn buffers_touch_each_page_once() {
    let p: Vec<usize> = touched_pages(0x1ff0, 0x20).into_iter().map(|v| v.0).collect();
    assert_eq!(p, vec![1, 2]);
    let p: Vec<usize> = touched_pages(0x3000, 0x2000).into_iter().map(|v| v.0).collect();
    assert_eq!(p, vec![3, 4]);
    let p: Vec<usize> = touched_pages(0x3000, 0x2001).into_iter().map(|v| v.0).collect();
    assert_eq!(p, vec![3, 4, 5]);
    assert!(touched_pages(0x5000, 0).is_empty());
}

#[test]
fn fault_plans_by_translation() {
    assert_eq!(fault_plan(None), FaultPlan { lazy: true, cow: false });
    let present = MappingFlags::from_bits_retain(MF_P | MF_R | MF_U);
    assert_eq!(fault_plan(Some((0x8000_0000, present))), FaultPlan { lazy: false, cow: false });
    assert_eq!(fault_plan(Some((0, present))), FaultPlan { lazy: true, cow: false });
    let shared = MappingFlags::from_bits_retain(MF_P | MF_R | MF_COW);
    assert_eq!(fault_plan(Some((0x8000_0000, shared))), FaultPlan { lazy: false, cow: true });
    let absent = MappingFlags::from_bits_retain(MF_R);
    assert_eq!(fault_plan(Some((0x8000_0000, absent))), FaultPlan { lazy: true, cow: false });
}

#[test]
fn fork_shares_writable_pages_until_the_fault() {
    let w = MappingFlags::from_bits_retain(MF_P | MF_R | MF_W | MF_U);
    let shared = w.shared_on_fork();
    assert_eq!(shared.bits(), MF_P | MF_R | MF_U | MF_COW);
    assert_eq!(shared.shared_on_fork().bits(), shared.bits());
    assert_eq!(shared.after_cow_fault().bits(), w.bits());
    let ro = MappingFlags::from_bits_retain(MF_P | MF_R);
    assert_eq!(ro.shared_on_fork().bits(), ro.bits());
}

#[test]
fn forked_memory_copies_areas_and_frames() {
    let mut ms: MemorySet<u8, u32> = MemorySet::new_bare();
    let mut a: MapArea<u8, u32> = MapArea::new(
        VirtAddr::new(0x2000),
        VirtAddr::new(0x5000),
        MapType::Framed,
        MapPermission { bits: MAP_PERM_R },
        MapAreaType::Mmap,
    );
    a.map_file = Some(4);
    a.insert_frame(VirtPage::new(2), 20);
    a.insert_frame(VirtPage::new(4), 40);
    ms.push_into_area_lazy(a);
    ms.mapareacontrol.mapfreeblock.push(MapFreeControl { start_va: 0x7000, num: 2 });
    let child = MemorySet::from_existed_user(&ms);
    assert_eq!(child.areas.len(), 1);
    assert_eq!(child.areas[0].data_frames, vec![(VirtPage(2), 20), (VirtPage(4), 40)]);
    assert_eq!(child.areas[0].map_file, Some(4));
    assert_eq!(child.areas[0].vpn_range.l, VirtPage(2));
    assert_eq!(child.mapareacontrol.mapfreeblock, ms.mapareacontrol.mapfreeblock);
    assert_eq!(child.mapareacontrol.mmap_top, ms.mapareacontrol.mmap_top);
}
