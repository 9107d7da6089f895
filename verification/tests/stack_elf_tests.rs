use oskernel::elf::{from_elf, map_elf, ProgramHeader, PF_R, PF_W, PF_X, PT_INTERP, PT_LOAD, PT_TLS};
use oskernel::memory_set::{MapAreaType, MAP_PERM_R, MAP_PERM_U, MAP_PERM_W, MAP_PERM_X};
use oskernel::user_stack::{user_stack_image, STACK_RANDOM};

#[test]
fn user_stack_layout_for_two_arguments() {
    let top = 0x8000_0000usize;
    let img = user_stack_image(top, &vec![3, 5], 9, 56, 0x10040);
    assert_eq!(img.arg_addrs, vec![0x7fff_ffbc, 0x7fff_ffb6]);
    assert_eq!(img.sp, 0x7fff_ff28);
    let expected: Vec<(usize, u64)> = vec![
        (0x7fff_fff8, 0),
        (0x7fff_fff0, STACK_RANDOM),
        (0x7fff_ffe8, 0x2000_0000_0000_0000),
        (0x7fff_ffe0, 0x3000_0000_0000_0000),
        (0x7fff_ffc8, 0),
        (0x7fff_ffa0, 0),
        (0x7fff_ffa8, 0),
        (0x7fff_ff90, 6),
        (0x7fff_ff98, 4096),
        (0x7fff_ff80, 5),
        (0x7fff_ff88, 9),
        (0x7fff_ff70, 4),
        (0x7fff_ff78, 56),
        (0x7fff_ff60, 3),
        (0x7fff_ff68, 0x10040),
        (0x7fff_ff50, 25),
        (0x7fff_ff58, 0x7fff_ffe0),
        (0x7fff_ff48, 0),
        (0x7fff_ff40, 0),
        (0x7fff_ff30, 0x7fff_ffbc),
        (0x7fff_ff38, 0x7fff_ffb6),
        (0x7fff_ff28, 2),
    ];
    assert_eq!(img.words, expected);
}

#[test]
fn user_stack_without_arguments() {
    let img = user_stack_image(0x8000_0000, &Vec::new(), 0, 0, 0);
    assert!(img.arg_addrs.is_empty());
    assert_eq!(img.sp % 8, 0);
    assert_eq!(img.words.last(), Some(&(img.sp, 0u64)));
    assert_eq!(img.words.len(), 20);
}

fn headers() -> Vec<ProgramHeader> {
    vec![
        ProgramHeader { p_type: PT_LOAD, flags: PF_R | PF_X, offset: 0, vaddr: 0x10000, file_size: 0x200, mem_size: 0x200 },
        ProgramHeader { p_type: PT_TLS, flags: PF_R, offset: 0x300, vaddr: 0x12000, file_size: 0x10, mem_size: 0x20 },
        ProgramHeader { p_type: PT_LOAD, flags: PF_R | PF_W, offset: 0x1000, vaddr: 0x11500, file_size: 0x100, mem_size: 0x2000 },
        ProgramHeader { p_type: PT_INTERP, flags: PF_R, offset: 0x2000, vaddr: 0, file_size: 0x1c, mem_size: 0x1c },
    ]
}

#[test]
fn map_elf_lays_out_loadable_segments() {
    let phs = headers();
    let l = map_elf::<(), u32>(&phs, 0, 4, 0x40);
    assert_eq!(l.segments.len(), 4);
    let s0 = l.segments[0].as_ref().unwrap();
    assert_eq!((s0.area.vpn_range.l.0, s0.area.vpn_range.r.0), (0x10, 0x11));
    assert_eq!((s0.area.vpn_range.start.0, s0.area.vpn_range.end.0), (0x10000, 0x10200));
    assert_eq!(s0.area.map_perm.bits, MAP_PERM_U | MAP_PERM_R | MAP_PERM_X);
    assert_eq!(s0.area.area_type, MapAreaType::Elf);
    assert_eq!((s0.data_start, s0.data_end), (0, 0x200));
    assert!(l.segments[1].is_none());
    let s2 = l.segments[2].as_ref().unwrap();
    assert_eq!((s2.area.vpn_range.l.0, s2.area.vpn_range.r.0), (0x11, 0x14));
    assert_eq!(s2.area.map_perm.bits, MAP_PERM_U | MAP_PERM_R | MAP_PERM_W);
    assert_eq!((s2.data_start, s2.data_end), (0x1000, 0x1100));
    assert!(l.segments[3].is_none());
    assert_eq!(l.max_virt_mem, 0x14000);
    assert_eq!(l.header_va, 0x10000);
    assert_eq!(l.tls_addr, 0x12000);
    assert_eq!(l.phdr, 0x10040);
    assert_eq!(l.ph_count, 4);
}

#[test]
fn map_elf_at_an_offset() {
    let phs = headers();
    let l = map_elf::<(), u32>(&phs, 0x1000_0000, 4, 0x40);
    assert_eq!(l.header_va, 0x1001_0000);
    assert_eq!(l.tls_addr, 0x1001_2000);
    assert_eq!(l.max_virt_mem, 0x1001_4000);
}

#[test]
fn from_elf_adds_heap_and_stack() {
    let phs = headers();
    let img = from_elf::<(), u32>(&phs, 4, 0x40, 0x10100, 56);
    assert_eq!(img.heap_top, 0x14000 + 0x8000);
    assert_eq!((img.heap.vpn_range.start.0, img.heap.vpn_range.end.0), (0x14000, 0x1c000));
    assert_eq!(img.heap.area_type, MapAreaType::Heap);
    assert_eq!(img.heap.map_perm.bits, MAP_PERM_R | MAP_PERM_W | MAP_PERM_U);
    assert_eq!((img.stack.vpn_range.start.0, img.stack.vpn_range.end.0), (0x8000_0000 - 0x14000, 0x8000_0000));
    assert_eq!(img.stack.area_type, MapAreaType::Stack);
    assert_eq!(img.user_stack_top, 0x8000_0000);
    assert_eq!(img.entry_point, 0x10100);
    assert_eq!(img.ph_entry_size, 56);
    assert_eq!(img.layout.phdr, 0x10040);
}

#[test]
fn exec_sets_registers_bounds_times_and_mmap_state() {
    let phs = headers();
    let img = from_elf::<(), u32>(&phs, 4, 0x40, 0x10100, 56);
    let mut heap = oskernel::process::HeapBounds { heap_bottom: 7, heap_top: 1, stack_bottom: 2, max_data_addr: 3 };
    let (regs, stack, tms, control) = oskernel::exec::exec_state(&img, &vec![3, 5], &mut heap, 100, 101);
    assert_eq!(regs.pc, 0x10100);
    assert_eq!(regs.tls, 0x12000);
    assert_eq!(regs.sp, stack.sp);
    assert_eq!(stack.sp % 8, 0);
    assert_eq!((heap.heap_bottom, heap.heap_top, heap.max_data_addr), (7, 0x1c000, 0x1c000));
    assert_eq!(heap.stack_bottom, 0x8000_0000 - 0x14000);
    assert_eq!((tms.tms_utime, tms.tms_stime, tms.tms_cutime, tms.tms_cstime), (0, 0, 100, 101));
    assert!(control.mapfd.is_empty() && control.mapfreeblock.is_empty());
}
