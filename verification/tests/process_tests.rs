use oskernel::addr::VirtPage;
use oskernel::config::{RLimit, USER_STACK_SIZE};
use oskernel::error::SysError;
use oskernel::map_area::MapArea;
use oskernel::memory_set::{MapAreaType, MapType, MAP_PERM_R, MAP_PERM_U, MAP_PERM_W, MAP_PERM_X};
use oskernel::process::{
    clock_nanosleep_duration, clone_flags, exit_status, futex_command, futex_deadline, futex_private, has_child,
    mprotect_range, nanosleep_duration, prlimit_query, sleep_remaining, still_sleeping, tgkill_signal,
    time_spec_from_usec, zombie_child, ChildState, CloneFlags, FutexCommand, HeapBounds, CLONE_SETTLS, CLONE_VM,
};
use oskernel::time::{TimeSpec, Tms};
use oskernel::process::{exec_args, futex_addr_check, futex_wait_check, random_byte};
use oskernel::task::mmap_args_ok;

type Area = MapArea<(), u32>;

fn bounds() -> HeapBounds {
    HeapBounds { heap_bottom: 0x10000, heap_top: 0x10000, stack_bottom: 0x7ffe_c000, max_data_addr: 0x10000 }
}

#[test]
fn clone_flags_drop_the_exit_signal() {
    assert_eq!(clone_flags(0x11), Ok(CloneFlags { bits: 0 }));
    let f = clone_flags(0x100 | 0x80000 | 17).unwrap();
    assert!(f.contains(CloneFlags { bits: CLONE_VM }));
    assert!(f.contains(CloneFlags { bits: CLONE_SETTLS }));
    assert_eq!(clone_flags(0x4000), Err(SysError::EINVAL));
    assert_eq!(CloneFlags::from_bits(0x2), None);
}

#[test]
fn exit_status_keeps_the_low_byte() {
    assert_eq!(exit_status(0), 0);
    assert_eq!(exit_status(1), 256);
    assert_eq!(exit_status(0x1ff), 0xff00);
    assert_eq!(exit_status(-1), 0xff00);
}

#[test]
fn brk_zero_reports_the_break() {
    let mut b = bounds();
    let (r, a) = b.brk::<(), u32>(0);
    assert_eq!(r, Ok(0x10000));
    assert!(a.is_none());
    assert_eq!(b, bounds());
}

#[test]
fn brk_grows_with_a_heap_area() {
    let mut b = bounds();
    let (r, a): (_, Option<Area>) = b.brk(0x12345);
    assert_eq!(r, Ok(0x12345));
    let a = a.unwrap();
    assert_eq!((a.vpn_range.l.0, a.vpn_range.r.0), (0x10, 0x13));
    assert_eq!((a.vpn_range.start.0, a.vpn_range.end.0), (0x10000, 0x12345));
    assert_eq!(a.map_perm.bits, MAP_PERM_R | MAP_PERM_U | MAP_PERM_W | MAP_PERM_X);
    assert_eq!(a.area_type, MapAreaType::Heap);
    assert_eq!(a.map_type, MapType::Framed);
    assert_eq!(b.heap_top, 0x12345);
    assert_eq!(b.max_data_addr, 0x13000);
    let (r2, a2) = b.brk::<(), u32>(0x12000);
    assert_eq!(r2, Ok(0x12000));
    assert!(a2.is_none());
    assert_eq!(b.heap_top, 0x12000);
    assert_eq!(b.max_data_addr, 0x13000);
}

#[test]
fn brk_near_the_stack_keeps_the_break() {
    let mut b = bounds();
    let (r, a) = b.brk::<(), u32>(0x7ffe_b800);
    assert_eq!(r, Ok(0x10000));
    assert!(a.is_none());
    assert_eq!(b, bounds());
}

#[test]
fn brk_below_the_heap_bottom_is_enxio() {
    let mut b = HeapBounds { heap_bottom: 0x20000, heap_top: 0x30000, stack_bottom: 0x7ffe_c000, max_data_addr: 0x10000 };
    let (r, _) = b.brk::<(), u32>(0x18000);
    assert_eq!(r, Err(SysError::ENXIO));
    assert_eq!(b.heap_top, 0x30000);
    let (r, _) = b.brk::<(), u32>(0x28000);
    assert_eq!(r, Ok(0x28000));
    assert_eq!(b.heap_top, 0x28000);
    let (r, _) = b.brk::<(), u32>(0x28000);
    assert_eq!(r, Ok(0x28000));
}

#[test]
fn nanosleep_checks_the_sub_second_part() {
    assert_eq!(nanosleep_duration(&TimeSpec { sec: 2, usec: 5 }), Ok(2_000_000_005));
    assert_eq!(nanosleep_duration(&TimeSpec { sec: 0, usec: 100_000_000 }), Err(SysError::EINVAL));
    assert_eq!(nanosleep_duration(&TimeSpec { sec: 0, usec: 99_999_999 }), Ok(99_999_999));
    assert!(still_sleeping(10, 15, 6));
    assert!(!still_sleeping(10, 16, 6));
}

#[test]
fn clock_nanosleep_durations() {
    assert_eq!(clock_nanosleep_duration(0, 0, 500, 100), Ok(500));
    assert_eq!(clock_nanosleep_duration(1, 1, 500, 100), Ok(400));
    assert_eq!(clock_nanosleep_duration(1, 1, 50, 100), Ok(0));
    assert_eq!(clock_nanosleep_duration(2, 0, 50, 100), Err(SysError::EINVAL));
    let rem = sleep_remaining(100, 150, 2_000_000_100).unwrap();
    assert_eq!((rem.sec, rem.usec), (2, 50));
    assert!(sleep_remaining(100, 300, 200).is_none());
}

#[test]
fn time_values() {
    let t = time_spec_from_usec(3_500_000);
    assert_eq!((t.sec, t.usec), (3, 3_500_000));
    let d = futex_deadline(2_500_000_000, &TimeSpec { sec: 1, usec: 10 });
    assert_eq!((d.sec, d.usec), (3, 500_000_010));
    let start = Tms { tms_utime: 1, tms_stime: 2, tms_cutime: 30, tms_cstime: 40 };
    let e = start.elapsed(100);
    assert_eq!((e.tms_utime, e.tms_stime, e.tms_cutime, e.tms_cstime), (99, 98, 70, 60));
}

#[test]
fn tgkill_checks_in_order() {
    assert_eq!(tgkill_signal(5, 32, 5, true), Err(SysError::EINVAL));
    assert_eq!(tgkill_signal(5, 10, 5, false), Err(SysError::ESRCH));
    assert_eq!(tgkill_signal(5, 10, 6, true), Err(SysError::EPERM));
    assert_eq!(tgkill_signal(-1, 10, 6, false), Err(SysError::EPERM));
    assert_eq!(tgkill_signal(5, 10, 5, true).unwrap().bits, 0x200);
    assert_eq!(tgkill_signal(5, 1, 5, true).unwrap().bits, 0x1);
}

#[test]
fn prlimit_reports_stack_and_descriptor_limits() {
    let nofile = RLimit { rlimit_cur: 64, rlimit_max: 128 };
    let (l, sets) = prlimit_query(0, Some(nofile), 3).unwrap();
    assert_eq!((l.rlimit_cur, l.rlimit_max, sets), (USER_STACK_SIZE, USER_STACK_SIZE, false));
    let (l, sets) = prlimit_query(0, Some(nofile), 7).unwrap();
    assert_eq!((l.rlimit_cur, l.rlimit_max, sets), (64, 128, true));
    let (l, sets) = prlimit_query(0, Some(nofile), 0).unwrap();
    assert_eq!((l.rlimit_cur, l.rlimit_max, sets), (0, 0, false));
    assert!(matches!(prlimit_query(0, Some(nofile), 16), Err(SysError::EINVAL)));
    assert!(matches!(prlimit_query(0, Some(nofile), -1), Err(SysError::EINVAL)));
    assert!(matches!(prlimit_query(42, None, 3), Err(SysError::ESRCH)));
    assert!(matches!(prlimit_query(42, None, 16), Err(SysError::ESRCH)));
    assert!(prlimit_query(42, Some(nofile), 7).is_ok());
}

#[test]
fn mprotect_range_rounds_and_checks_alignment() {
    let (s, e, p) = mprotect_range(0x1000, 0x2000, 3).unwrap();
    assert_eq!((s, e), (VirtPage(1), VirtPage(3)));
    assert_eq!(p.bits, MAP_PERM_U | MAP_PERM_R | MAP_PERM_W);
    let (s, e, p) = mprotect_range(0x1000, 0x2001, 4).unwrap();
    assert_eq!((s, e), (VirtPage(1), VirtPage(3)));
    assert_eq!(p.bits, MAP_PERM_U | MAP_PERM_X);
    let (s, e, _) = mprotect_range(0x1000, 0, 0).unwrap();
    assert_eq!((s, e), (VirtPage(1), VirtPage(1)));
    assert!(matches!(mprotect_range(0x1001, 0x1000, 1), Err(SysError::EINVAL)));
}

#[test]
fn waitpid_finds_children() {
    let children = vec![
        ChildState { tid: 3, pid: 3, zombie: false },
        ChildState { tid: 4, pid: 4, zombie: true },
        ChildState { tid: 5, pid: 3, zombie: true },
    ];
    assert!(has_child(&children, -1));
    assert!(has_child(&children, 5));
    assert!(!has_child(&children, 9));
    assert!(!has_child(&Vec::new(), -1));
    assert_eq!(zombie_child(&children, -1), Some(1));
    assert_eq!(zombie_child(&children, 3), Some(2));
    assert_eq!(zombie_child(&children, 5), None);
}

#[test]
fn futex_operations_decode() {
    assert_eq!(futex_command(0), FutexCommand::Wait);
    assert_eq!(futex_command(1 | 128), FutexCommand::Wake);
    assert_eq!(futex_command(3), FutexCommand::Requeue);
    assert!(futex_private(128 | 1));
    assert!(!futex_private(1));
}

#[test]
fn exec_arguments_prefix_the_program_and_force_rm() {
    let raw: Vec<Vec<u8>> = vec![b"busybox".to_vec(), b"rm".to_vec(), b"x".to_vec(), b"rm".to_vec()];
    let out = exec_args(&raw);
    let expect: Vec<Vec<u8>> =
        vec![b"./busybox".to_vec(), b"rm".to_vec(), b"-f".to_vec(), b"x".to_vec(), b"rm".to_vec(), b"-f".to_vec()];
    assert_eq!(out, expect);
    assert_eq!(exec_args(&vec![b"rm".to_vec()]), vec![b"./rm".to_vec()]);
    assert!(exec_args(&Vec::new()).is_empty());
}

#[test]
fn random_byte_takes_the_low_bits() {
    assert_eq!(random_byte(&[1, 0, 1, 0, 0, 0, 0, 3]), 0b1010_0001);
    assert_eq!(random_byte(&[2, 4, 6, 8, 10, 12, 14, 16]), 0);
    assert_eq!(random_byte(&[1; 8]), 0xff);
}

#[test]
fn futex_checks_alignment_and_the_word() {
    assert_eq!(futex_addr_check(0x1002), Err(SysError::EINVAL));
    assert_eq!(futex_addr_check(0x1004), Ok(()));
    assert_eq!(futex_wait_check(3, 4), Err(SysError::EAGAIN));
    assert_eq!(futex_wait_check(4, 4), Ok(()));
}

#[test]
fn mmap_arguments_are_checked() {
    assert!(mmap_args_ok(4096, 0, Some(true)));
    assert!(!mmap_args_ok(0, 0, Some(true)));
    assert!(!mmap_args_ok(4096, 8, Some(true)));
    assert!(!mmap_args_ok(4096, 0, None));
    assert!(!mmap_args_ok(4096, 0, Some(false)));
}
