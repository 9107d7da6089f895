use oskernel::addr::{PhysPage, VirtAddr, VirtPage};
use oskernel::aux::{AuxvT, AT_PAGESZ};
use oskernel::config::{RLimit, MAX_FD};
use oskernel::context::TaskContext;
use oskernel::error::{syscall_return, SysError};
use oskernel::fdtable::{Fd, FdFlags, FdTable, O_CLOEXEC};
use oskernel::info::{string_to_array, SysInfo, Utsname};
use oskernel::pipe::{pipe_read_step, pipe_write_step, PipeRead, PipeRingBuffer, RING_BUFFER_SIZE};
use oskernel::syscall::{
    finish, fixed_result, is_supported, sysid_to_string, SyscallEnd, SYSCALL_CLOCK_NANOSLEEP, SYSCALL_GETUID,
    SYSCALL_IOCTL, SYSCALL_READ, SYSCALL_READLINKAT, SYSCALL_WRITE,
};
use oskernel::task::{MapAreaControl, MapFdControl};
use oskernel::tid::TidAllocator;
use oskernel::time::{TimeSpec, Tms};
use oskernel::vpn_range::{SimpleRangeIterator, VPNRange};

#[test]
fn page_numbers_and_offsets() {
    assert_eq!(VirtPage::new(3).to_addr(), 0x3000);
    assert_eq!(PhysPage(0x80200).to_addr(), 0x8020_0000);
    let v = VirtPage::new((5 << 18) | (7 << 9) | 9);
    assert_eq!((v.pn_index(0), v.pn_index(1), v.pn_index(2)), (9, 7, 5));
    let a = VirtAddr::new(0x4020_1234);
    assert_eq!(a.floor(), VirtPage(0x40201));
    assert_eq!(a.ceil(), VirtPage(0x40202));
    assert_eq!(VirtAddr::new(0x2000).ceil(), VirtPage(2));
    assert_eq!(a.pn_offest(0), 0x234);
    assert_eq!(a.pn_offest(1), 0x1234);
    assert_eq!(a.pn_offest(2), 0x20_1234);
}

#[test]
fn page_ranges_iterate_in_order() {
    let r = VPNRange::new(VirtPage(3), VirtPage(6), VirtAddr(0x3100), VirtAddr(0x5fff));
    assert_eq!((r.get_start(), r.get_end()), (VirtPage(3), VirtPage(6)));
    assert_eq!((r.get_start_addr(), r.get_end_addr()), (VirtAddr(0x3100), VirtAddr(0x5fff)));
    let mut it: SimpleRangeIterator = r.into_iter();
    let mut seen = Vec::new();
    while let Some(p) = it.next() {
        seen.push(p.0);
    }
    assert_eq!(seen, vec![3, 4, 5]);
    assert_eq!(it.next(), None);
}

#[test]
fn fd_table_allocates_the_lowest_free_descriptor() {
    let mut t: FdTable<u32> = FdTable::new(10, 11, 12);
    assert_eq!(t.fd_table.len(), 3);
    assert_eq!(t.get_file(1), Ok(11));
    assert_eq!(t.get_file(3), Err(SysError::EBADF));
    assert_eq!(t.insert(Some(Fd::new(13, FdFlags::empty()))), Ok(3));
    assert_eq!(t.remove(1), Ok(()));
    assert_eq!(t.get_file(1), Err(SysError::EBADF));
    assert_eq!(t.alloc_fd(), Ok(1));
    assert_eq!(t.dup(3), Ok(1));
    assert_eq!(t.get_file(1), Ok(13));
    assert_eq!(t.dup(7), Err(SysError::EBADF));
    assert_eq!(t.remove(9), Err(SysError::EBADF));
}

#[test]
fn dup3_grows_the_table_to_the_new_descriptor() {
    let mut t: FdTable<u32> = FdTable::new(10, 11, 12);
    assert_eq!(t.dup3(0, 6, 0), Ok(6));
    assert_eq!(t.fd_table.len(), 7);
    assert_eq!(t.get_file(6), Ok(10));
    assert_eq!(t.get_file(4), Err(SysError::EBADF));
    assert_eq!(t.dup3(2, 2, 0), Ok(2));
    assert_eq!(t.dup3(5, 1, 0), Err(SysError::EBADF));
    assert_eq!(t.get_file(1), Ok(11));
}

#[test]
fn fd_limit_and_close_on_exec() {
    let mut t: FdTable<u32> = FdTable::new(10, 11, 12);
    assert_eq!(t.rlimit().rlimit_max, MAX_FD);
    t.set_rlimit(RLimit { rlimit_cur: 3, rlimit_max: 3 });
    assert_eq!(t.alloc_fd(), Err(SysError::EMFILE));
    assert_eq!(FdFlags::from_open_flags(O_CLOEXEC).bits, 1);
    assert_eq!(FdFlags::from_open_flags(0).bits, 0);
    t.set_rlimit(RLimit { rlimit_cur: 8, rlimit_max: 8 });
    assert_eq!(t.dup_with_arg(0, 5, O_CLOEXEC), Ok(3));
    assert_eq!(t.get(3).unwrap().get_flags().bits, 1);
}

#[test]
fn forked_tables_keep_every_descriptor_number() {
    let mut t: FdTable<u32> = FdTable::new(10, 11, 12);
    t.insert(Some(Fd::new(13, FdFlags::empty()))).unwrap();
    t.remove(1).unwrap();
    let c = FdTable::from_existed_table(&t);
    let files: Vec<Option<u32>> = c.fd_table.iter().map(|s| s.as_ref().map(|d| d.file)).collect();
    assert_eq!(files, vec![Some(10), None, Some(12), Some(13)]);
}

#[test]
fn tids_are_reused_last_released_first() {
    let mut a = TidAllocator::new();
    assert_eq!(a.allocate().0, 0);
    assert_eq!(a.allocate().0, 1);
    assert_eq!(a.allocate().0, 2);
    a.dealloc(1);
    a.dealloc(0);
    assert_eq!(a.allocate().0, 0);
    assert_eq!(a.allocate().0, 1);
    assert_eq!(a.allocate().0, 3);
}

#[test]
fn pipe_bytes_come_out_in_order() {
    let mut p = PipeRingBuffer::new();
    assert_eq!(p.available_read(), 0);
    assert_eq!(p.write_bytes(b"hello"), 5);
    assert_eq!(p.available_read(), 5);
    assert_eq!(p.read_byte(), b'h');
    assert_eq!(p.read_bytes(10), b"ello".to_vec());
    assert_eq!(p.available_read(), 0);
}

#[test]
fn pipe_is_bounded_and_wraps() {
    let mut p = PipeRingBuffer::new();
    let big = vec![7u8; RING_BUFFER_SIZE + 10];
    assert_eq!(p.write_bytes(&big), RING_BUFFER_SIZE);
    assert_eq!(p.write_bytes(b"x"), 0);
    assert_eq!(p.read_bytes(RING_BUFFER_SIZE - 1).len(), RING_BUFFER_SIZE - 1);
    assert_eq!(p.write_bytes(b"ab"), 2);
    assert_eq!(p.read_bytes(3), vec![7, b'a', b'b']);
}

#[test]
fn mmap_placement_and_lookup() {
    let mut c = MapAreaControl::new();
    let top = c.mmap_top;
    assert_eq!(c.mmap_place(0x1800, 3), Some(top));
    assert_eq!(c.mmap_top, top + 0x2000);
    assert_eq!(c.mapfd, vec![MapFdControl { fd: 3, len: 0x1800, start_va: top }]);
    assert_eq!(c.munmap_lookup(top + 1), Err(-1));
    assert_eq!(c.munmap_lookup(c.mmap_top), Err(-2));
    assert_eq!(c.munmap_lookup(top + 0x1000), Err(-3));
    assert_eq!(c.munmap_lookup(top), Ok((3, 0x1800)));
    assert!(c.mapfd.is_empty());
    let mut len = 0usize;
    assert_eq!(c.find_fd(top, &mut len), -1);
    assert_eq!(c.find_block(1), 0);
}

#[test]
fn errors_become_negative_numbers() {
    assert_eq!(SysError::EBADF.errno(), 9);
    assert_eq!(SysError::EADDRNOTAVAIL.errno(), 99);
    assert_eq!(syscall_return(Ok(5)), 5);
    assert_eq!(syscall_return(Err(SysError::EINVAL)), -22);
    assert_eq!(syscall_return(Err(SysError::ENOENT)), -2);
}

#[test]
fn syscall_names() {
    assert_eq!(sysid_to_string(SYSCALL_READ), "sys_read");
    assert_eq!(sysid_to_string(SYSCALL_WRITE), "sys_write");
    assert_eq!(sysid_to_string(SYSCALL_CLOCK_NANOSLEEP), "sys_clock_nanosleep");
}

#[test]
fn small_records() {
    assert_eq!(TimeSpec { sec: 3, usec: 7 }.to_usec(), 3_000_007);
    let t = Tms::new(500, 501);
    assert_eq!((t.tms_utime, t.tms_stime, t.tms_cutime, t.tms_cstime), (0, 0, 500, 501));
    let f = Tms::from_other_task(&Tms { tms_utime: 4, tms_stime: 5, tms_cutime: 6, tms_cstime: 7 }, 900, 902);
    assert_eq!((f.tms_utime, f.tms_stime, f.tms_cutime, f.tms_cstime), (4, 5, 900, 902));
    let a = AuxvT::new(AT_PAGESZ, 4096);
    assert_eq!((a.a_type, a.a_val), (6, 4096));
    let z = TaskContext::zero_init();
    assert_eq!((z.ra, z.sp, z.s), (0, 0, [0; 12]));
    let g = TaskContext::goto_trap_return(0x9000, 0x8020_0000);
    assert_eq!((g.ra, g.sp), (0x8020_0000, 0x9000));
}

#[test]
fn uname_fields_are_nul_padded() {
    let u = Utsname::default();
    assert_eq!(&u.sysname[..6], b"Linux\0");
    assert_eq!(&u.machine[..7], b"risc-v\0");
    assert_eq!(u.domainname[4], 0);
    let arr = string_to_array("abc");
    assert_eq!(&arr[..4], b"abc\0");
    assert!(arr[3..].iter().all(|b| *b == 0));
    let mut v = Utsname::default();
    v.sysname = string_to_array("x");
    v.copy_from(&u);
    assert_eq!(v.sysname, u.sysname);
    let s = SysInfo::default();
    assert_eq!((s.uptime, s.totalram, s.procs), (0, 0, 0));
}

#[test]
fn pipe_read_waits_until_data_or_end_of_file() {
    let mut ring = PipeRingBuffer::new();
    assert!(matches!(pipe_read_step(&mut ring, 4, false), PipeRead::Wait));
    match pipe_read_step(&mut ring, 4, true) {
        PipeRead::Done(v) => assert!(v.is_empty()),
        PipeRead::Wait => panic!("end of file must not wait"),
    }
    assert_eq!(pipe_write_step(&mut ring, &[1, 2, 3]), Some(3));
    match pipe_read_step(&mut ring, 2, false) {
        PipeRead::Done(v) => assert_eq!(v, vec![1, 2]),
        PipeRead::Wait => panic!("bytes are there"),
    }
    match pipe_read_step(&mut ring, 8, true) {
        PipeRead::Done(v) => assert_eq!(v, vec![3]),
        PipeRead::Wait => panic!("bytes are there"),
    }
}

#[test]
fn pipe_write_waits_while_full() {
    let mut ring = PipeRingBuffer::new();
    let data = vec![9u8; RING_BUFFER_SIZE + 5];
    assert_eq!(pipe_write_step(&mut ring, &data), Some(RING_BUFFER_SIZE));
    assert_eq!(pipe_write_step(&mut ring, &data[RING_BUFFER_SIZE..]), None);
}

#[test]
fn dispatcher_fixed_results_and_endings() {
    assert_eq!(fixed_result(SYSCALL_IOCTL), Some(0));
    assert_eq!(fixed_result(SYSCALL_GETUID), Some(1));
    assert_eq!(fixed_result(SYSCALL_READLINKAT), Some(-1));
    assert_eq!(fixed_result(SYSCALL_READ), None);
    assert!(is_supported(SYSCALL_WRITE));
    assert!(!is_supported(1000));
    assert_eq!(finish(Ok(5), None), SyscallEnd::Return(5));
    assert_eq!(finish(Err(SysError::EBADF), None), SyscallEnd::Return(-9));
    assert_eq!(finish(Ok(5), Some((-1, "Killed"))), SyscallEnd::Exit(-1));
}

#[test]
fn a_range_walks_its_pages_in_order() {
    let r = VPNRange::new(VirtPage(5), VirtPage(8), VirtAddr(0x5000), VirtAddr(0x8000));
    let ps: Vec<usize> = r.pages().iter().map(|p| p.0).collect();
    assert_eq!(ps, vec![5, 6, 7]);
    let e = VPNRange::new(VirtPage(5), VirtPage(5), VirtAddr(0x5000), VirtAddr(0x5000));
    assert!(e.pages().is_empty());
}
