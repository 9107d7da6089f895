use oskernel::elf::{elf_layout_fits, header_fits_exec, ProgramHeader, PF_R, PT_LOAD, PT_TLS};
use oskernel::process::HeapBounds;
use oskernel::task::KernelStack;
use oskernel::time::TimeSpec;
use oskernel::timer::{TimerQueue, TimerType};
use oskernel::config::KERNEL_STACK_SIZE;

fn ts(sec: usize, usec: usize) -> TimeSpec {
    TimeSpec { sec, usec }
}

#[test]
fn expired_timers_leave_earliest_first() {
    let mut q: TimerQueue<u32> = TimerQueue::new();
    q.add_futex_timer(ts(3, 0), 3);
    q.add_futex_timer(ts(1, 500), 1);
    q.add_stopped_task_timer(ts(2, 0), 2);
    q.add_futex_timer(ts(9, 0), 9);
    let out = q.check_futex_timer(2_500_000_000);
    let tasks: Vec<u32> = out.iter().map(|t| t.task).collect();
    assert_eq!(tasks, vec![1, 2]);
    assert_eq!(out[1].kind, TimerType::StoppedTask);
    let left: Vec<u32> = q.timers.iter().map(|t| t.task).collect();
    assert_eq!(left, vec![3, 9]);
    assert!(q.check_futex_timer(0).is_empty());
    let out = q.check_futex_timer(10_000_000_000);
    let tasks: Vec<u32> = out.iter().map(|t| t.task).collect();
    assert_eq!(tasks, vec![3, 9]);
    assert!(q.timers.is_empty());
}

#[test]
fn layout_checks_guard_the_arithmetic() {
    let ok = ProgramHeader { p_type: PT_LOAD, flags: PF_R, offset: 0, vaddr: 0x1000, file_size: 0x10, mem_size: 0x10 };
    assert!(header_fits_exec(&ok, 0));
    let wrap = ProgramHeader { p_type: PT_LOAD, flags: PF_R, offset: 0, vaddr: u64::MAX - 1, file_size: 0, mem_size: 4 };
    assert!(!header_fits_exec(&wrap, 0));
    let tls = ProgramHeader { p_type: PT_TLS, flags: PF_R, offset: 0, vaddr: u64::MAX, file_size: 0, mem_size: 0 };
    assert!(!header_fits_exec(&tls, 1));
    assert!(elf_layout_fits(&vec![ok], 0, 0x40, 0x8000));
    assert!(!elf_layout_fits(&vec![ok, wrap], 0, 0x40, 0x8000));
    assert!(!elf_layout_fits(&vec![ok], 0, 0x40, usize::MAX));
}

#[test]
fn brk_fits_only_fails_near_the_top() {
    let b = HeapBounds { heap_bottom: 0x10000, heap_top: 0x10000, stack_bottom: 0x7ffe_c000, max_data_addr: 0x10000 };
    assert!(b.brk_fits(0x12345));
    assert!(b.brk_fits(0));
    let low = HeapBounds { heap_bottom: 0, heap_top: 0, stack_bottom: 0x10, max_data_addr: 0 };
    assert!(!low.brk_fits(0x20));
}

#[test]
fn kernel_stack_spans_its_size() {
    let k = KernelStack::new();
    assert_eq!(k.inner.len() * 16, KERNEL_STACK_SIZE);
    assert!(k.inner.iter().all(|w| *w == 0));
    assert_eq!(k.get_position(0x1000), (0x1000, 0x1000 + KERNEL_STACK_SIZE));
}
