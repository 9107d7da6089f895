//! The state of a task after `exec`: where it starts, its heap and stack
//! bounds, its times and its fresh mmap state, from the laid-out program.
use vstd::prelude::*;
use crate::config::USER_STACK_SIZE;
use crate::elf::ProgramImage;
use crate::process::HeapBounds;
use crate::task::{MapAreaControl, MapFdControl};
use crate::memory_set::MapFreeControl;
use crate::time::Tms;
use crate::user_stack::{argc_pos, arg_pos, stack_words, user_stack_image, StackImage};

verus! {

/// The registers a task starts its new program with: the entry point, the
/// stack pointer (at the argument count) and the thread pointer (the TLS
/// segment's address, 0 without one); every other register is zero.
#[derive(Clone, Copy, Debug, PartialEq, Eq, Structural)]
pub struct ExecRegs {
    pub pc: usize,
    pub sp: usize,
    pub tls: usize,
}

/// What `exec` sets up for a task from the program `img` and arguments of
/// lengths `arg_lens`, given the two clock readings (milliseconds) for the
/// times: the registers, the words to write on the user stack, the new
/// times and a fresh mmap state; `heap` gets the program's heap top (also
/// its data limit) and the bottom of the user stack, and keeps its heap
/// bottom.
pub fn exec_state<F, T>(
    img: &ProgramImage<F, T>,
    arg_lens: &Vec<usize>,
    heap: &mut HeapBounds,
    cutime_msec: usize,
    cstime_msec: usize,
) -> (r: (ExecRegs, StackImage, Tms, MapAreaControl))
    requires
        argc_pos(img.user_stack_top, arg_lens@) >= 0,
        img.user_stack_top >= USER_STACK_SIZE,
        img.layout.tls_addr <= usize::MAX,
    ensures
        final(heap).heap_top == img.heap_top,
        final(heap).max_data_addr == img.heap_top,
        final(heap).stack_bottom == img.user_stack_top - USER_STACK_SIZE,
        final(heap).heap_bottom == old(heap).heap_bottom,
        r.0.pc == img.entry_point,
        r.0.sp == argc_pos(img.user_stack_top, arg_lens@),
        r.0.tls == img.layout.tls_addr,
        r.1.sp == r.0.sp,
        r.1.words@ == stack_words(img.user_stack_top, arg_lens@, img.layout.ph_count, img.ph_entry_size, img.layout.phdr),
        r.1.arg_addrs@.len() == arg_lens@.len(),
        forall|i: int| 0 <= i < arg_lens@.len() ==> r.1.arg_addrs@[i] == arg_pos(img.user_stack_top, arg_lens@, i),
        r.2.tms_utime == 0,
        r.2.tms_stime == 0,
        r.2.tms_cutime == cutime_msec,
        r.2.tms_cstime == cstime_msec,
        r.3.mmap_top == crate::config::USER_MMAP_TOP,
        r.3.mapfd@ == Seq::<MapFdControl>::empty(),
        r.3.mapfreeblock@ == Seq::<MapFreeControl>::empty(),
{
    heap.heap_top = img.heap_top;
    heap.stack_bottom = img.user_stack_top - USER_STACK_SIZE;
    heap.max_data_addr = img.heap_top;
    let tms = Tms::new(cutime_msec, cstime_msec);
    let control = MapAreaControl::new();
    let stack = user_stack_image(img.user_stack_top, arg_lens, img.layout.ph_count, img.ph_entry_size, img.layout.phdr);
    let regs = ExecRegs { pc: img.entry_point, sp: stack.sp, tls: img.layout.tls_addr as usize };
    (regs, stack, tms, control)
}

} // verus!
