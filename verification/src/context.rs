//! The saved kernel context of a task.
use vstd::prelude::*;

verus! {

/// Registers that a context switch saves: return address, stack pointer,
/// and the callee-saved registers s0 to s11.
pub struct TaskContext {
    pub ra: usize,
    pub sp: usize,
    pub s: [usize; 12],
}

impl TaskContext {
    /// All registers zero.
    pub fn zero_init() -> (r: Self)
        ensures
            r.ra == 0,
            r.sp == 0,
            forall|i: int| 0 <= i < 12 ==> r.s@[i] == 0,
    {
        TaskContext { ra: 0, sp: 0, s: [0usize; 12] }
    }

    /// A context that returns to `trap_return` (the address of the trap-return
    /// routine) on the kernel stack `kstack_ptr`.
    pub fn goto_trap_return(kstack_ptr: usize, trap_return: usize) -> (r: Self)
        ensures
            r.ra == trap_return,
            r.sp == kstack_ptr,
            forall|i: int| 0 <= i < 12 ==> r.s@[i] == 0,
    {
        TaskContext { ra: trap_return, sp: kstack_ptr, s: [0usize; 12] }
    }
}

} // verus!
