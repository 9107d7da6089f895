//! Reaching user memory from the kernel: which pages a user buffer
//! touches, and what a page needs before the kernel may write to it.
use vstd::prelude::*;
use crate::addr::{VirtPage, PAGE_SIZE};
use crate::pagetable::{MappingFlags, MF_COW, MF_P};

verus! {

/// The pages that the bytes `start .. start + len` lie in, in order.
pub fn touched_pages(start: usize, len: usize) -> (r: Vec<VirtPage>)
    requires
        len == 0 || start + len <= usize::MAX - PAGE_SIZE + 1,
    ensures
        len == 0 ==> r@.len() == 0,
        len > 0 ==> r@.len() == (start + len + PAGE_SIZE - 1) / PAGE_SIZE as int - (start / PAGE_SIZE) as int,
        forall|i: int| 0 <= i < r@.len() ==> (#[trigger] r@[i]).0 == start / PAGE_SIZE + i,
{
    let end = start + len;
    let mut pages: Vec<VirtPage> = Vec::new();
    let mut s = start;
    let first = start / PAGE_SIZE;
    while s < end
        invariant
            start <= s,
            s <= end || s == start,
            end == start + len,
            len == 0 || end <= usize::MAX - PAGE_SIZE + 1,
            first == start / PAGE_SIZE,
            s < end ==> s / PAGE_SIZE == first + pages@.len(),
            s >= end && len > 0 ==> pages@.len() == (end + PAGE_SIZE - 1) / PAGE_SIZE as int - first,
            len == 0 ==> pages@.len() == 0,
            pages@.len() > 0 ==> s >= start,
            forall|i: int| 0 <= i < pages@.len() ==> (#[trigger] pages@[i]).0 == first + i,
        decreases end - s,
    {
        let vpn = s / PAGE_SIZE;
        pages.push(VirtPage::new(vpn));
        assert(vpn * PAGE_SIZE <= s < vpn * PAGE_SIZE + PAGE_SIZE) by (nonlinear_arith)
            requires
                vpn == s / PAGE_SIZE,
        ;
        let next = vpn * PAGE_SIZE + PAGE_SIZE;
        let old_s = s;
        s = if next < end {
            next
        } else {
            end
        };
        proof {
            if s < end {
                assert(s / PAGE_SIZE == vpn + 1) by (nonlinear_arith)
                    requires
                        s == vpn * PAGE_SIZE + PAGE_SIZE,
                ;
            } else {
                assert((end + PAGE_SIZE - 1) / PAGE_SIZE as int == vpn + 1) by (nonlinear_arith)
                    requires
                        vpn * PAGE_SIZE <= old_s,
                        old_s < end,
                        end <= vpn * PAGE_SIZE + PAGE_SIZE,
                ;
            }
        }
    }
    pages
}

/// What a page needs before the kernel writes through it: made present
/// by the lazy-fault path (falling back to the copy-on-write path when
/// that fails), and copied by the copy-on-write path.
#[derive(Clone, Copy, Debug, PartialEq, Eq, Structural)]
pub struct FaultPlan {
    pub lazy: bool,
    pub cow: bool,
}

/// The plan for a page that translates to `translation` (its physical
/// address and flags, if mapped): a page not mapped, mapped to address 0,
/// or not present goes through the lazy path; a present shared page at a
/// nonzero address is copied.
pub fn fault_plan(translation: Option<(usize, MappingFlags)>) -> (r: FaultPlan)
    ensures
        translation is None ==> r == (FaultPlan { lazy: true, cow: false }),
        translation matches Some((pa, mp)) ==> r == (FaultPlan {
            lazy: pa == 0 || !mp.has(MF_P),
            cow: mp.has(MF_COW) && pa != 0,
        }),
{
    match translation {
        None => FaultPlan { lazy: true, cow: false },
        Some((pa, mp)) => FaultPlan {
            lazy: pa == 0 || !mp.contains(MappingFlags::P()),
            cow: mp.contains(MappingFlags::cow()) && pa != 0,
        },
    }
}

} // verus!
