//! Allocation of thread and process ids, with reuse of released ids.
use vstd::prelude::*;

verus! {

/// What `allocate` does: hands out the last released id, or else the next
/// fresh one.
pub open spec fn alloc_effect(pre: TidAllocator, id: usize, post: TidAllocator) -> bool {
    if pre.recycled@.len() > 0 {
        id == pre.recycled@.last() && post.recycled@ == pre.recycled@.drop_last() && post.current
            == pre.current
    } else {
        id == pre.current && post.current == pre.current + 1 && post.recycled@ == pre.recycled@
    }
}

/// What `dealloc` does: puts the id on the released list.
pub open spec fn dealloc_effect(pre: TidAllocator, id: usize, post: TidAllocator) -> bool {
    post.current == pre.current && post.recycled@ == pre.recycled@.push(id)
}

/// Hands out ids `0, 1, 2, ...`, reusing released ids last-released first.
pub struct TidAllocator {
    pub current: usize,
    pub recycled: Vec<usize>,
}

/// An allocated id.
pub struct TidHandle(pub usize);

impl TidAllocator {
    /// Released ids are below the next fresh id and appear once each.
    pub open spec fn wf(&self) -> bool {
        &&& forall|i: int| 0 <= i < self.recycled@.len() ==> #[trigger] self.recycled@[i] < self.current
        &&& self.recycled@.no_duplicates()
    }

    /// The ids handed out and not released.
    pub open spec fn in_use(&self) -> Set<usize> {
        Set::new(|id: usize| id < self.current && !self.recycled@.contains(id))
    }

    pub fn new() -> (r: Self)
        ensures
            r.wf(),
            r.current == 0,
            r.recycled@ == Seq::<usize>::empty(),
            r.in_use() == Set::<usize>::empty(),
    {
        let r = TidAllocator { current: 0, recycled: Vec::new() };
        assert(r.in_use() =~= Set::<usize>::empty());
        r
    }

    /// The most recently released id, or else the next fresh one.
    pub fn allocate(&mut self) -> (r: TidHandle)
        requires
            old(self).wf(),
            old(self).recycled@.len() > 0 || old(self).current < usize::MAX,
        ensures
            final(self).wf(),
            alloc_effect(*old(self), r.0, *final(self)),
            !old(self).in_use().contains(r.0),
            final(self).in_use() == old(self).in_use().insert(r.0),
    {
        let ghost pre = self.recycled@;
        if let Some(tid) = self.recycled.pop() {
            proof {
                assert(pre == self.recycled@.push(tid));
                assert(pre[pre.len() - 1] == tid);
                assert forall|i: int| 0 <= i < self.recycled@.len() implies #[trigger] self.recycled@[i]
                    != tid by {
                    assert(pre[i] == self.recycled@[i]);
                }
                assert(pre.contains(tid));
                assert forall|x: usize| #[trigger] pre.contains(x) && x != tid implies self.recycled@.contains(x) by {
                    let j = choose|j: int| 0 <= j < pre.len() && pre[j] == x;
                    assert(self.recycled@[j] == x);
                }
                assert(self.in_use() =~= old(self).in_use().insert(tid));
            }
            TidHandle(tid)
        } else {
            self.current += 1;
            assert(self.in_use() =~= old(self).in_use().insert((self.current - 1) as usize));
            TidHandle(self.current - 1)
        }
    }

    /// Releases `tid` for reuse.
    pub fn dealloc(&mut self, tid: usize)
        requires
            old(self).wf(),
            tid < old(self).current,
            !old(self).recycled@.contains(tid),
        ensures
            final(self).wf(),
            dealloc_effect(*old(self), tid, *final(self)),
            final(self).in_use() == old(self).in_use().remove(tid),
    {
        self.recycled.push(tid);
        proof {
            let s = self.recycled@;
            assert forall|x: usize| #[trigger] s.contains(x) implies old(self).recycled@.contains(x) || x == tid by {
                let j = choose|j: int| 0 <= j < s.len() && s[j] == x;
                if j < s.len() - 1 {
                    assert(old(self).recycled@[j] == x);
                }
            }
            assert(s[s.len() - 1] == tid);
            assert forall|x: usize| old(self).recycled@.contains(x) implies #[trigger] s.contains(x) by {
                let j = choose|j: int| 0 <= j < old(self).recycled@.len() && old(self).recycled@[j] == x;
                assert(s[j] == x);
            }
            assert(self.in_use() =~= old(self).in_use().remove(tid));
        }
    }
}

/// The addresses that `set_tid_address` and `clone` record for a thread.
pub struct TidAddress {
    pub set_child_tid: Option<usize>,
    pub clear_child_tid: Option<usize>,
}

impl TidAddress {
    pub fn new() -> (r: Self)
        ensures
            r.set_child_tid is None,
            r.clear_child_tid is None,
    {
        TidAddress { set_child_tid: None, clear_child_tid: None }
    }
}

/// Process ids come from the same kind of allocator as thread ids.
pub type PidAllocator = TidAllocator;

/// An allocated process id.
pub struct PidHandle(pub usize);

/// Releasing an id and allocating again gives that id back and restores the
/// allocator to where it was.
pub proof fn lemma_dealloc_then_alloc(
    a0: TidAllocator,
    tid: usize,
    a1: TidAllocator,
    id: usize,
    a2: TidAllocator,
)
    requires
        dealloc_effect(a0, tid, a1),
        alloc_effect(a1, id, a2),
    ensures
        id == tid,
        a2.current == a0.current,
        a2.recycled@ == a0.recycled@,
{
    assert(a0.recycled@.push(tid).drop_last() =~= a0.recycled@);
}

} // verus!
