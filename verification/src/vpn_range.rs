//! Ranges of virtual pages and their iteration.
use vstd::prelude::*;
use crate::addr::{VirtAddr, VirtPage};

verus! {

/// The pages `l .. r` of an area, with the exact byte bounds it was made from.
#[derive(Copy, Clone, Debug)]
pub struct VPNRange {
    pub l: VirtPage,
    pub r: VirtPage,
    pub start: VirtAddr,
    pub end: VirtAddr,
}

impl VPNRange {
    pub fn new(start: VirtPage, end: VirtPage, start_addr: VirtAddr, end_addr: VirtAddr) -> (r: Self)
        requires
            start.0 <= end.0,
        ensures
            r.l == start,
            r.r == end,
            r.start == start_addr,
            r.end == end_addr,
    {
        VPNRange { l: start, r: end, start: start_addr, end: end_addr }
    }

    pub fn get_start(&self) -> (r: VirtPage)
        ensures
            r == self.l,
    {
        self.l
    }

    pub fn get_end(&self) -> (r: VirtPage)
        ensures
            r == self.r,
    {
        self.r
    }

    pub fn get_start_addr(&self) -> (r: VirtAddr)
        ensures
            r == self.start,
    {
        self.start
    }

    pub fn get_end_addr(&self) -> (r: VirtAddr)
        ensures
            r == self.end,
    {
        self.end
    }

    /// The pages of the range in order, as walking its iterator to the end
    /// gives them: `l, l + 1, ..., r - 1`.
    pub fn pages(&self) -> (ps: Vec<VirtPage>)
        requires
            self.l.0 <= self.r.0,
        ensures
            ps@ == Seq::new((self.r.0 - self.l.0) as nat, |i: int| VirtPage((self.l.0 + i) as usize)),
    {
        let mut it = self.into_iter();
        let mut ps: Vec<VirtPage> = Vec::new();
        let ghost all = it.remaining();
        while it.current.0 != it.end.0
            invariant
                it.end == self.r,
                self.l.0 <= it.current.0 <= it.end.0,
                all == Seq::new((self.r.0 - self.l.0) as nat, |i: int| VirtPage((self.l.0 + i) as usize)),
                ps@ == all.take(it.current.0 - self.l.0),
                it.remaining() == all.skip(it.current.0 - self.l.0),
            decreases it.end.0 - it.current.0,
        {
            let ghost k = it.current.0 - self.l.0;
            match it.next() {
                Some(p) => {
                    assert(all.take(k + 1) =~= all.take(k).push(all[k]));
                    ps.push(p);
                },
                None => {},
            }
        }
        assert(all.take(all.len() as int) =~= all);
        ps
    }

    /// An iterator over the pages of the range.
    pub fn into_iter(self) -> (r: SimpleRangeIterator)
        ensures
            r.current == self.l,
            r.end == self.r,
    {
        SimpleRangeIterator::new(self.l, self.r)
    }
}

/// Walks the pages from `current` up to, not including, `end`.
pub struct SimpleRangeIterator {
    pub current: VirtPage,
    pub end: VirtPage,
}

impl SimpleRangeIterator {
    pub fn new(l: VirtPage, r: VirtPage) -> (it: Self)
        ensures
            it.current == l,
            it.end == r,
    {
        SimpleRangeIterator { current: l, end: r }
    }

    /// The pages still to come, for an iterator that has not passed its end.
    pub open spec fn remaining(&self) -> Seq<VirtPage> {
        Seq::new((self.end.0 - self.current.0) as nat, |i: int| VirtPage((self.current.0 + i) as usize))
    }

    /// The next page, or `None` at the end.
    pub fn next(&mut self) -> (r: Option<VirtPage>)
        requires
            old(self).current.0 != old(self).end.0 ==> old(self).current.0 < usize::MAX,
        ensures
            final(self).end == old(self).end,
            old(self).current == old(self).end ==> r is None && *final(self) == *old(self),
            old(self).current != old(self).end ==> r == Some(old(self).current) && final(self).current.0
                == old(self).current.0 + 1,
            old(self).current.0 <= old(self).end.0 ==> match r {
                None => old(self).remaining().len() == 0,
                Some(p) => old(self).remaining().len() > 0 && p == old(self).remaining()[0]
                    && final(self).remaining() == old(self).remaining().drop_first(),
            },
    {
        if self.current.0 == self.end.0 {
            None
        } else {
            let t = self.current;
            self.current = VirtPage(self.current.0 + 1);
            proof {
                if old(self).current.0 <= old(self).end.0 {
                    assert(self.remaining() =~= old(self).remaining().drop_first());
                }
            }
            Some(t)
        }
    }
}

} // verus!
