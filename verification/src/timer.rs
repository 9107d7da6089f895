//! Timers that wake sleeping tasks. They leave in the order of a max-heap
//! keyed by the negated expiry time, as long as the one on top has expired.
use vstd::prelude::*;
use crate::time::TimeSpec;
use vstd::multiset::Multiset;

verus! {

broadcast use vstd::seq_lib::group_to_multiset_ensures;

/// What a timer is for.
#[derive(Clone, Copy, Debug, PartialEq, Eq, Structural)]
pub enum TimerType {
    Futex,
    StoppedTask,
}

/// A timer: when it expires, the task it belongs to, and its kind.
pub struct TimerCondVar<W> {
    pub expire: TimeSpec,
    pub task: W,
    pub kind: TimerType,
}

/// The expiry time as one number: seconds times 10^9 plus the sub-second
/// part.
pub open spec fn key_of(e: TimeSpec) -> int {
    e.sec * 1_000_000_000 + e.usec
}

/// The heap priority of a timer: its expiry as a signed word, negated.
pub open spec fn prio_of(e: TimeSpec) -> int {
    -((key_of(e) as usize) as isize)
}

/// Whether a timer's expiry can be compared in the heap: it fits a word,
/// and as a signed word it can be negated.
pub open spec fn expire_ok(e: TimeSpec) -> bool {
    key_of(e) <= usize::MAX && ((key_of(e) as usize) as isize) != isize::MIN
}

/// Whether timer `t` leaves the heap at time `now`: it has expired, and
/// every timer in `s` that has not ranks below it.
pub open spec fn pops<W>(s: Seq<TimerCondVar<W>>, t: TimerCondVar<W>, now: usize) -> bool {
    &&& key_of(t.expire) <= now
    &&& forall|j: int|
        0 <= j < s.len() && key_of(s[j].expire) > now ==> prio_of(t.expire) > #[trigger] prio_of(s[j].expire)
}

/// The timers of `s` for which `pops(all, _, now)` is `b`, in order.
pub open spec fn timers_where<W>(all: Seq<TimerCondVar<W>>, s: Seq<TimerCondVar<W>>, now: usize, b: bool) -> Seq<
    TimerCondVar<W>,
>
    decreases s.len(),
{
    if s.len() == 0 {
        Seq::empty()
    } else if pops(all, s.last(), now) == b {
        timers_where(all, s.drop_last(), now, b).push(s.last())
    } else {
        timers_where(all, s.drop_last(), now, b)
    }
}

/// The pending timers.
pub struct TimerQueue<W> {
    pub timers: Vec<TimerCondVar<W>>,
}

impl<W> TimerQueue<W> {
    pub open spec fn wf(&self) -> bool {
        forall|i: int| 0 <= i < self.timers@.len() ==> expire_ok(#[trigger] self.timers@[i].expire)
    }

    pub fn new() -> (r: Self)
        ensures
            r.wf(),
            r.timers@.len() == 0,
    {
        TimerQueue { timers: Vec::new() }
    }

    /// Adds a timer that wakes `task` from a futex wait at `expire`.
    pub fn add_futex_timer(&mut self, expire: TimeSpec, task: W)
        requires
            old(self).wf(),
            expire_ok(expire),
        ensures
            final(self).wf(),
            final(self).timers@ == old(self).timers@.push(TimerCondVar { expire, task, kind: TimerType::Futex }),
    {
        self.timers.push(TimerCondVar { expire, task, kind: TimerType::Futex });
    }

    /// Adds a timer for a stopped task at `expire`.
    pub fn add_stopped_task_timer(&mut self, expire: TimeSpec, task: W)
        requires
            old(self).wf(),
            expire_ok(expire),
        ensures
            final(self).wf(),
            final(self).timers@ == old(self).timers@.push(
                TimerCondVar { expire, task, kind: TimerType::StoppedTask },
            ),
    {
        self.timers.push(TimerCondVar { expire, task, kind: TimerType::StoppedTask });
    }
}

/// The heap priority of an expiry, computed.
fn prio(e: &TimeSpec) -> (r: i128)
    requires
        expire_ok(*e),
    ensures
        r == prio_of(*e),
{
    let k = e.sec * 1000000000 + e.usec;
    let s = k as isize;
    -(s as i128)
}

impl<W> TimerQueue<W> {
    /// Takes out, at time `now`, the timers that leave the heap: the
    /// expired ones that rank above every timer not yet expired. They come
    /// in heap order, highest priority (earliest expiry) first; for each,
    /// the caller wakes the task of a futex timer.
    pub fn check_futex_timer(&mut self, now: usize) -> (r: Vec<TimerCondVar<W>>)
        requires
            old(self).wf(),
        ensures
            final(self).wf(),
            final(self).timers@ == timers_where(old(self).timers@, old(self).timers@, now, false),
            r@.to_multiset() == timers_where(old(self).timers@, old(self).timers@, now, true).to_multiset(),
            forall|i: int, j: int| 0 <= i < j < r@.len() ==> prio_of(r@[i].expire) >= prio_of(r@[j].expire),
            forall|i: int|
                0 <= i < r@.len() ==> (#[trigger] r@[i]).expire.sec * 1_000_000_000 + r@[i].expire.usec <= now,
            forall|i: int, j: int|
                0 <= i < j < r@.len() && r@[i].expire.sec * 1_000_000_000 + r@[i].expire.usec <= isize::MAX
                    && r@[j].expire.sec * 1_000_000_000 + r@[j].expire.usec <= isize::MAX ==> r@[i].expire.sec * 1_000_000_000 + r@[i].expire.usec <= r@[j].expire.sec
                    * 1_000_000_000 + r@[j].expire.usec,
    {
        let ghost all = self.timers@;
        // the highest priority among the timers that have not expired
        let mut top_blocked: Option<i128> = None;
        let mut i: usize = 0;
        while i < self.timers.len()
            invariant
                0 <= i <= self.timers@.len(),
                self.timers@ == all,
                forall|q: int| 0 <= q < all.len() ==> expire_ok(#[trigger] all[q].expire),
                match top_blocked {
                    None => forall|j: int| 0 <= j < i ==> key_of(#[trigger] all[j].expire) <= now,
                    Some(p) => (exists|j: int| 0 <= j < i && key_of(all[j].expire) > now && p == #[trigger] prio_of(all[j].expire))
                        && forall|j: int| 0 <= j < i && key_of(all[j].expire) > now ==> #[trigger] prio_of(all[j].expire) <= p,
                },
            decreases self.timers@.len() - i,
        {
            proof {
                assert(expire_ok(all[i as int].expire));
            }
            let e = &self.timers[i].expire;
            if e.sec * 1000000000 + e.usec > now {
                let p = prio(e);
                match top_blocked {
                    None => {
                        top_blocked = Some(p);
                    },
                    Some(q) => {
                        if p > q {
                            top_blocked = Some(p);
                        }
                    },
                }
            }
            i = i + 1;
        }
        // split, keeping order
        let mut rest: Vec<TimerCondVar<W>> = Vec::new();
        std::mem::swap(&mut self.timers, &mut rest);
        let mut kept: Vec<TimerCondVar<W>> = Vec::new();
        let mut due: Vec<TimerCondVar<W>> = Vec::new();
        let ghost mut n: int = 0;
        while rest.len() > 0
            invariant
                0 <= n <= all.len(),
                rest@ == all.skip(n),
                forall|q: int| 0 <= q < all.len() ==> expire_ok(#[trigger] all[q].expire),
                match top_blocked {
                    None => forall|j: int| 0 <= j < all.len() ==> key_of(#[trigger] all[j].expire) <= now,
                    Some(p) => (exists|j: int| 0 <= j < all.len() && key_of(all[j].expire) > now && p == #[trigger] prio_of(all[j].expire))
                        && forall|j: int| 0 <= j < all.len() && key_of(all[j].expire) > now ==> #[trigger] prio_of(all[j].expire) <= p,
                },
                kept@ == timers_where(all, all.take(n), now, false),
                due@ == timers_where(all, all.take(n), now, true),
            decreases rest@.len(),
        {
            let t = rest.remove(0);
            proof {
                assert(t == all[n]);
                let tk = all.take(n + 1);
                assert(tk.drop_last() =~= all.take(n));
                assert(tk.last() == all[n]);
                assert(rest@ =~= all.skip(n + 1));
                assert(expire_ok(t.expire));
            }
            let expired = !(t.expire.sec * 1000000000 + t.expire.usec > now);
            let above = match top_blocked {
                None => true,
                Some(p) => prio(&t.expire) > p,
            };
            proof {
                if expired {
                    match top_blocked {
                        None => {
                            assert(pops(all, t, now));
                        },
                        Some(p) => {
                            if above {
                                assert(pops(all, t, now));
                            } else {
                                let j = choose|j: int| 0 <= j < all.len() && key_of(all[j].expire) > now && p == #[trigger] prio_of(all[j].expire);
                                assert(!(prio_of(t.expire) > prio_of(all[j].expire)));
                                assert(!pops(all, t, now));
                            }
                        },
                    }
                } else {
                    assert(!pops(all, t, now));
                }
            }
            if expired && above {
                due.push(t);
            } else {
                kept.push(t);
            }
            proof {
                n = n + 1;
            }
        }
        proof {
            assert(all.take(n) =~= all);
        }
        self.timers = kept;
        proof {
            lemma_timers_where_ok(all, all, now, false);
            lemma_timers_where_ok(all, all, now, true);
        }
        // order the due timers by priority, highest first
        let ghost due0 = due@;
        let mut out: Vec<TimerCondVar<W>> = Vec::new();
        while due.len() > 0
            invariant
                forall|q: int| 0 <= q < due@.len() ==> expire_ok(#[trigger] due@[q].expire),
                out@.to_multiset().add(due@.to_multiset()) == due0.to_multiset(),
                forall|a: int, b: int| 0 <= a < b < out@.len() ==> prio_of(out@[a].expire) >= prio_of(out@[b].expire),
                forall|a: int, b: int| 0 <= a < out@.len() && 0 <= b < due@.len() ==> prio_of(out@[a].expire) >= prio_of(due@[b].expire),
            decreases due@.len(),
        {
            let mut best: usize = 0;
            let mut j: usize = 1;
            proof {
                assert(expire_ok(due@[0].expire));
            }
            let mut best_p = prio(&due[0].expire);
            while j < due.len()
                invariant
                    0 <= best < j <= due@.len(),
                    forall|q: int| 0 <= q < due@.len() ==> expire_ok(#[trigger] due@[q].expire),
                    best_p == prio_of(due@[best as int].expire),
                    forall|q: int| 0 <= q < j ==> prio_of(due@[q].expire) <= best_p,
                decreases due@.len() - j,
            {
                proof {
                    assert(expire_ok(due@[j as int].expire));
                }
                let p = prio(&due[j].expire);
                if p > best_p {
                    best = j;
                    best_p = p;
                }
                j = j + 1;
            }
            let ghost d = due@;
            let t = due.remove(best);
            proof {
                assert(d.remove(best as int).to_multiset() =~= d.to_multiset().remove(d[best as int]));
                assert forall|q: int| 0 <= q < due@.len() implies expire_ok(#[trigger] due@[q].expire) by {
                    if q < best {
                        assert(due@[q] == d[q]);
                    } else {
                        assert(due@[q] == d[q + 1]);
                    }
                }
                assert forall|b: int| 0 <= b < due@.len() implies prio_of(t.expire) >= prio_of(due@[b].expire) by {
                    if b < best {
                        assert(due@[b] == d[b]);
                    } else {
                        assert(due@[b] == d[b + 1]);
                    }
                }
                assert forall|a: int, b: int| 0 <= a < out@.len() && 0 <= b < due@.len() implies prio_of(out@[a].expire) >= prio_of(due@[b].expire) by {
                    if b < best {
                        assert(due@[b] == d[b]);
                    } else {
                        assert(due@[b] == d[b + 1]);
                    }
                }
            }
            let ghost o = out@;
            out.push(t);
            proof {
                assert(out@.to_multiset() =~= o.to_multiset().insert(t));
                assert(out@.to_multiset().add(due@.to_multiset()) =~= due0.to_multiset());
            }
        }
        proof {
            assert(due@.to_multiset() =~= Multiset::empty());
            assert(out@.to_multiset() =~= out@.to_multiset().add(due@.to_multiset()));
            let tw = timers_where(all, all, now, true);
            assert(out@.to_multiset() == tw.to_multiset());
            lemma_popped_have_expired(all, all, now);
            assert forall|i: int| 0 <= i < out@.len() implies (#[trigger] out@[i]).expire.sec * 1_000_000_000
                + out@[i].expire.usec <= now by {
                broadcast use vstd::seq_lib::group_to_multiset_ensures;
                let x = out@[i];
                assert(out@.contains(x));
                assert(tw.to_multiset().count(x) > 0);
                assert(tw.contains(x));
                let k = choose|k: int| 0 <= k < tw.len() && tw[k] == x;
                assert(tw[k].expire.sec * 1_000_000_000 + tw[k].expire.usec <= now);
            }
            assert forall|i: int, j: int|
                0 <= i < j < out@.len() && out@[i].expire.sec * 1_000_000_000 + out@[i].expire.usec <= isize::MAX
                    && out@[j].expire.sec * 1_000_000_000 + out@[j].expire.usec <= isize::MAX implies out@[i].expire.sec * 1_000_000_000 + out@[i].expire.usec <= out@[j].expire.sec
                    * 1_000_000_000 + out@[j].expire.usec by {
                assert(prio_of(out@[i].expire) >= prio_of(out@[j].expire));
                let ki = key_of(out@[i].expire);
                let kj = key_of(out@[j].expire);
                assert(((ki as usize) as isize) == ki);
                assert(((kj as usize) as isize) == kj);
            }
        }
        out
    }
}

/// The timers that leave the heap at `now` have all reached their
/// deadline: seconds times 10^9 plus the sub-second part is at most `now`.
pub proof fn lemma_popped_have_expired<W>(all: Seq<TimerCondVar<W>>, s: Seq<TimerCondVar<W>>, now: usize)
    ensures
        forall|q: int|
            0 <= q < timers_where(all, s, now, true).len() ==> (#[trigger] timers_where(all, s, now, true)[q]).expire.sec
                * 1_000_000_000 + timers_where(all, s, now, true)[q].expire.usec <= now,
    decreases s.len(),
{
    if s.len() > 0 {
        let d = s.drop_last();
        lemma_popped_have_expired(all, d, now);
        let w = timers_where(all, s, now, true);
        let sub = timers_where(all, d, now, true);
        assert forall|q: int| 0 <= q < w.len() implies (#[trigger] w[q]).expire.sec * 1_000_000_000 + w[q].expire.usec <= now by {
            if q < sub.len() {
                assert(w[q] == sub[q]);
            } else {
                assert(w[q] == s.last());
            }
        }
    }
}

/// The timers picked out of timers with comparable expiries are comparable.
proof fn lemma_timers_where_ok<W>(all: Seq<TimerCondVar<W>>, s: Seq<TimerCondVar<W>>, now: usize, b: bool)
    requires
        forall|q: int| 0 <= q < s.len() ==> expire_ok(#[trigger] s[q].expire),
    ensures
        forall|q: int|
            0 <= q < timers_where(all, s, now, b).len() ==> expire_ok(
                #[trigger] timers_where(all, s, now, b)[q].expire,
            ),
    decreases s.len(),
{
    if s.len() > 0 {
        let d = s.drop_last();
        assert forall|q: int| 0 <= q < d.len() implies expire_ok(#[trigger] d[q].expire) by {
            assert(d[q] == s[q]);
        }
        lemma_timers_where_ok(all, d, now, b);
        assert(s.last() == s[s.len() - 1]);
        let w = timers_where(all, s, now, b);
        let sub = timers_where(all, d, now, b);
        assert forall|q: int| 0 <= q < w.len() implies expire_ok(#[trigger] w[q].expire) by {
            if q < sub.len() {
                assert(w[q] == sub[q]);
            } else {
                assert(w[q] == s.last());
            }
        }
    }
}

} // verus!
