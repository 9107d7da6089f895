//! Futex wait queues: per key, the waiters in the order they came. Whether
//! a waiter still lives is the caller's to tell; the queues decide who is
//! woken and who moves.
use vstd::prelude::*;
use crate::map_area::{first_from, first_index, lemma_first_from};

verus! {

/// A futex: the physical address of its word, and the process it is
/// private to (0 when shared).
#[derive(Clone, Copy, Debug, PartialEq, Eq, Structural)]
pub struct FutexKey {
    pub paddr: usize,
    pub pid: usize,
}

impl FutexKey {
    pub fn new(paddr: usize, pid: usize) -> (r: Self)
        ensures
            r.paddr == paddr,
            r.pid == pid,
    {
        FutexKey { paddr, pid }
    }
}

/// The waiters of `ws` whose entry in `alive` is true, in order.
pub open spec fn alive_only<W>(ws: Seq<W>, alive: Seq<bool>) -> Seq<W>
    decreases ws.len(),
{
    if ws.len() == 0 {
        Seq::empty()
    } else {
        let rest = alive_only(ws.drop_last(), alive.take(ws.len() - 1));
        if alive[ws.len() - 1] {
            rest.push(ws.last())
        } else {
            rest
        }
    }
}

/// How many waiters a wake-up of at most `max` pops from the front of a
/// queue whose waiters live as `alive` says: it stops when `max` live ones
/// were woken or the queue is empty; dead ones are popped and not counted.
pub open spec fn pop_count(alive: Seq<bool>, max: int) -> int
    decreases alive.len(),
{
    if max <= 0 || alive.len() == 0 {
        0
    } else {
        1 + pop_count(alive.drop_first(), if alive[0] { max - 1 } else { max })
    }
}

/// How many of the flags are true.
pub open spec fn count_true(a: Seq<bool>) -> int
    decreases a.len(),
{
    if a.len() == 0 {
        0
    } else {
        count_true(a.drop_last()) + if a.last() { 1int } else { 0int }
    }
}

proof fn lemma_count_true_front(a: Seq<bool>)
    requires
        a.len() > 0,
    ensures
        count_true(a) == count_true(a.drop_first()) + if a[0] { 1int } else { 0int },
    decreases a.len(),
{
    if a.len() > 1 {
        lemma_count_true_front(a.drop_last());
        assert(a.drop_last().drop_first() =~= a.drop_first().drop_last());
        assert(a.drop_first().last() == a.last());
        assert(a.drop_last()[0] == a[0]);
    } else {
        assert(a.drop_first().len() == 0);
        assert(a.drop_last().len() == 0);
        assert(a.last() == a[0]);
        assert(count_true(a.drop_first()) == 0);
        assert(count_true(a.drop_last()) == 0);
    }
}

proof fn lemma_count_true_bounds(a: Seq<bool>)
    ensures
        0 <= count_true(a) <= a.len(),
    decreases a.len(),
{
    if a.len() > 0 {
        lemma_count_true_bounds(a.drop_last());
    }
}

/// A wake-up of at most `max` waiters wakes `max` live ones, or every live
/// one when fewer live: among the waiters it takes off the queue, the live
/// ones number the smaller of `max` and all the live ones; and when it
/// leaves waiters behind, it stopped right after its `max`-th live one.
pub proof fn lemma_wake_takes_max_live(alive: Seq<bool>, max: int)
    requires
        max >= 0,
    ensures
        ({
            let p = pop_count(alive, max);
            &&& 0 <= p <= alive.len()
            &&& count_true(alive.take(p)) == if max < count_true(alive) { max } else { count_true(alive) }
            &&& p < alive.len() ==> count_true(alive.take(p)) == max && (p == 0 || alive[p - 1])
        }),
    decreases alive.len(),
{
    let p = pop_count(alive, max);
    lemma_count_true_bounds(alive);
    if max == 0 || alive.len() == 0 {
        assert(alive.take(0) =~= Seq::<bool>::empty());
    } else {
        let rest = alive.drop_first();
        let m2 = if alive[0] { max - 1 } else { max };
        lemma_wake_takes_max_live(rest, m2);
        let p2 = pop_count(rest, m2);
        assert(p == 1 + p2);
        lemma_count_true_front(alive);
        lemma_count_true_front(alive.take(p));
        assert(alive.take(p).drop_first() =~= rest.take(p2));
        if p < alive.len() && p2 == 0 {
            assert(m2 == 0);
            assert(alive[0]);
        }
        if p2 > 0 {
            assert(alive[p - 1] == rest[p2 - 1]);
        }
    }
}

/// The live waiters among `ws`, in order, number as many as the true flags.
pub proof fn lemma_alive_only_len<W>(ws: Seq<W>, alive: Seq<bool>)
    requires
        ws.len() == alive.len(),
    ensures
        alive_only(ws, alive).len() == count_true(alive),
    decreases ws.len(),
{
    if ws.len() > 0 {
        assert(alive.take(ws.len() - 1) =~= alive.drop_last());
        lemma_alive_only_len(ws.drop_last(), alive.take(ws.len() - 1));
    }
}

/// `x` held between 0 and `hi`.
pub open spec fn clamp(x: int, hi: int) -> int {
    if x < 0 {
        0
    } else if x > hi {
        hi
    } else {
        x
    }
}

/// The bucket of `key`.
pub open spec fn has_key<W>(key: FutexKey) -> spec_fn((FutexKey, Vec<W>)) -> bool {
    |b: (FutexKey, Vec<W>)| b.0 == key
}

/// The wait queues, one bucket per key.
pub struct FutexQueues<W> {
    pub buckets: Vec<(FutexKey, Vec<W>)>,
}

/// No key has two buckets.
pub open spec fn keys_unique<W>(b: Seq<(FutexKey, Vec<W>)>) -> bool {
    forall|i: int, j: int| 0 <= i < j < b.len() ==> b[i].0 != b[j].0
}

/// In buckets with distinct keys, the bucket of `key` is the one that has it.
proof fn lemma_bucket_index<W>(b: Seq<(FutexKey, Vec<W>)>, key: FutexKey, i: int)
    requires
        keys_unique(b),
        0 <= i < b.len(),
        b[i].0 == key,
    ensures
        first_index(b, has_key::<W>(key)) == Some(i),
{
    lemma_first_from(b, has_key::<W>(key), 0);
    match first_index(b, has_key::<W>(key)) {
        Some(j) => {
            if j < i {
                assert(b[j].0 == key);
            } else if i < j {
                assert(!has_key::<W>(key)(b[i]));
            }
        },
        None => {
            assert(!has_key::<W>(key)(b[i]));
        },
    }
}

impl<W> FutexQueues<W> {
    pub open spec fn wf(&self) -> bool {
        keys_unique(self.buckets@)
    }

    /// The waiters on `key`, first come first.
    pub open spec fn queue(&self, key: FutexKey) -> Seq<W> {
        match first_index(self.buckets@, has_key::<W>(key)) {
            Some(i) => self.buckets@[i].1@,
            None => Seq::empty(),
        }
    }

    pub fn new() -> (r: Self)
        ensures
            r.wf(),
            forall|k: FutexKey| r.queue(k) == Seq::<W>::empty(),
    {
        FutexQueues { buckets: Vec::new() }
    }

    /// The position of the bucket of `key`.
    fn find(&self, key: FutexKey) -> (r: Option<usize>)
        requires
            self.wf(),
        ensures
            match r {
                Some(i) => i < self.buckets@.len() && self.buckets@[i as int].0 == key && first_index(
                    self.buckets@,
                    has_key::<W>(key),
                ) == Some(i as int),
                None => first_index(self.buckets@, has_key::<W>(key)) is None,
            },
    {
        let mut i: usize = 0;
        while i < self.buckets.len()
            invariant
                keys_unique(self.buckets@),
                0 <= i <= self.buckets@.len(),
                forall|j: int| 0 <= j < i ==> self.buckets@[j].0 != key,
            decreases self.buckets@.len() - i,
        {
            if self.buckets[i].0 == key {
                proof {
                    lemma_bucket_index(self.buckets@, key, i as int);
                }
                return Some(i);
            }
            i = i + 1;
        }
        proof {
            lemma_first_from(self.buckets@, has_key::<W>(key), 0);
            if let Some(j) = first_index(self.buckets@, has_key::<W>(key)) {
                assert(self.buckets@[j].0 == key);
            }
        }
        None
    }

    /// Putting a new queue in bucket `i` keeps the keys and their places.
    proof fn lemma_replace(b: Seq<(FutexKey, Vec<W>)>, i: int, q: Vec<W>)
        requires
            keys_unique(b),
            0 <= i < b.len(),
        ensures
            keys_unique(b.update(i, (b[i].0, q))),
            first_index(b.update(i, (b[i].0, q)), has_key::<W>(b[i].0)) == Some(i),
    {
        let nb = b.update(i, (b[i].0, q));
        lemma_bucket_index(nb, b[i].0, i);
    }

    /// Putting a new queue in bucket `i` leaves the bucket of another key.
    proof fn lemma_replace_other(b: Seq<(FutexKey, Vec<W>)>, i: int, q: Vec<W>, other: FutexKey)
        requires
            keys_unique(b),
            0 <= i < b.len(),
            other != b[i].0,
        ensures
            first_index(b.update(i, (b[i].0, q)), has_key::<W>(other)) == first_index(b, has_key::<W>(other)),
    {
        let nb = b.update(i, (b[i].0, q));
        Self::lemma_replace(b, i, q);
        lemma_first_from(b, has_key::<W>(other), 0);
        lemma_first_from(nb, has_key::<W>(other), 0);
        match first_index(b, has_key::<W>(other)) {
            Some(j) => {
                lemma_bucket_index(nb, other, j);
            },
            None => {
                if let Some(j) = first_index(nb, has_key::<W>(other)) {
                    assert(nb[j].0 == other);
                    assert(b[j].0 == other);
                }
            },
        }
    }

    /// Adds `w` at the end of the queue of `key`.
    pub fn wait(&mut self, key: FutexKey, w: W)
        requires
            old(self).wf(),
        ensures
            final(self).wf(),
            final(self).queue(key) == old(self).queue(key).push(w),
            forall|k: FutexKey| k != key ==> #[trigger] final(self).queue(k) == old(self).queue(k),
    {
        match self.find(key) {
            Some(i) => {
                let ghost b = self.buckets@;
                let (k, mut q) = self.buckets.remove(i);
                q.push(w);
                self.buckets.insert(i, (k, q));
                proof {
                    assert(self.buckets@ =~= b.update(i as int, (key, q)));
                    assert forall|o: FutexKey| o != key implies #[trigger] self.queue(o) == old(self).queue(o) by {
                        Self::lemma_replace_other(b, i as int, q, o);
                        lemma_first_from(b, has_key::<W>(o), 0);
                    }
                    Self::lemma_replace(b, i as int, q);
                }
            },
            None => {
                let ghost b = self.buckets@;
                let mut q: Vec<W> = Vec::new();
                q.push(w);
                self.buckets.push((key, q));
                proof {
                    let nb = self.buckets@;
                    assert forall|x: int, y: int| 0 <= x < y < nb.len() implies nb[x].0 != nb[y].0 by {
                        if y == nb.len() - 1 {
                            lemma_first_from(b, has_key::<W>(key), 0);
                            assert(!has_key::<W>(key)(b[x]));
                        }
                    }
                    lemma_bucket_index(nb, key, nb.len() - 1);
                    assert(q@ =~= Seq::<W>::empty().push(w));
                    assert forall|o: FutexKey| o != key implies #[trigger] self.queue(o) == old(self).queue(o) by {
                        lemma_first_from(b, has_key::<W>(o), 0);
                        match first_index(b, has_key::<W>(o)) {
                            Some(j) => {
                                lemma_bucket_index(nb, o, j);
                            },
                            None => {
                                lemma_first_from(nb, has_key::<W>(o), 0);
                                if let Some(j) = first_index(nb, has_key::<W>(o)) {
                                    assert(nb[j].0 == o);
                                }
                            },
                        }
                    }
                }
            },
        }
    }
}

/// Stepping the wake-up count over one more waiter.
proof fn lemma_pop_count_step(alive: Seq<bool>, idx: int, max: int, num: int)
    requires
        0 <= idx < alive.len(),
        num < max,
    ensures
        pop_count(alive.skip(idx), max - num) == 1 + pop_count(
            alive.skip(idx + 1),
            if alive[idx] { max - num - 1 } else { max - num },
        ),
{
    assert(alive.skip(idx).drop_first() =~= alive.skip(idx + 1));
}

/// Extending the live waiters of a prefix by one more waiter.
proof fn lemma_alive_only_step<W>(ws: Seq<W>, alive: Seq<bool>, idx: int)
    requires
        0 <= idx < ws.len(),
        ws.len() == alive.len(),
    ensures
        alive_only(ws.take(idx + 1), alive.take(idx + 1)) == if alive[idx] {
            alive_only(ws.take(idx), alive.take(idx)).push(ws[idx])
        } else {
            alive_only(ws.take(idx), alive.take(idx))
        },
{
    assert(ws.take(idx + 1).drop_last() =~= ws.take(idx));
    assert(alive.take(idx + 1).take(idx) =~= alive.take(idx));
}

impl<W> FutexQueues<W> {
    /// Wakes at most `max` live waiters of `key` from the front of its
    /// queue, where `alive[i]` tells whether waiter `i` still lives; dead
    /// waiters met on the way leave the queue uncounted. Returns the woken
    /// waiters in order; their number is what the call reports.
    pub fn wake(&mut self, key: FutexKey, max: usize, alive: &Vec<bool>) -> (woken: Vec<W>)
        requires
            old(self).wf(),
            alive@.len() == old(self).queue(key).len(),
        ensures
            final(self).wf(),
            ({
                let q = old(self).queue(key);
                let p = pop_count(alive@, max as int);
                &&& 0 <= p <= q.len()
                &&& woken@ == alive_only(q.take(p), alive@.take(p))
                &&& final(self).queue(key) == q.skip(p)
            }),
            woken@.len() == if max < count_true(alive@) { max as int } else { count_true(alive@) },
            forall|k: FutexKey| k != key ==> #[trigger] final(self).queue(k) == old(self).queue(k),
    {
        proof {
            let q = old(self).queue(key);
            let p = pop_count(alive@, max as int);
            lemma_wake_takes_max_live(alive@, max as int);
            lemma_alive_only_len(q.take(p), alive@.take(p));
        }
        let mut woken: Vec<W> = Vec::new();
        match self.find(key) {
            None => {
                proof {
                    assert(alive@.len() == 0);
                    assert(woken@ =~= alive_only(Seq::<W>::empty().take(0), alive@.take(0)));
                }
                woken
            },
            Some(i) => {
                let ghost b = self.buckets@;
                let (k, mut q) = self.buckets.remove(i);
                let ghost q0 = q@;
                let n0 = q.len();
                assert(q0.len() == n0);
                let mut num: usize = 0;
                let mut idx: usize = 0;
                proof {
                    assert(alive@.skip(0) =~= alive@);
                    assert(q0.skip(0) =~= q0);
                    assert(woken@ =~= alive_only(q0.take(0), alive@.take(0)));
                }
                while num < max && q.len() > 0
                    invariant
                        q0.len() == alive@.len(),
                        q0.len() <= usize::MAX,
                        0 <= idx <= q0.len(),
                        q@ == q0.skip(idx as int),
                        num <= max,
                        num == woken@.len(),
                        woken@ == alive_only(q0.take(idx as int), alive@.take(idx as int)),
                        pop_count(alive@, max as int) == idx + pop_count(alive@.skip(idx as int), max - num),
                    decreases q@.len(),
                {
                    proof {
                        lemma_pop_count_step(alive@, idx as int, max as int, num as int);
                        lemma_alive_only_step(q0, alive@, idx as int);
                    }
                    let w = q.remove(0);
                    assert(w == q0[idx as int]);
                    if alive[idx] {
                        woken.push(w);
                        num = num + 1;
                    }
                    idx = idx + 1;
                    proof {
                        assert(q@ =~= q0.skip(idx as int));
                    }
                }
                proof {
                    if q.len() == 0 {
                        assert(idx == q0.len());
                        assert(alive@.skip(idx as int).len() == 0);
                    }
                }
                self.buckets.insert(i, (k, q));
                proof {
                    assert(self.buckets@ =~= b.update(i as int, (key, q)));
                    assert forall|o: FutexKey| o != key implies #[trigger] self.queue(o) == old(self).queue(o) by {
                        Self::lemma_replace_other(b, i as int, q, o);
                        lemma_first_from(b, has_key::<W>(o), 0);
                    }
                    Self::lemma_replace(b, i as int, q);
                }
                woken
            },
        }
    }
}


/// The live waiters of a prefix stay the live waiters of the whole queue
/// once the prefix is the whole queue.
proof fn lemma_alive_only_all<W>(ws: Seq<W>, alive: Seq<bool>)
    requires
        ws.len() == alive.len(),
    ensures
        alive_only(ws.take(ws.len() as int), alive.take(alive.len() as int)) == alive_only(ws, alive),
{
    assert(ws.take(ws.len() as int) =~= ws);
    assert(alive.take(alive.len() as int) =~= alive);
}

impl<W> FutexQueues<W> {
    /// Adds `items`, in order, at the end of the queue of `key`.
    pub fn append_to(&mut self, key: FutexKey, items: Vec<W>)
        requires
            old(self).wf(),
        ensures
            final(self).wf(),
            final(self).queue(key) == old(self).queue(key) + items@,
            forall|k: FutexKey| k != key ==> #[trigger] final(self).queue(k) == old(self).queue(k),
    {
        let mut items = items;
        let ghost it = items@;
        match self.find(key) {
            Some(i) => {
                let ghost b = self.buckets@;
                let (k, mut q) = self.buckets.remove(i);
                q.append(&mut items);
                self.buckets.insert(i, (k, q));
                proof {
                    assert(self.buckets@ =~= b.update(i as int, (key, q)));
                    assert forall|o: FutexKey| o != key implies #[trigger] self.queue(o) == old(self).queue(o) by {
                        Self::lemma_replace_other(b, i as int, q, o);
                        lemma_first_from(b, has_key::<W>(o), 0);
                    }
                    Self::lemma_replace(b, i as int, q);
                }
            },
            None => {
                let ghost b = self.buckets@;
                let mut q: Vec<W> = Vec::new();
                q.append(&mut items);
                self.buckets.push((key, q));
                proof {
                    let nb = self.buckets@;
                    assert forall|x: int, y: int| 0 <= x < y < nb.len() implies nb[x].0 != nb[y].0 by {
                        if y == nb.len() - 1 {
                            lemma_first_from(b, has_key::<W>(key), 0);
                            assert(!has_key::<W>(key)(b[x]));
                        }
                    }
                    lemma_bucket_index(nb, key, nb.len() - 1);
                    assert(q@ =~= Seq::<W>::empty() + it);
                    assert forall|o: FutexKey| o != key implies #[trigger] self.queue(o) == old(self).queue(o) by {
                        lemma_first_from(b, has_key::<W>(o), 0);
                        match first_index(b, has_key::<W>(o)) {
                            Some(j) => {
                                lemma_bucket_index(nb, o, j);
                            },
                            None => {
                                lemma_first_from(nb, has_key::<W>(o), 0);
                                if let Some(j) = first_index(nb, has_key::<W>(o)) {
                                    assert(nb[j].0 == o);
                                }
                            },
                        }
                    }
                }
            },
        }
    }

    /// Empties the queue of `old_key`: of its live waiters (by `alive`),
    /// in order, the first `max_num` are woken and returned, the next
    /// `max_num2` move to the end of the queue of `new_key`, and the rest,
    /// like the dead ones, are dropped.
    pub fn requeue(
        &mut self,
        old_key: FutexKey,
        max_num: i32,
        new_key: FutexKey,
        max_num2: i32,
        alive: &Vec<bool>,
    ) -> (woken: Vec<W>)
        requires
            old(self).wf(),
            alive@.len() == old(self).queue(old_key).len(),
        ensures
            final(self).wf(),
            ({
                let a = alive_only(old(self).queue(old_key), alive@);
                let w = clamp(max_num as int, a.len() as int);
                let m = clamp(max_num2 as int, a.len() - w);
                let moved = a.subrange(w, w + m);
                &&& woken@ == a.take(w)
                &&& final(self).queue(old_key) == if old_key == new_key {
                    moved
                } else {
                    Seq::<W>::empty()
                }
                &&& old_key != new_key ==> final(self).queue(new_key) == old(self).queue(new_key) + moved
            }),
            forall|k: FutexKey|
                k != old_key && k != new_key ==> #[trigger] final(self).queue(k) == old(self).queue(k),
    {
        let mut woken: Vec<W> = Vec::new();
        let mut tmp: Vec<W> = Vec::new();
        match self.find(old_key) {
            None => {
                proof {
                    assert(alive@.len() == 0);
                    assert(alive_only(Seq::<W>::empty(), alive@) =~= Seq::<W>::empty());
                    assert(woken@ =~= Seq::<W>::empty());
                }
                return woken;
            },
            Some(i) => {
                let ghost b = self.buckets@;
                let (k, mut q) = self.buckets.remove(i);
                let ghost q0 = q@;
                let n0 = q.len();
                assert(q0.len() == n0);
                let mut num: i32 = 0;
                let mut num2: i32 = 0;
                let mut idx: usize = 0;
                let ghost wcap: int = if max_num < 0 { 0 } else { max_num as int };
                let ghost mcap: int = if max_num2 < 0 { 0 } else { max_num2 as int };
                proof {
                    assert(q0.skip(0) =~= q0);
                    assert(alive_only(q0.take(0), alive@.take(0)) =~= Seq::<W>::empty());
                    assert(woken@ =~= Seq::<W>::empty());
                    assert(tmp@ =~= Seq::<W>::empty().subrange(0, 0));
                }
                while q.len() > 0
                    invariant
                        q0.len() == alive@.len(),
                        q0.len() <= usize::MAX,
                        0 <= idx <= q0.len(),
                        q@ == q0.skip(idx as int),
                        wcap == if max_num < 0 { 0 } else { max_num as int },
                        mcap == if max_num2 < 0 { 0 } else { max_num2 as int },
                        ({
                            let ai = alive_only(q0.take(idx as int), alive@.take(idx as int));
                            &&& 0 <= num
                            &&& 0 <= num2
                            &&& num == (if ai.len() < wcap { ai.len() as int } else { wcap })
                            &&& num2 == (if ai.len() - num < mcap { ai.len() - num } else { mcap })
                            &&& woken@ == ai.take(num as int)
                            &&& tmp@ == ai.subrange(num as int, num + num2)
                        }),
                    decreases q@.len(),
                {
                    proof {
                        lemma_alive_only_step(q0, alive@, idx as int);
                    }
                    let w = q.remove(0);
                    assert(w == q0[idx as int]);
                    let ghost ai = alive_only(q0.take(idx as int), alive@.take(idx as int));
                    if alive[idx] {
                        if num < max_num {
                            woken.push(w);
                            num = num + 1;
                            proof {
                                assert(woken@ =~= ai.push(w).take(num as int));
                                assert(tmp@ =~= ai.push(w).subrange(num as int, num + num2));
                            }
                        } else if num2 < max_num2 {
                            tmp.push(w);
                            num2 = num2 + 1;
                            proof {
                                assert(woken@ =~= ai.push(w).take(num as int));
                                assert(tmp@ =~= ai.push(w).subrange(num as int, num + num2));
                            }
                        } else {
                            proof {
                                assert(woken@ =~= ai.push(w).take(num as int));
                                assert(tmp@ =~= ai.push(w).subrange(num as int, num + num2));
                            }
                        }
                    }
                    idx = idx + 1;
                    proof {
                        assert(q@ =~= q0.skip(idx as int));
                    }
                }
                proof {
                    assert(idx == q0.len());
                    lemma_alive_only_all(q0, alive@);
                }
                self.buckets.insert(i, (k, q));
                proof {
                    assert(q@ =~= Seq::<W>::empty());
                    assert(self.buckets@ =~= b.update(i as int, (old_key, q)));
                    assert forall|o: FutexKey| o != old_key implies #[trigger] self.queue(o) == old(self).queue(o) by {
                        Self::lemma_replace_other(b, i as int, q, o);
                        lemma_first_from(b, has_key::<W>(o), 0);
                    }
                    Self::lemma_replace(b, i as int, q);
                }
            },
        }
        if tmp.len() > 0 {
            self.append_to(new_key, tmp);
        } else {
            proof {
                assert(old(self).queue(new_key) + tmp@ =~= old(self).queue(new_key));
            }
        }
        woken
    }
}

} // verus!
