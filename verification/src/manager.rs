//! The ready queue of the FIFO scheduler, the table from process id to
//! task, and the wait queue of a condition variable.
use vstd::prelude::*;
use std::collections::{BTreeMap, VecDeque};

verus! {

broadcast use vstd::laws_cmp::group_laws_cmp;

/// The tasks ready to run, each with its process id, first come first.
pub struct TaskManager<T> {
    pub ready_queue: VecDeque<(usize, T)>,
}

impl<T> TaskManager<T> {
    pub fn new() -> (r: Self)
        ensures
            r.ready_queue@ == Seq::<(usize, T)>::empty(),
    {
        TaskManager { ready_queue: VecDeque::new() }
    }

    /// Puts `task`, of process `pid`, at the end of the queue.
    pub fn add(&mut self, pid: usize, task: T)
        ensures
            final(self).ready_queue@ == old(self).ready_queue@.push((pid, task)),
    {
        self.ready_queue.push_back((pid, task));
    }

    /// Takes the task at the front of the queue.
    pub fn fetch(&mut self) -> (r: Option<T>)
        ensures
            old(self).ready_queue@.len() == 0 ==> r is None && final(self).ready_queue@ == old(
                self,
            ).ready_queue@,
            old(self).ready_queue@.len() > 0 ==> r == Some(old(self).ready_queue@[0].1)
                && final(self).ready_queue@ == old(self).ready_queue@.drop_first(),
    {
        match self.ready_queue.pop_front() {
            Some((_, t)) => {
                proof {
                    assert(self.ready_queue@ =~= old(self).ready_queue@.drop_first());
                }
                Some(t)
            },
            None => None,
        }
    }
}

impl<T: Clone> TaskManager<T> {
    /// A copy of the first ready task of process `pid`.
    pub fn find_task_by_pid(&self, pid: usize) -> (r: Option<T>)
        ensures
            match r {
                Some(t) => exists|i: int|
                    0 <= i < self.ready_queue@.len() && self.ready_queue@[i].0 == pid && cloned(
                        self.ready_queue@[i].1,
                        t,
                    ) && forall|j: int| 0 <= j < i ==> #[trigger] self.ready_queue@[j].0 != pid,
                None => forall|i: int| 0 <= i < self.ready_queue@.len() ==> #[trigger] self.ready_queue@[i].0 != pid,
            },
    {
        let mut i: usize = 0;
        while i < self.ready_queue.len()
            invariant
                0 <= i <= self.ready_queue@.len(),
                forall|j: int| 0 <= j < i ==> #[trigger] self.ready_queue@[j].0 != pid,
            decreases self.ready_queue@.len() - i,
        {
            if self.ready_queue[i].0 == pid {
                let t = self.ready_queue[i].1.clone();
                proof {
                    assert(self.ready_queue@[i as int].0 == pid);
                }
                return Some(t);
            }
            i = i + 1;
        }
        None
    }
}

/// The tasks by process id.
pub struct TaskTable<T> {
    pub map: BTreeMap<usize, T>,
}

impl<T> TaskTable<T> {
    pub fn new() -> (r: Self)
        ensures
            r.map@ == Map::<usize, T>::empty(),
    {
        TaskTable { map: BTreeMap::new() }
    }

    /// Records `task` as the task of process `pid`.
    pub fn insert_into_pid2task(&mut self, pid: usize, task: T)
        ensures
            final(self).map@ == old(self).map@.insert(pid, task),
    {
        self.map.insert(pid, task);
    }

    /// Forgets the task of process `pid`.
    pub fn remove_from_pid2task(&mut self, pid: usize)
        ensures
            final(self).map@ == old(self).map@.remove(pid),
    {
        self.map.remove(&pid);
    }
}

impl<T: Clone> TaskTable<T> {
    /// A copy of the task of process `pid`.
    pub fn pid2task(&self, pid: usize) -> (r: Option<T>)
        ensures
            self.map@.contains_key(pid) ==> (r matches Some(t) && cloned(self.map@[pid], t)),
            !self.map@.contains_key(pid) ==> r is None,
    {
        match self.map.get(&pid) {
            Some(t) => Some(t.clone()),
            None => None,
        }
    }
}

/// The tasks waiting on a condition, first come first.
pub struct Cond<T> {
    pub wait_queue: VecDeque<T>,
}

impl<T> Cond<T> {
    pub fn new() -> (r: Self)
        ensures
            r.wait_queue@ == Seq::<T>::empty(),
    {
        Cond { wait_queue: VecDeque::new() }
    }

    /// The task to wake: the one that has waited longest.
    pub fn signal(&mut self) -> (r: Option<T>)
        ensures
            old(self).wait_queue@.len() == 0 ==> r is None && final(self).wait_queue@ == old(self).wait_queue@,
            old(self).wait_queue@.len() > 0 ==> r == Some(old(self).wait_queue@[0])
                && final(self).wait_queue@ == old(self).wait_queue@.drop_first(),
    {
        let r = self.wait_queue.pop_front();
        proof {
            if old(self).wait_queue@.len() > 0 {
                assert(self.wait_queue@ =~= old(self).wait_queue@.drop_first());
            }
        }
        r
    }

    /// Puts `task` at the end of the wait queue.
    pub fn wait_no_sched(&mut self, task: T)
        ensures
            final(self).wait_queue@ == old(self).wait_queue@.push(task),
    {
        self.wait_queue.push_back(task);
    }
}


/// Tasks leave the ready queue in the order they were added: after adding
/// `t` to a queue `q`, fetching gives the front of `q`, or `t` when `q`
/// was empty, and `t` stays last.
pub proof fn lemma_fifo<T>(q: Seq<(usize, T)>, pid: usize, t: T)
    ensures
        q.len() == 0 ==> q.push((pid, t))[0].1 == t && q.push((pid, t)).drop_first().len() == 0,
        q.len() > 0 ==> q.push((pid, t))[0] == q[0] && q.push((pid, t)).drop_first() == q.drop_first().push(
            (pid, t),
        ),
{
    if q.len() > 0 {
        assert(q.push((pid, t)).drop_first() =~= q.drop_first().push((pid, t)));
    }
}

} // verus!
