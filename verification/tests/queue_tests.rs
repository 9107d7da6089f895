use oskernel::futex::{FutexKey, FutexQueues};
use oskernel::manager::{Cond, TaskManager, TaskTable};

#[test]
fn futex_wake_in_arrival_order_skipping_dead_waiters() {
    let k1 = FutexKey::new(0x8000, 0);
    let k2 = FutexKey::new(0x8000, 7);
    let mut q: FutexQueues<u32> = FutexQueues::new();
    q.wait(k1, 1);
    q.wait(k1, 2);
    q.wait(k2, 100);
    q.wait(k1, 3);
    let woken = q.wake(k1, 2, &vec![true, false, true]);
    assert_eq!(woken, vec![1, 3]);
    let woken = q.wake(k1, 5, &Vec::new());
    assert!(woken.is_empty());
    let woken = q.wake(k2, 1, &vec![true]);
    assert_eq!(woken, vec![100]);
}

#[test]
fn futex_wake_stops_at_max() {
    let k = FutexKey::new(0x1000, 1);
    let mut q: FutexQueues<u32> = FutexQueues::new();
    for w in [4, 5, 6] {
        q.wait(k, w);
    }
    assert_eq!(q.wake(k, 1, &vec![false, true, true]), vec![5]);
    assert_eq!(q.wake(k, 0, &vec![true]), Vec::<u32>::new());
    assert_eq!(q.wake(k, 1, &vec![true]), vec![6]);
    assert_eq!(q.wake(FutexKey::new(0x2000, 1), 3, &Vec::new()), Vec::<u32>::new());
}

#[test]
fn futex_requeue_wakes_then_moves() {
    let k1 = FutexKey::new(0x1000, 0);
    let k2 = FutexKey::new(0x2000, 0);
    let mut q: FutexQueues<u32> = FutexQueues::new();
    for w in [1, 2, 3, 4, 5] {
        q.wait(k1, w);
    }
    q.wait(k2, 9);
    let woken = q.requeue(k1, 1, k2, 2, &vec![true, true, false, true, true]);
    assert_eq!(woken, vec![1]);
    assert_eq!(q.wake(k1, 10, &Vec::new()), Vec::<u32>::new());
    assert_eq!(q.wake(k2, 10, &vec![true, true, true]), vec![9, 2, 4]);
}

#[test]
fn futex_requeue_with_negative_limits() {
    let k1 = FutexKey::new(0x1000, 0);
    let k3 = FutexKey::new(0x3000, 0);
    let mut q: FutexQueues<u32> = FutexQueues::new();
    q.wait(k1, 1);
    q.wait(k1, 2);
    let woken = q.requeue(k1, -1, k3, 1, &vec![true, true]);
    assert!(woken.is_empty());
    assert_eq!(q.wake(k3, 10, &vec![true]), vec![1]);
    assert_eq!(q.wake(k1, 10, &Vec::new()), Vec::<u32>::new());
}

#[test]
fn scheduler_is_first_in_first_out() {
    let mut m: TaskManager<&str> = TaskManager::new();
    assert_eq!(m.fetch(), None);
    m.add(3, "a");
    m.add(4, "b");
    m.add(3, "c");
    assert_eq!(m.find_task_by_pid(3), Some("a"));
    assert_eq!(m.find_task_by_pid(9), None);
    assert_eq!(m.fetch(), Some("a"));
    assert_eq!(m.find_task_by_pid(3), Some("c"));
    assert_eq!(m.fetch(), Some("b"));
    assert_eq!(m.fetch(), Some("c"));
    assert_eq!(m.fetch(), None);
}

#[test]
fn task_table_maps_pids() {
    let mut t: TaskTable<u32> = TaskTable::new();
    t.insert_into_pid2task(1, 10);
    t.insert_into_pid2task(2, 20);
    t.insert_into_pid2task(1, 11);
    assert_eq!(t.pid2task(1), Some(11));
    assert_eq!(t.pid2task(2), Some(20));
    t.remove_from_pid2task(2);
    assert_eq!(t.pid2task(2), None);
    t.remove_from_pid2task(5);
    assert_eq!(t.pid2task(1), Some(11));
}

#[test]
fn condition_wakes_the_oldest_waiter() {
    let mut c: Cond<u8> = Cond::new();
    assert_eq!(c.signal(), None);
    c.wait_no_sched(1);
    c.wait_no_sched(2);
    assert_eq!(c.signal(), Some(1));
    assert_eq!(c.signal(), Some(2));
    assert_eq!(c.signal(), None);
}
