use rcore_kernel::scheduler::{FIFOScheduler, FifoScheduler, Scheduler};

#[test]
fn fifo_round_robin_rotates() {
    let mut s: FIFOScheduler<isize> = FIFOScheduler::default();
    s.add_thread(1);
    s.add_thread(2);
    s.add_thread(3);
    assert_eq!(s.get_next(), Some(1));
    assert_eq!(s.get_next(), Some(2));
    assert_eq!(s.get_next(), Some(3));
    // The threads handed out went back to the end of the queue.
    assert_eq!(s.get_next(), Some(1));
    assert_eq!(s.len(), 3);
}

#[test]
fn fifo_round_robin_empty() {
    let mut s: FIFOScheduler<isize> = FIFOScheduler::default();
    assert_eq!(s.get_next(), None);
    assert_eq!(s.len(), 0);
}

#[test]
fn fifo_round_robin_remove() {
    let mut s: FIFOScheduler<isize> = FIFOScheduler::default();
    s.add_thread(1);
    s.add_thread(2);
    s.add_thread(3);
    s.remove_thread(&2);
    assert_eq!(s.len(), 2);
    assert_eq!(s.get_next(), Some(1));
    assert_eq!(s.get_next(), Some(3));
    assert_eq!(s.get_next(), Some(1));
}

#[test]
fn fifo_takes_front() {
    let mut s: FifoScheduler<isize> = FifoScheduler::default();
    s.add_thread(7);
    s.add_thread(8);
    assert_eq!(s.get_next(), Some(7));
    assert_eq!(s.get_next(), Some(8));
    assert_eq!(s.get_next(), None);
}

#[test]
fn fifo_remove_first_occurrence_only() {
    let mut s: FifoScheduler<isize> = FifoScheduler::default();
    s.add_thread(5);
    s.add_thread(6);
    s.add_thread(5);
    s.remove_thread(&5);
    assert_eq!(s.len(), 2);
    assert_eq!(s.get_next(), Some(6));
    assert_eq!(s.get_next(), Some(5));
}

#[test]
fn fifo_remove_missing_is_noop() {
    let mut s: FifoScheduler<isize> = FifoScheduler::default();
    s.add_thread(5);
    s.remove_thread(&9);
    assert_eq!(s.len(), 1);
    s.set_priority(5, ());
    assert_eq!(s.get_next(), Some(5));
}

#[test]
fn scheduler_new_empty() {
    let mut s = <FifoScheduler<isize> as Scheduler<isize>>::new_empty();
    assert_eq!(s.get_next(), None);
}
