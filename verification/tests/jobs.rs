use jpresentation::jobs::JobQueue;

#[test]
fn pool_size_is_at_least_two() {
    for cores in [None, Some(1), Some(2), Some(4), Some(64)] {
        let queue = JobQueue::new(cores);
        assert!(queue.pool_size() >= 2);
    }
}

#[test]
fn one_core_is_left_for_the_interface() {
    assert_eq!(JobQueue::new(Some(8)).pool_size(), 7);
    assert_eq!(JobQueue::new(Some(1)).pool_size(), 2);
    assert_eq!(JobQueue::new(Some(3)).pool_size(), 2);
    assert_eq!(JobQueue::new(None).pool_size(), 2);
}
