use webserver::pool::ThreadPool;

#[test]
fn zero_workers_fails_before_any_task() {
    let r = ThreadPool::new(0);
    assert_eq!(r.err(), Some(String::from("ThreadPool requires at least one worker")));
}

#[test]
fn pool_starts_with_its_workers_and_an_empty_queue() {
    let pool = ThreadPool::new(4).unwrap();
    assert_eq!(pool.workers.len(), 4);
    assert_eq!(pool.workers[0].id, 0);
    assert_eq!(pool.workers[3].id, 3);
    assert!(pool.pending.is_empty());
}

#[test]
fn tasks_are_claimed_exactly_once_in_submission_order() {
    let mut pool = ThreadPool::new(2).unwrap();
    pool.execute(10);
    pool.execute(11);
    pool.execute(12);
    assert_eq!(pool.claim(), Some(10));
    assert_eq!(pool.claim(), Some(11));
    pool.execute(13);
    assert_eq!(pool.claim(), Some(12));
    assert_eq!(pool.claim(), Some(13));
    assert_eq!(pool.claim(), None);
    assert_eq!(pool.claim(), None);
}

#[test]
fn empty_pool_has_nothing_to_claim() {
    let mut pool = ThreadPool::new(1).unwrap();
    assert_eq!(pool.claim(), None);
}
