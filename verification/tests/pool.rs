use pc_usage_monitor::error::ErrorKind;
use pc_usage_monitor::pool::TaskPool;

#[test]
fn new_pool_is_free() {
    let pool = TaskPool::new(3);
    assert_eq!(pool.capacity(), 3);
    assert_eq!(pool.in_flight(), 0);
}

#[test]
fn one_call_more_than_slots_is_turned_away() {
    let mut pool = TaskPool::new(3);
    assert_eq!(pool.acquire(10), Ok(0));
    assert_eq!(pool.acquire(11), Ok(1));
    assert_eq!(pool.acquire(12), Ok(2));
    assert_eq!(pool.acquire(13), Err(ErrorKind::PoolExhausted));
    assert_eq!(pool.in_flight(), 3);
    assert_eq!(pool.capacity(), 3);
}

#[test]
fn every_pool_size_admits_exactly_its_slots() {
    for size in [0u8, 1, 2, 7, 255] {
        let mut pool = TaskPool::new(size);
        for call in 0..size as u32 {
            assert_eq!(pool.acquire(1000 + call), Ok(call as usize));
        }
        assert_eq!(pool.acquire(5), Err(ErrorKind::PoolExhausted));
        assert_eq!(pool.in_flight(), size as usize);
    }
}

#[test]
fn release_returns_the_call_and_frees_the_slot() {
    let mut pool = TaskPool::new(2);
    assert_eq!(pool.acquire(7), Ok(0));
    assert_eq!(pool.acquire(8), Ok(1));
    assert_eq!(pool.release(0), Some(7));
    assert_eq!(pool.in_flight(), 1);
    assert_eq!(pool.acquire(9), Ok(0));
    assert_eq!(pool.acquire(10), Err(ErrorKind::PoolExhausted));
    assert_eq!(pool.release(1), Some(8));
    assert_eq!(pool.release(0), Some(9));
    assert_eq!(pool.in_flight(), 0);
}

#[test]
fn release_of_a_free_or_missing_slot_changes_nothing() {
    let mut pool = TaskPool::new(2);
    assert_eq!(pool.acquire(7), Ok(0));
    let before = pool.clone();
    assert_eq!(pool.release(1), None);
    assert_eq!(pool.release(2), None);
    assert_eq!(pool.release(usize::MAX), None);
    assert_eq!(pool, before);
    assert_eq!(pool.in_flight(), 1);
}

#[test]
fn first_free_slot_is_taken() {
    let mut pool = TaskPool::new(3);
    assert_eq!(pool.acquire(1), Ok(0));
    assert_eq!(pool.acquire(2), Ok(1));
    assert_eq!(pool.acquire(3), Ok(2));
    assert_eq!(pool.release(1), Some(2));
    assert_eq!(pool.release(0), Some(1));
    assert_eq!(pool.acquire(4), Ok(0));
    assert_eq!(pool.acquire(5), Ok(1));
}

#[test]
fn pool_does_not_deduplicate_sequence_numbers() {
    let mut pool = TaskPool::new(2);
    assert_eq!(pool.acquire(4), Ok(0));
    assert_eq!(pool.acquire(4), Ok(1));
    assert_eq!(pool.release(1), Some(4));
    assert_eq!(pool.release(0), Some(4));
}
