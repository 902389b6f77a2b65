use breaker_machines::BulkheadSemaphore;

#[test]
fn test_bulkhead_basic_acquire_release() {
    let mut bulkhead = BulkheadSemaphore::new(3);

    assert_eq!(bulkhead.limit(), 3);
    assert_eq!(bulkhead.acquired(), 0);
    assert_eq!(bulkhead.available(), 3);

    // Acquire first permit
    let guard1 = bulkhead.try_acquire();
    assert!(guard1.is_some());
    assert_eq!(bulkhead.acquired(), 1);
    assert_eq!(bulkhead.available(), 2);

    // Acquire second permit
    let guard2 = bulkhead.try_acquire();
    assert!(guard2.is_some());
    assert_eq!(bulkhead.acquired(), 2);

    // Release first permit
    bulkhead.release(guard1.unwrap());
    assert_eq!(bulkhead.acquired(), 1);
    assert_eq!(bulkhead.available(), 2);

    // Release second permit
    bulkhead.release(guard2.unwrap());
    assert_eq!(bulkhead.acquired(), 0);
    assert_eq!(bulkhead.available(), 3);
}

#[test]
fn test_bulkhead_at_capacity() {
    let mut bulkhead = BulkheadSemaphore::new(2);

    let guard1 = bulkhead.try_acquire().expect("Should acquire");
    let guard2 = bulkhead.try_acquire().expect("Should acquire");

    // At capacity - should fail
    let guard3 = bulkhead.try_acquire();
    assert!(guard3.is_none(), "Should not acquire when at capacity");
    assert_eq!(bulkhead.acquired(), 2);

    // Release one permit
    bulkhead.release(guard1);

    // Now should succeed
    let guard4 = bulkhead.try_acquire();
    assert!(guard4.is_some(), "Should acquire after release");
    assert_eq!(bulkhead.acquired(), 2);

    bulkhead.release(guard2);
    bulkhead.release(guard4.unwrap());
    assert_eq!(bulkhead.acquired(), 0);
}
