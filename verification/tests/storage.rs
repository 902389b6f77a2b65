use breaker_machines::{EventKind, MemoryStorage, NullStorage, StorageBackend};

/// Busy-wait until roughly `nanos` nanoseconds of wall time have
/// passed, measured on a throwaway store's clock.
fn spin_for_nanos(nanos: u64) {
    let mut clock = MemoryStorage::new();
    while clock.monotonic_time() < nanos {}
}

#[test]
fn test_memory_storage_record_and_count() {
    let mut storage = MemoryStorage::new();

    storage.record_success("test_circuit", 100_000_000);
    storage.record_success("test_circuit", 200_000_000);
    storage.record_failure("test_circuit", 500_000_000);

    assert_eq!(storage.success_count("test_circuit", 60_000_000_000), 2);
    assert_eq!(storage.failure_count("test_circuit", 60_000_000_000), 1);
}

#[test]
fn test_memory_storage_clear() {
    let mut storage = MemoryStorage::new();

    storage.record_success("test_circuit", 100_000_000);
    assert_eq!(storage.success_count("test_circuit", 60_000_000_000), 1);

    storage.clear("test_circuit");
    assert_eq!(storage.success_count("test_circuit", 60_000_000_000), 0);
}

#[test]
fn test_memory_storage_event_log() {
    let mut storage = MemoryStorage::new();

    storage.record_success("test_circuit", 100_000_000);
    storage.record_failure("test_circuit", 200_000_000);
    storage.record_success("test_circuit", 300_000_000);

    let log = storage.event_log("test_circuit", 10);
    assert_eq!(log.len(), 3);
    assert_eq!(log[0].kind, EventKind::Success);
    assert_eq!(log[1].kind, EventKind::Failure);
    assert_eq!(log[2].kind, EventKind::Success);
}

#[test]
fn test_memory_storage_max_events_cleanup() {
    let mut storage = MemoryStorage::with_max_events(100);

    for i in 0..150u64 {
        storage.record_success("test_circuit", i * 10_000_000);
    }

    let log = storage.event_log("test_circuit", 1000);
    assert!(log.len() <= 100);
}

#[test]
fn test_memory_storage_small_max_events() {
    let mut storage = MemoryStorage::with_max_events(5);

    for i in 0..20u64 {
        storage.record_success("test_circuit", i * 10_000_000);
    }

    let log = storage.event_log("test_circuit", 1000);
    assert!(log.len() <= 5, "Expected <= 5 events, got {}", log.len());
}

#[test]
fn test_memory_storage_overflow_sheds_tenth() {
    // A log capped at 100 holds 100 events; the next record sheds the
    // ten oldest before keeping the newest, leaving 91.
    let mut storage = MemoryStorage::with_max_events(100);

    for i in 0..100u64 {
        storage.record_failure("c", i);
    }
    assert_eq!(storage.event_log("c", 1000).len(), 100);

    storage.record_failure("c", 100);
    let log = storage.event_log("c", 1000);
    assert_eq!(log.len(), 91);
    // The newest event is always kept.
    assert_eq!(log[log.len() - 1].duration, 100);
    // The ten oldest were dropped.
    assert_eq!(log[0].duration, 10);
}

#[test]
fn test_memory_storage_monotonic_time() {
    let mut storage = MemoryStorage::new();

    storage.record_success("test_circuit", 100_000_000);
    let time1 = storage.monotonic_time();

    spin_for_nanos(10_000_000);

    storage.record_success("test_circuit", 200_000_000);
    let time2 = storage.monotonic_time();

    assert!(time2 > time1);
    assert_eq!(storage.success_count("test_circuit", 1_000_000_000), 2);
}

#[test]
fn test_memory_storage_timestamps_non_decreasing() {
    let mut storage = MemoryStorage::new();

    for i in 0..50u64 {
        storage.record_failure("c", i);
        storage.record_success("c", i);
    }

    let log = storage.event_log("c", 1000);
    for pair in log.windows(2) {
        assert!(pair[0].timestamp <= pair[1].timestamp);
    }
}

#[test]
fn test_null_storage_discards_events() {
    let mut storage = NullStorage::new();

    storage.record_success("test_circuit", 100_000_000);
    storage.record_failure("test_circuit", 200_000_000);

    assert_eq!(storage.success_count("test_circuit", 60_000_000_000), 0);
    assert_eq!(storage.failure_count("test_circuit", 60_000_000_000), 0);
}

#[test]
fn test_null_storage_empty_event_log() {
    let mut storage = NullStorage::new();

    storage.record_success("test_circuit", 100_000_000);
    storage.record_failure("test_circuit", 200_000_000);

    let log = storage.event_log("test_circuit", 10);
    assert_eq!(log.len(), 0);
}

#[test]
fn test_null_storage_clear_operations() {
    let mut storage = NullStorage::new();

    storage.clear("test_circuit");
    storage.clear_all();

    assert_eq!(storage.success_count("test_circuit", 60_000_000_000), 0);
}

#[test]
fn test_null_storage_monotonic_time() {
    let mut storage = NullStorage::new();

    let time1 = storage.monotonic_time();
    spin_for_nanos(10_000_000);
    let time2 = storage.monotonic_time();

    assert!(time2 > time1);
}

#[test]
fn test_null_storage_with_circuit_breaker() {
    let storage = NullStorage::new();
    let mut circuit = breaker_machines::CircuitBreaker::builder("test".to_string())
        .storage(storage)
        .failure_threshold(3)
        .build();

    let _ = circuit.call(|| Err::<(), _>("error 1"));
    let _ = circuit.call(|| Err::<(), _>("error 2"));
    let _ = circuit.call(|| Err::<(), _>("error 3"));

    assert!(circuit.is_closed());
    assert!(!circuit.is_open());
}
