use breaker_machines::{
    BulkheadSemaphore, CircuitBreaker, CircuitError, CircuitState, Config, MemoryStorage,
    StorageBackend,
};

/// Busy-wait until roughly `nanos` nanoseconds of wall time have
/// passed, measured on a throwaway store's clock.
fn spin_for_nanos(nanos: u64) {
    let mut clock = MemoryStorage::new();
    while clock.monotonic_time() < nanos {}
}

#[test]
fn test_circuit_breaker_creation() {
    let config = Config::default();
    let circuit = CircuitBreaker::new("test".to_string(), config);

    assert!(circuit.is_closed());
    assert!(!circuit.is_open());
}

#[test]
fn test_circuit_opens_after_threshold() {
    let config = Config { failure_threshold: Some(3), ..Default::default() };

    let mut circuit = CircuitBreaker::new("test".to_string(), config);

    // Trigger failures via call() method
    let _ = circuit.call(|| Err::<(), _>("error 1"));
    let _ = circuit.call(|| Err::<(), _>("error 2"));
    assert!(circuit.is_closed());

    let _ = circuit.call(|| Err::<(), _>("error 3"));
    assert!(circuit.is_open());
}

#[test]
fn test_reset_clears_state() {
    let config = Config { failure_threshold: Some(2), ..Default::default() };

    let mut circuit = CircuitBreaker::new("test".to_string(), config);

    // Trigger failures
    let _ = circuit.call(|| Err::<(), _>("error 1"));
    let _ = circuit.call(|| Err::<(), _>("error 2"));
    assert!(circuit.is_open());

    circuit.reset();
    assert!(circuit.is_closed());
}

#[test]
fn test_state_machine_closed_to_open_transition() {
    let mut circuit = CircuitBreaker::builder("test_circuit".to_string())
        .failure_threshold(3)
        .build();

    // Initially closed - trip should fail guard
    assert!(!circuit.check_and_trip(), "Should fail guard when below threshold");

    // Record failures to exceed threshold
    circuit.record_failure(100_000_000);
    circuit.record_failure(100_000_000);
    circuit.record_failure(100_000_000);

    // Now trip should succeed - guards pass
    assert!(circuit.check_and_trip(), "Should open after reaching threshold");

    assert_eq!(circuit.state_name(), "Open");
}

#[test]
fn test_state_machine_open_to_half_open_transition() {
    let mut circuit = CircuitBreaker::builder("test_circuit".to_string())
        .failure_threshold(2)
        .half_open_timeout_nanos(10_000_000) // Very short timeout for testing
        .build();

    // Record failures and open circuit
    circuit.record_failure(100_000_000);
    circuit.record_failure(100_000_000);
    assert!(circuit.check_and_trip(), "Should open");

    // Immediately try a call - should still be rejected (timeout not elapsed)
    let result = circuit.call(|| Ok::<_, String>("early"));
    assert!(
        matches!(result, Err(CircuitError::Open { .. })),
        "Should stay open while timeout not elapsed"
    );

    // Wait for timeout
    spin_for_nanos(50_000_000);

    // A successful probe moves the circuit to half-open.
    let result = circuit.call(|| Ok::<_, String>("probe"));
    assert!(result.is_ok(), "Probe should run after timeout");

    // Verify we're in HalfOpen state with the probe counted
    match circuit.state() {
        CircuitState::HalfOpen(h) => assert_eq!(h.consecutive_successes, 1),
        other => panic!("Expected HalfOpen, got {:?}", other),
    }
    assert!(circuit.last_transitions().half_opened);
}

#[test]
fn test_state_machine_half_open_to_closed_guard() {
    let mut circuit = CircuitBreaker::builder("test_circuit".to_string())
        .failure_threshold(2)
        .half_open_timeout_nanos(1_000_000)
        .build();

    // Get to HalfOpen state
    circuit.record_failure(100_000_000);
    circuit.record_failure(100_000_000);
    assert!(circuit.check_and_trip(), "Should open");

    spin_for_nanos(5_000_000);

    let result = circuit.call(|| Ok::<_, String>("probe"));
    assert!(result.is_ok(), "Should reset");

    // One success is below the default threshold of two: the close
    // guard must not have fired.
    assert_eq!(circuit.state_name(), "HalfOpen");
    assert!(!circuit.last_transitions().closed, "Should fail guard without enough successes");
}

#[test]
fn test_builder_with_jitter() {
    let mut circuit = CircuitBreaker::builder("test".to_string())
        .failure_threshold(2)
        .half_open_timeout_nanos(1_000_000_000)
        .jitter_factor_ppm(500_000) // 50% jitter
        .build();

    // Trigger failures
    let _ = circuit.call(|| Err::<(), _>("error 1"));
    let _ = circuit.call(|| Err::<(), _>("error 2"));
    assert!(circuit.is_open());

    // Verify jitter_factor was set
    assert_eq!(circuit.config().jitter_factor_ppm, 500_000);
}

#[test]
fn test_fallback_when_open() {
    let mut circuit = CircuitBreaker::builder("test".to_string()).failure_threshold(2).build();

    // Trigger failures to open circuit
    let _ = circuit.call(|| Err::<(), _>("error 1"));
    let _ = circuit.call(|| Err::<(), _>("error 2"));
    assert!(circuit.is_open());

    // Call with fallback should return fallback result
    let result = circuit.call_with_fallback(
        || Err::<String, _>("should not execute"),
        |ctx| {
            assert_eq!(ctx.circuit_name, "test");
            assert!(matches!(ctx.state, CircuitState::Open(_)));
            Ok("fallback response".to_string())
        },
    );

    assert!(result.is_ok());
    assert_eq!(result.unwrap(), "fallback response");
}

#[test]
fn test_fallback_error_propagation() {
    let mut circuit = CircuitBreaker::builder("test".to_string()).failure_threshold(1).build();

    // Trigger failure to open circuit
    let _ = circuit.call(|| Err::<(), _>("error"));
    assert!(circuit.is_open());

    // Fallback can also return errors
    let result = circuit.call_with_fallback(
        || Ok::<String, _>("should not execute".to_string()),
        |_ctx| Err::<String, _>("fallback error"),
    );

    assert!(result.is_err());
    match result {
        Err(CircuitError::Execution(e)) => assert_eq!(e, "fallback error"),
        _ => panic!("Expected CircuitError::Execution"),
    }
}

#[test]
fn test_rate_based_threshold() {
    let mut circuit = CircuitBreaker::builder("test".to_string())
        .disable_failure_threshold() // Only use rate-based
        .failure_rate_ppm(500_000) // 50% failure rate
        .minimum_calls(10)
        .build();

    // First 9 calls - below minimum, circuit stays closed
    for i in 0..9 {
        let _result = if i % 2 == 0 {
            circuit.call(|| Ok::<(), _>(()))
        } else {
            circuit.call(|| Err::<(), _>("error"))
        };
        // Even with failures, circuit should stay closed (below minimum calls)
        assert!(circuit.is_closed(), "Circuit opened before minimum calls");
    }

    // 10th call - now at minimum, with 5 failures out of 10 = 50% rate
    // This should trip the circuit
    let _ = circuit.call(|| Err::<(), _>("error"));

    // Circuit should now be open (failure rate reached threshold)
    assert!(circuit.is_open(), "Circuit did not open at rate threshold");
}

#[test]
fn test_rate_and_absolute_threshold_both_active() {
    let mut circuit = CircuitBreaker::builder("test".to_string())
        .failure_threshold(3) // Absolute: 3 failures
        .failure_rate_ppm(800_000) // Rate: 80%
        .minimum_calls(10)
        .build();

    // Trigger 3 failures quickly - should open via absolute threshold
    let _ = circuit.call(|| Err::<(), _>("error 1"));
    let _ = circuit.call(|| Err::<(), _>("error 2"));
    assert!(circuit.is_closed());

    let _ = circuit.call(|| Err::<(), _>("error 3"));
    assert!(circuit.is_open(), "Circuit did not open at absolute threshold");
}

#[test]
fn test_minimum_calls_prevents_premature_trip() {
    let mut circuit = CircuitBreaker::builder("test".to_string())
        .disable_failure_threshold()
        .failure_rate_ppm(500_000)
        .minimum_calls(20)
        .build();

    // Record 10 failures out of 10 calls = 100% failure rate
    for _ in 0..10 {
        let _ = circuit.call(|| Err::<(), _>("error"));
    }

    // Circuit should still be closed (below minimum_calls)
    assert!(circuit.is_closed(), "Circuit opened before reaching minimum_calls");
}

#[test]
fn test_bulkhead_rejects_at_capacity() {
    let mut circuit = CircuitBreaker::builder("test".to_string()).max_concurrency(2).build();

    // First two calls should succeed (we're not actually holding them)
    let result1 = circuit.call(|| Ok::<_, String>("success 1"));
    let result2 = circuit.call(|| Ok::<_, String>("success 2"));

    assert!(result1.is_ok());
    assert!(result2.is_ok());
}

#[test]
fn test_bulkhead_releases_on_success() {
    let mut circuit = CircuitBreaker::builder("test".to_string()).max_concurrency(1).build();

    // First call acquires permit
    let result1 = circuit.call(|| Ok::<_, String>("success"));
    assert!(result1.is_ok());

    // Permit is released, second call should succeed
    let result2 = circuit.call(|| Ok::<_, String>("success"));
    assert!(result2.is_ok());
}

#[test]
fn test_bulkhead_releases_on_failure() {
    let mut circuit = CircuitBreaker::builder("test".to_string())
        .max_concurrency(1)
        .failure_threshold(10) // High threshold so circuit doesn't open
        .build();

    // First call fails but releases permit
    let result1 = circuit.call(|| Err::<(), _>("error"));
    assert!(result1.is_err());

    // Permit is released, second call should succeed
    let result2 = circuit.call(|| Ok::<_, String>("success"));
    assert!(result2.is_ok());
}

#[test]
fn test_bulkhead_without_limit() {
    let mut circuit = CircuitBreaker::builder("test".to_string()).build();

    // Without bulkhead, all calls should go through
    for _ in 0..100 {
        let result = circuit.call(|| Ok::<_, String>("success"));
        assert!(result.is_ok());
    }
}

#[test]
fn test_bulkhead_error_contains_limit() {
    // Test that bulkhead full error contains circuit name and limit.
    // Saturate the bulkhead before handing it to the breaker.
    let mut bulkhead = BulkheadSemaphore::new(2);
    let guard1 = bulkhead.try_acquire().unwrap();
    let guard2 = bulkhead.try_acquire().unwrap();

    let mut circuit = CircuitBreaker::builder("test".to_string()).bulkhead(bulkhead).build();

    // Now circuit call should fail with BulkheadFull
    let result = circuit.call(|| Ok::<_, String>("should fail"));

    match result {
        Err(CircuitError::BulkheadFull { circuit: name, limit }) => {
            assert_eq!(name, "test");
            assert_eq!(limit, 2);
        }
        _ => panic!("Expected BulkheadFull error, got: {:?}", result),
    }

    // Give the permits back to release capacity
    circuit.release_permit(guard1);
    circuit.release_permit(guard2);

    // Now call should succeed
    let result = circuit.call(|| Ok::<_, String>("success"));
    assert!(result.is_ok());
}

#[test]
fn test_bulkhead_with_circuit_breaker() {
    let mut circuit = CircuitBreaker::builder("test".to_string())
        .max_concurrency(5)
        .failure_threshold(3)
        .build();

    // Circuit is closed, bulkhead allows calls
    let result = circuit.call(|| Ok::<_, String>("success"));
    assert!(result.is_ok());

    // Open the circuit with failures
    for _ in 0..3 {
        let _ = circuit.call(|| Err::<(), _>("error"));
    }
    assert!(circuit.is_open());

    // Even with bulkhead capacity, open circuit rejects calls
    let result = circuit.call(|| Ok::<_, String>("should fail"));
    assert!(matches!(result, Err(CircuitError::Open { .. })));
}

#[test]
fn test_check_and_trip_sets_opened_at_and_callback() {
    let mut circuit = CircuitBreaker::builder("test".to_string()).failure_threshold(1).build();

    circuit.record_failure(100_000_000);
    let tripped = circuit.check_and_trip();

    assert!(tripped, "Trip should succeed");
    assert!(circuit.is_open(), "Circuit should be open after trip");

    let opened_at = match circuit.state() {
        CircuitState::Open(o) => o.opened_at,
        other => panic!("Open data should be present, got {:?}", other),
    };

    assert!(opened_at > 0, "opened_at should be set");
    assert!(circuit.last_transitions().opened, "opening transition should be observed");
}

#[test]
fn test_half_open_failure_resets_consecutive_successes() {
    // A short window lets the opening failures expire while the
    // circuit waits out its half-open timeout, so the probe failure
    // below does not re-trip it.
    let mut circuit = CircuitBreaker::builder("test".to_string())
        .failure_threshold(2)
        .failure_window_nanos(10_000_000)
        .half_open_timeout_nanos(1_000_000)
        .success_threshold(2)
        .build();

    // Open the circuit
    let _ = circuit.call(|| Err::<(), _>("error 1"));
    let _ = circuit.call(|| Err::<(), _>("error 2"));
    assert!(circuit.is_open());

    // Move past the timeout (and past the failure window)
    spin_for_nanos(15_000_000);

    // First success increments consecutive count
    let _ = circuit.call(|| Ok::<_, String>("ok"));
    match circuit.state() {
        CircuitState::HalfOpen(h) => assert_eq!(h.consecutive_successes, 1),
        other => panic!("Expected HalfOpen, got {:?}", other),
    }

    // Failure below threshold should not reopen circuit but should reset counter
    let _ = circuit.call(|| Err::<(), _>("fail"));
    assert_eq!(circuit.state_name(), "HalfOpen");
    match circuit.state() {
        CircuitState::HalfOpen(h) => assert_eq!(h.consecutive_successes, 0),
        other => panic!("Expected HalfOpen, got {:?}", other),
    }

    // Next success starts count from 1 again
    let _ = circuit.call(|| Ok::<_, String>("ok2"));
    match circuit.state() {
        CircuitState::HalfOpen(h) => assert_eq!(h.consecutive_successes, 1),
        other => panic!("Expected HalfOpen, got {:?}", other),
    }
}

#[test]
fn test_absolute_trip_rejects_without_running() {
    // Three failures open the circuit; the fourth call is rejected
    // with the circuit's name and stamp, without running the operation.
    let mut circuit = CircuitBreaker::builder("c".to_string()).failure_threshold(3).build();

    let _ = circuit.call(|| Err::<(), _>("e1"));
    let _ = circuit.call(|| Err::<(), _>("e2"));
    assert!(circuit.is_closed());
    let _ = circuit.call(|| Err::<(), _>("e3"));
    assert!(circuit.is_open());

    let mut ran = false;
    let result = circuit.call(|| {
        ran = true;
        Ok::<(), String>(())
    });
    match result {
        Err(CircuitError::Open { circuit: name, opened_at }) => {
            assert_eq!(name, "c");
            assert!(opened_at > 0);
        }
        other => panic!("Expected Open error, got {:?}", other),
    }
    assert!(!ran, "Rejected call must not run the operation");
}

#[test]
fn test_half_open_probe_success_closes() {
    // Two failures open the circuit; after the timeout, two successful
    // probes close it, and the closing transition is observed exactly
    // on the second probe.
    let mut circuit = CircuitBreaker::builder("c".to_string())
        .failure_threshold(2)
        .failure_window_nanos(10_000_000)
        .half_open_timeout_nanos(1_000_000)
        .success_threshold(2)
        .build();

    let _ = circuit.call(|| Err::<(), _>("e1"));
    let _ = circuit.call(|| Err::<(), _>("e2"));
    assert!(circuit.is_open());

    spin_for_nanos(15_000_000);

    let first = circuit.call(|| Ok::<_, String>("one"));
    assert!(first.is_ok());
    match circuit.state() {
        CircuitState::HalfOpen(h) => assert_eq!(h.consecutive_successes, 1),
        other => panic!("Expected HalfOpen, got {:?}", other),
    }
    assert!(!circuit.last_transitions().closed);

    let second = circuit.call(|| Ok::<_, String>("two"));
    assert!(second.is_ok());
    assert!(circuit.is_closed());
    assert!(circuit.last_transitions().closed, "Close fires on the second success");
}
