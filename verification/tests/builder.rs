use breaker_machines::CircuitBuilder;

#[test]
fn test_builder_defaults() {
    let circuit = CircuitBuilder::new("test".to_string()).build();

    assert_eq!(circuit.state_name(), "Closed");
    assert!(circuit.is_closed());
}

#[test]
fn test_builder_custom_config() {
    let circuit = CircuitBuilder::new("test".to_string())
        .failure_threshold(10)
        .failure_window_nanos(120_000_000_000)
        .half_open_timeout_nanos(60_000_000_000)
        .success_threshold(3)
        .build();

    assert!(circuit.is_closed());
}

#[test]
fn test_builder_with_callbacks() {
    // Transition hooks are driven from the transition record the
    // breaker keeps; opening must be observable there.
    let mut circuit = CircuitBuilder::new("test".to_string()).failure_threshold(2).build();

    // Trigger failures to open circuit
    let _ = circuit.call(|| Err::<(), _>("error 1"));
    let _ = circuit.call(|| Err::<(), _>("error 2"));

    assert!(circuit.last_transitions().opened);
}

#[test]
fn test_builder_config_values() {
    let circuit = CircuitBuilder::new("test".to_string())
        .failure_threshold(7)
        .failure_rate_ppm(250_000)
        .minimum_calls(11)
        .failure_window_nanos(5_000_000_000)
        .half_open_timeout_nanos(9_000_000_000)
        .success_threshold(4)
        .jitter_factor_ppm(100_000)
        .build();

    let cfg = circuit.config();
    assert_eq!(cfg.failure_threshold, Some(7));
    assert_eq!(cfg.failure_rate_threshold_ppm, Some(250_000));
    assert_eq!(cfg.minimum_calls, 11);
    assert_eq!(cfg.failure_window, 5_000_000_000);
    assert_eq!(cfg.half_open_timeout, 9_000_000_000);
    assert_eq!(cfg.success_threshold, 4);
    assert_eq!(cfg.jitter_factor_ppm, 100_000);
}

#[test]
fn test_builder_failure_rate_clamps() {
    let circuit = CircuitBuilder::new("test".to_string())
        .failure_rate_ppm(3_000_000)
        .build();

    assert_eq!(circuit.config().failure_rate_threshold_ppm, Some(1_000_000));
}
