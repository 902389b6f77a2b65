use breaker_machines::{
    CircuitBreaker, DefaultClassifier, DurationClassifier, FailureClassifier,
};

#[test]
fn test_default_classifier_trips_all() {
    let classifier = DefaultClassifier::new();

    assert!(classifier.should_trip("test", 100_000_000));
}

#[test]
fn test_predicate_classifier() {
    // Classifier that only trips on slow errors (over one second)
    let classifier = DurationClassifier::new(1_000_000_000);

    assert!(!classifier.should_trip("test", 500_000_000));
    assert!(classifier.should_trip("test", 2_000_000_000));
}

#[test]
fn test_failure_classifier_with_slow_errors() {
    // Only trip on errors that take > 0.5s
    let classifier = DurationClassifier::new(500_000_000);

    let mut circuit = CircuitBreaker::builder("test".to_string())
        .failure_threshold(2)
        .failure_classifier(classifier)
        .build();

    // Fast errors don't trip (duration will be near zero in tests)
    for _ in 0..10 {
        let _ = circuit.call(|| Err::<(), _>("fast error"));
    }
    assert!(circuit.is_closed(), "Circuit should not trip on fast errors");

    // Nothing was recorded either: the log shows no failures.
    let log = circuit.event_log(100);
    assert_eq!(log.len(), 0, "Vetoed failures must not be recorded");
}

#[test]
fn test_no_classifier_default_behavior() {
    // Without classifier, all errors should trip circuit (backward compatible)
    let mut circuit = CircuitBreaker::builder("test".to_string()).failure_threshold(3).build();

    let _ = circuit.call(|| Err::<(), _>("error 1"));
    let _ = circuit.call(|| Err::<(), _>("error 2"));
    assert!(circuit.is_closed());

    let _ = circuit.call(|| Err::<(), _>("error 3"));
    assert!(circuit.is_open(), "All errors should trip circuit without classifier");
}
