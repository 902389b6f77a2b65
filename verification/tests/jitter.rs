use breaker_machines::circuit::effective_timeout;

#[test]
fn test_zero_jitter_produces_constant_timeout() {
    // With the jitter factor zero the effective timeout is the base,
    // whatever was drawn.
    for unit in [0u32, 1, 250_000, 999_999, 1_000_000] {
        assert_eq!(effective_timeout(1_000_000_000, 0, unit), 1_000_000_000);
    }
}

#[test]
fn test_jitter_distribution_within_bounds() {
    // With 25% jitter on a one-second base, every sampled timeout lies
    // in [750ms, 1000ms].
    let base = 1_000_000_000u64;
    let jitter = 250_000u32;
    for unit in [0u32, 1, 100_000, 500_000, 999_999, 1_000_000] {
        let t = effective_timeout(base, jitter, unit);
        assert!(t >= 750_000_000, "timeout {} below lower bound", t);
        assert!(t <= base, "timeout {} above base", t);
    }
    // The extremes are met exactly.
    assert_eq!(effective_timeout(base, jitter, 0), 750_000_000);
    assert_eq!(effective_timeout(base, jitter, 1_000_000), base);
}

#[test]
fn test_full_jitter_spans_range() {
    // With full jitter the draw alone decides, from zero to the base.
    let base = 1_000_000_000u64;
    assert_eq!(effective_timeout(base, 1_000_000, 0), 0);
    assert_eq!(effective_timeout(base, 1_000_000, 500_000), 500_000_000);
    assert_eq!(effective_timeout(base, 1_000_000, 1_000_000), base);
}
