use crawler::metrics::MetricsCollector;

#[test]
fn fresh_collector_is_all_zero() {
    let m = MetricsCollector::new();
    let s = m.snapshot(0);
    assert_eq!(s.urls_queued, 0);
    assert_eq!(s.urls_processed, 0);
    assert_eq!(s.items_extracted, 0);
    assert_eq!(s.requests_total, 0);
    assert_eq!(s.success_rate_hundredths, 0);
    assert_eq!(s.avg_response_time_ms, 0);
}

#[test]
fn increments_move_one_counter_at_a_time() {
    let mut m = MetricsCollector::new();
    m.increment_urls_queued();
    m.increment_urls_queued();
    m.increment_urls_processed();
    m.increment_items_extracted();
    m.increment_items_processed();
    m.increment_items_failed();
    m.increment_active_workers();
    m.increment_active_workers();
    m.decrement_active_workers();

    let s = m.snapshot(0);
    assert_eq!(s.urls_queued, 2);
    assert_eq!(s.urls_processed, 1);
    assert_eq!(s.items_extracted, 1);
    assert_eq!(s.items_processed, 1);
    assert_eq!(s.items_failed, 1);
    assert_eq!(s.active_workers, 1);
}

#[test]
fn recorders_accumulate_latency_and_totals() {
    let mut m = MetricsCollector::new();
    m.record_success(100);
    m.record_failure(50);

    let s = m.snapshot(1000);
    assert_eq!(s.requests_total, 2);
    assert_eq!(s.requests_success, 1);
    assert_eq!(s.requests_failed, 1);
    assert_eq!(s.avg_response_time_ms, 75);
    assert_eq!(s.elapsed_ms, 1000);
}

#[test]
fn success_rate_is_the_exact_ratio() {
    // one success and three failures: 100 * 1 / 4 percent
    let mut m = MetricsCollector::new();
    m.record_success(10);
    m.record_failure(10);
    m.record_failure(10);
    m.record_failure(10);
    let s = m.snapshot(0);
    assert_eq!(s.success_rate_hundredths, 2500);
}

#[test]
fn average_latency_is_zero_without_requests() {
    let m = MetricsCollector::new();
    let s = m.snapshot(12345);
    assert_eq!(s.avg_response_time_ms, 0);
    assert_eq!(s.success_rate_hundredths, 0);
}

#[test]
fn counters_saturate_instead_of_wrapping() {
    let mut m = MetricsCollector::new();
    m.urls_queued = u64::MAX;
    m.increment_urls_queued();
    assert_eq!(m.urls_queued, u64::MAX);

    let mut m2 = MetricsCollector::new();
    m2.decrement_active_workers();
    assert_eq!(m2.active_workers, 0);
}
