use crawler::crawler::{CrawlerEngine, CrawlerState};
use crawler::metrics::MetricsCollector;

#[test]
fn engine_starts_idle_with_fresh_metrics() {
    let e = CrawlerEngine::new(500, 2, None);
    assert_eq!(e.state(), CrawlerState::Idle);
    assert_eq!(e.delay_ms, 500);
    assert_eq!(e.concurrency, 2);
    assert_eq!(e.get_metrics(0).requests_total, 0);
}

#[test]
fn engine_accepts_shared_metrics() {
    let mut m = MetricsCollector::new();
    m.increment_urls_queued();
    let e = CrawlerEngine::new(0, 1, Some(m));
    assert_eq!(e.get_metrics(0).urls_queued, 1);
}

#[test]
fn state_transitions_follow_the_run() {
    let mut e = CrawlerEngine::new(0, 1, None);
    assert_eq!(e.state(), CrawlerState::Idle);
    e.set_state(CrawlerState::Running);
    assert_eq!(e.state(), CrawlerState::Running);
    e.set_state(CrawlerState::Stopped);
    assert_eq!(e.state(), CrawlerState::Stopped);
}

#[test]
fn uniform_successes_add_up() {
    // three successful scrapes of two items each, no failures:
    // items_extracted = 3*2, requests_success = 3, success rate 100%
    let mut e = CrawlerEngine::new(0, 1, None);
    for _ in 0..3 {
        e.on_worker_started();
        e.on_scrape_succeeded(2, 10);
        e.on_worker_finished();
    }
    let s = e.get_metrics(0);
    assert_eq!(s.items_extracted, 6);
    assert_eq!(s.requests_success, 3);
    assert_eq!(s.requests_failed, 0);
    assert_eq!(s.urls_processed, 3);
    assert_eq!(s.active_workers, 0);
    assert_eq!(s.success_rate_hundredths, 10000);
}

#[test]
fn failures_never_produce_items() {
    let mut e = CrawlerEngine::new(0, 1, None);
    e.on_scrape_succeeded(1, 30);
    e.on_scrape_failed(10);
    let s = e.get_metrics(0);
    assert_eq!(s.requests_total, 2);
    assert_eq!(s.requests_failed, 1);
    assert_eq!(s.items_extracted, 1);
    assert_eq!(s.urls_processed, 1);
    assert_eq!(s.success_rate_hundredths, 5000);
    assert_eq!(s.avg_response_time_ms, 20);
}

#[test]
fn item_processing_counts_sink_failures() {
    let mut e = CrawlerEngine::new(0, 1, None);
    e.on_item_processed(true);
    e.on_item_processed(false);
    e.on_item_processed(true);
    let s = e.get_metrics(0);
    assert_eq!(s.items_processed, 3);
    assert_eq!(s.items_failed, 1);
}

#[test]
fn queued_urls_are_counted_by_the_seeder() {
    let mut e = CrawlerEngine::new(0, 1, None);
    e.on_url_queued();
    e.on_url_queued();
    assert_eq!(e.get_metrics(0).urls_queued, 2);
}
